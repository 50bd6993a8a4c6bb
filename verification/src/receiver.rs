//! The receiving side of remote control: which events from the controlling
//! peer are injected, in which order, and when control ends. Positions arrive
//! already clamped to the local screen by the platform side (`P` is its point
//! type, `W` its wheel delta).
use crate::input::{RemoteMouseEvent, RoutedEvent, RoutedKeyboardEvent};
use crate::platform::{KeyInjection, KeyboardInjectionBackend, PermissionState, PlatformError};
use vstd::prelude::*;

verus! {

/// A request handed to a mouse injector.
#[derive(Debug, Clone, Copy, PartialEq)]
pub enum InjectorRequest<P, W> {
    /// Inject this event.
    Inject(RemoteMouseEvent<P, W>),
    /// Release every button the injector holds down.
    ReleaseAll,
}

/// What a mouse injector was asked to do, oldest first.
pub type InjectorRequests<P, W> = Seq<InjectorRequest<P, W>>;

/// OS mouse injection. Implementations must ignore events marked as
/// self-generated. `requests` is the injector's record of what it was asked
/// to do, oldest first; every implementation keeps it: each call of `inject`
/// or `release_all` adds its request, whether or not the platform then
/// carried it out.
pub trait MouseInjectionBackend<P, W> {
    spec fn requests(&self) -> InjectorRequests<P, W>;

    fn permission_state(&self) -> PermissionState;

    fn inject(&mut self, event: RemoteMouseEvent<P, W>) -> (injected: Result<(), PlatformError>)
        ensures
            final(self).requests() == old(self).requests().push(InjectorRequest::Inject(event)),
    ;

    /// Advances any platform-specific movement pacing; most backends need
    /// none, and by default polling does nothing and succeeds.
    fn poll(&mut self) -> (polled: Result<(), PlatformError>)
        default_ensures
            polled is Ok,
    {
        Ok(())
    }

    fn release_all(&mut self) -> (released: Result<(), PlatformError>)
        ensures
            final(self).requests() == old(self).requests().push(InjectorRequest::ReleaseAll),
    ;
}

/// Why an event from the peer was refused.
#[derive(Debug, Clone, PartialEq, Eq)]
pub enum ReceiverError {
    ZeroMouseIds,
    ZeroKeyboardIds,
    MouseBeforeEnter,
    KeyboardBeforeEnter,
    LeaveWithoutPosition,
    InvalidWatermark,
    DatagramNotMovement,
    PendingNotMovement,
    Platform(PlatformError),
}

impl ReceiverError {
    pub fn message(&self) -> (text: String)
        ensures
            self matches ReceiverError::Platform(e) ==> text@ == e.spec_message(),
            *self == ReceiverError::ZeroMouseIds ==> text@
                == "peer sent a zero session or sequence number"@,
            *self == ReceiverError::MouseBeforeEnter ==> text@
                == "peer sent mouse input before entering the local screen"@,
            *self == ReceiverError::KeyboardBeforeEnter ==> text@
                == "peer sent keyboard input before entering the local screen"@,
    {
        match self {
            ReceiverError::ZeroMouseIds => "peer sent a zero session or sequence number".to_owned(),
            ReceiverError::ZeroKeyboardIds =>
                "peer sent a zero keyboard session or sequence number".to_owned(),
            ReceiverError::MouseBeforeEnter =>
                "peer sent mouse input before entering the local screen".to_owned(),
            ReceiverError::KeyboardBeforeEnter =>
                "peer sent keyboard input before entering the local screen".to_owned(),
            ReceiverError::LeaveWithoutPosition =>
                "peer left before announcing a pointer position".to_owned(),
            ReceiverError::InvalidWatermark =>
                "peer sent an invalid movement ordering watermark".to_owned(),
            ReceiverError::DatagramNotMovement =>
                "peer sent a non-movement event as a datagram".to_owned(),
            ReceiverError::PendingNotMovement =>
                "pending datagram did not contain absolute movement".to_owned(),
            ReceiverError::Platform(e) => e.message().to_owned(),
        }
    }
}

/// What a handled event changed about remote control of this computer.
#[derive(Debug, Clone, Copy, PartialEq)]
pub enum RemoteTransition<P> {
    NoChange,
    Started { position: P },
    FirstMotion,
    Ended { position: P },
}

/// A movement datagram held back until the reliable event it follows arrived.
#[derive(Debug, Clone, Copy, PartialEq)]
pub struct PendingDatagram<P, W> {
    pub session_id: u64,
    pub after_sequence: u64,
    pub event: RoutedEvent<P, W>,
}

/// The state of the receiving side.
#[derive(Debug, Clone, Copy, PartialEq)]
pub struct RemoteReceiver<P, W> {
    pub timeout_ms: u64,
    pub active_session: Option<u64>,
    pub last_sequence: u64,
    pub last_reliable_sequence: u64,
    pub last_activity_ms: Option<u64>,
    pub last_position: Option<P>,
    pub motion_reported: bool,
    pub pending_datagram: Option<PendingDatagram<P, W>>,
}

/// The state once `session` entered: nothing of an earlier session remains.
pub open spec fn opened<P, W>(r: RemoteReceiver<P, W>, session: u64) -> RemoteReceiver<P, W> {
    RemoteReceiver {
        active_session: Some(session),
        last_sequence: 0,
        last_reliable_sequence: 0,
        last_position: None,
        motion_reported: false,
        pending_datagram: None,
        ..r
    }
}

/// The state once control by the peer ended.
pub open spec fn closed<P, W>(r: RemoteReceiver<P, W>) -> RemoteReceiver<P, W> {
    RemoteReceiver {
        active_session: None,
        last_activity_ms: None,
        motion_reported: false,
        pending_datagram: None,
        ..r
    }
}

/// The state and transition after the reliable event `routed` was injected.
pub open spec fn after_reliable<P, W>(
    r: RemoteReceiver<P, W>,
    routed: RoutedEvent<P, W>,
    started: bool,
    now_ms: u64,
) -> (RemoteReceiver<P, W>, Result<RemoteTransition<P>, ReceiverError>) {
    let injected = RemoteReceiver {
        last_sequence: routed.sequence,
        last_reliable_sequence: routed.sequence,
        last_activity_ms: Some(now_ms),
        ..r
    };
    match routed.event {
        RemoteMouseEvent::Enter { position, .. } => (
            RemoteReceiver { last_position: Some(position), ..injected },
            Ok(
                if started {
                    RemoteTransition::Started { position }
                } else {
                    RemoteTransition::NoChange
                },
            ),
        ),
        RemoteMouseEvent::MoveAbsolute { position, .. } => (
            RemoteReceiver { last_position: Some(position), motion_reported: true, ..injected },
            Ok(
                if r.motion_reported {
                    RemoteTransition::NoChange
                } else {
                    RemoteTransition::FirstMotion
                },
            ),
        ),
        RemoteMouseEvent::Leave => match r.last_position {
            None => (injected, Err(ReceiverError::LeaveWithoutPosition)),
            Some(position) => (
                closed(RemoteReceiver { last_position: None, ..injected }),
                Ok(RemoteTransition::Ended { position }),
            ),
        },
        _ => (injected, Ok(RemoteTransition::NoChange)),
    }
}

/// The state and transition after the movement datagram `routed` was injected.
pub open spec fn after_datagram<P, W>(
    r: RemoteReceiver<P, W>,
    routed: RoutedEvent<P, W>,
    now_ms: u64,
) -> (RemoteReceiver<P, W>, RemoteTransition<P>) {
    match routed.event {
        RemoteMouseEvent::MoveAbsolute { position, .. } => (
            RemoteReceiver {
                last_sequence: routed.sequence,
                last_activity_ms: Some(now_ms),
                last_position: Some(position),
                motion_reported: true,
                ..r
            },
            if r.motion_reported {
                RemoteTransition::NoChange
            } else {
                RemoteTransition::FirstMotion
            },
        ),
        _ => (r, RemoteTransition::NoChange),
    }
}

/// Whether a datagram is to be held back: it follows a reliable event that has
/// not arrived yet.
pub open spec fn waits_for_watermark<P, W>(r: RemoteReceiver<P, W>, after_sequence: u64) -> bool {
    after_sequence > r.last_reliable_sequence
}

/// What handling the reliable event `routed` of session `session_id` at
/// `now_ms` does: from the receiver `r`, with the injector asked `asked`
/// so far, to `r1` and `asked1`, answering `transition`.
pub open spec fn handled<P, W>(
    r: RemoteReceiver<P, W>,
    session_id: u64,
    routed: RoutedEvent<P, W>,
    now_ms: u64,
    asked: Seq<InjectorRequest<P, W>>,
    r1: RemoteReceiver<P, W>,
    asked1: Seq<InjectorRequest<P, W>>,
    transition: Result<RemoteTransition<P>, ReceiverError>,
) -> bool {
    let is_enter = routed.event is Enter;
    let started = is_enter && r.active_session != Some(session_id);
    let o = if started {
        opened(r, session_id)
    } else {
        r
    };
    let released = if started {
        asked.push(InjectorRequest::ReleaseAll)
    } else {
        asked
    };
    let injected = released.push(InjectorRequest::Inject(routed.event));
    if session_id == 0 || routed.sequence == 0 {
        &&& transition == Err::<RemoteTransition<P>, ReceiverError>(
            ReceiverError::ZeroMouseIds,
        )
        &&& r1 == r
        &&& asked1 == asked
    } else if !is_enter && r.active_session != Some(session_id) {
        &&& transition == Err::<RemoteTransition<P>, ReceiverError>(
            ReceiverError::MouseBeforeEnter,
        )
        &&& r1 == r
        &&& asked1 == asked
    } else if !started && routed.sequence <= r.last_sequence {
        &&& transition == Ok::<RemoteTransition<P>, ReceiverError>(
            RemoteTransition::NoChange,
        )
        &&& r1 == r
        &&& asked1 == asked
    } else if transition matches Err(ReceiverError::Platform(_)) {
        ||| (started && r1 == r && asked1 == released)
        ||| (r1 == o && asked1 == injected)
    } else {
        &&& asked1 == injected
        &&& (r1, transition) == after_reliable(o, routed, started, now_ms)
    }
}

/// What handling the movement datagram `routed` of session `session_id`,
/// sent after the reliable event `after_sequence`, does at `now_ms`: from the
/// receiver `r`, with the injector asked `asked` so far, to `r1` and
/// `asked1`, answering `transition`.
pub open spec fn datagram_handled<P: Copy, W: Copy>(
    r: RemoteReceiver<P, W>,
    session_id: u64,
    after_sequence: u64,
    routed: RoutedEvent<P, W>,
    now_ms: u64,
    asked: Seq<InjectorRequest<P, W>>,
    r1: RemoteReceiver<P, W>,
    asked1: Seq<InjectorRequest<P, W>>,
    transition: Result<RemoteTransition<P>, ReceiverError>,
) -> bool {
    match RemoteReceiver::<P, W>::spec_datagram_fault(session_id, after_sequence, routed) {
        Some(f) => transition == Err::<RemoteTransition<P>, ReceiverError>(f)
            && r1 == r && asked1 == asked,
        None => if r.active_session != Some(session_id) || routed.sequence
            <= r.last_sequence {
            transition == Ok::<RemoteTransition<P>, ReceiverError>(
                RemoteTransition::NoChange,
            ) && r1 == r && asked1 == asked
        } else if waits_for_watermark(r, after_sequence) {
            asked1 == asked && transition == Ok::<
                RemoteTransition<P>,
                ReceiverError,
            >(RemoteTransition::NoChange) && r1 == (RemoteReceiver {
                pending_datagram: if r.pending_datagram is None || routed.sequence
                    > r.pending_datagram.unwrap().event.sequence {
                    Some(PendingDatagram { session_id, after_sequence, event: routed })
                } else {
                    r.pending_datagram
                },
                ..r
            })
        } else if transition is Err {
            &&& transition matches Err(ReceiverError::Platform(_))
            &&& r1 == r
            &&& asked1 == asked.push(
                InjectorRequest::Inject(routed.event),
            )
        } else {
            &&& asked1 == asked.push(
                InjectorRequest::Inject(routed.event),
            )
            &&& (r1, transition) == (after_datagram(r, routed, now_ms).0, Ok::<
                RemoteTransition<P>,
                ReceiverError,
            >(after_datagram(r, routed, now_ms).1))
        },
    }
}

/// What injecting a held-back datagram once it is ready does at `now_ms`:
/// from `r` and `asked` to `r1` and `asked1`, answering `transition`.
pub open spec fn ready_taken<P, W>(
    r: RemoteReceiver<P, W>,
    now_ms: u64,
    asked: Seq<InjectorRequest<P, W>>,
    r1: RemoteReceiver<P, W>,
    asked1: Seq<InjectorRequest<P, W>>,
    transition: Result<RemoteTransition<P>, ReceiverError>,
) -> bool {
    let without = RemoteReceiver { pending_datagram: None, ..r };
    match r.pending_datagram {
        None => transition == Ok::<RemoteTransition<P>, ReceiverError>(
            RemoteTransition::NoChange,
        ) && r1 == r && asked1 == asked,
        Some(p) => if r.active_session != Some(p.session_id) || p.event.sequence
            <= r.last_sequence {
            transition == Ok::<RemoteTransition<P>, ReceiverError>(
                RemoteTransition::NoChange,
            ) && r1 == without && asked1 == asked
        } else if waits_for_watermark(r, p.after_sequence) {
            transition == Ok::<RemoteTransition<P>, ReceiverError>(
                RemoteTransition::NoChange,
            ) && r1 == r && asked1 == asked
        } else if !(p.event.event is MoveAbsolute) {
            &&& transition == Err::<RemoteTransition<P>, ReceiverError>(
                ReceiverError::PendingNotMovement,
            )
            &&& r1 == without
            &&& asked1 == asked
        } else {
            &&& asked1 == asked.push(InjectorRequest::Inject(p.event.event))
            &&& if transition is Err {
                r1 == without
            } else {
                (r1, transition) == (
                    after_datagram(without, p.event, now_ms).0,
                    Ok::<RemoteTransition<P>, ReceiverError>(
                        after_datagram(without, p.event, now_ms).1,
                    ),
                )
            }
        },
    }
}

/// What handling the keyboard event `routed` of session `session_id` at
/// `now_ms` does: from the receiver `r`, with the injector asked `asked` so
/// far, to `r1` and `asked1`, answering `handled`.
pub open spec fn keyboard_handled<P, W>(
    r: RemoteReceiver<P, W>,
    session_id: u64,
    routed: RoutedKeyboardEvent,
    now_ms: u64,
    asked: Seq<KeyInjection>,
    r1: RemoteReceiver<P, W>,
    asked1: Seq<KeyInjection>,
    handled: Result<(), ReceiverError>,
) -> bool {
    if session_id == 0 || routed.sequence == 0 {
        &&& handled == Err::<(), ReceiverError>(ReceiverError::ZeroKeyboardIds)
        &&& r1 == r
        &&& asked1 == asked
    } else if r.active_session != Some(session_id) {
        &&& handled == Err::<(), ReceiverError>(ReceiverError::KeyboardBeforeEnter)
        &&& r1 == r
        &&& asked1 == asked
    } else if routed.sequence <= r.last_sequence {
        &&& handled is Ok
        &&& r1 == r
        &&& asked1 == asked
    } else {
        &&& asked1 == asked.push(KeyInjection::Inject(routed.event))
        &&& if handled is Err {
            handled matches Err(ReceiverError::Platform(_)) && r1 == r
        } else {
            r1 == (RemoteReceiver {
                last_sequence: routed.sequence,
                last_reliable_sequence: routed.sequence,
                last_activity_ms: Some(now_ms),
                ..r
            })
        }
    }
}

/// What checking the incoming session for silence at `now_ms` does: from
/// the receiver `r`, with the injector asked `asked` so far, to `r1` and
/// `asked1`, answering `ended`.
pub open spec fn silence_checked<P, W>(
    r: RemoteReceiver<P, W>,
    now_ms: u64,
    asked: Seq<InjectorRequest<P, W>>,
    r1: RemoteReceiver<P, W>,
    asked1: Seq<InjectorRequest<P, W>>,
    ended: Result<Option<P>, ReceiverError>,
) -> bool {
    let silent = match r.last_activity_ms {
        None => false,
        Some(last) => (if now_ms >= last {
            now_ms - last
        } else {
            0
        }) >= r.timeout_ms,
    };
    if !silent {
        &&& ended == Ok::<Option<P>, ReceiverError>(None)
        &&& r1 == r
        &&& asked1 == asked
    } else {
        &&& asked1 == asked.push(
            InjectorRequest::ReleaseAll,
        )
        &&& if ended is Err {
            ended matches Err(ReceiverError::Platform(_)) && r1 == r
        } else {
            ended == Ok::<Option<P>, ReceiverError>(r.last_position) && r1
                == closed(RemoteReceiver { last_position: None, ..r })
        }
    }
}

impl<P: Copy, W: Copy> RemoteReceiver<P, W> {
    pub fn new(timeout_ms: u64) -> (receiver: Self)
        ensures
            receiver == (RemoteReceiver::<P, W> {
                timeout_ms,
                active_session: None,
                last_sequence: 0,
                last_reliable_sequence: 0,
                last_activity_ms: None,
                last_position: None,
                motion_reported: false,
                pending_datagram: None,
            }),
    {
        RemoteReceiver {
            timeout_ms,
            active_session: None,
            last_sequence: 0,
            last_reliable_sequence: 0,
            last_activity_ms: None,
            last_position: None,
            motion_reported: false,
            pending_datagram: None,
        }
    }

    pub fn is_active(&self) -> (active: bool)
        ensures
            active == self.active_session is Some,
    {
        self.active_session.is_some()
    }

    /// Refuses zero session IDs and sequence numbers, which no sender uses.
    pub fn check_ids(session_id: u64, sequence: u64) -> (checked: Result<(), ReceiverError>)
        ensures
            (session_id == 0 || sequence == 0) ==> checked == Err::<(), ReceiverError>(
                ReceiverError::ZeroMouseIds,
            ),
            (session_id != 0 && sequence != 0) ==> checked is Ok,
    {
        if session_id == 0 || sequence == 0 {
            Err(ReceiverError::ZeroMouseIds)
        } else {
            Ok(())
        }
    }

    /// Handles a reliable mouse event (positions already on this screen). An
    /// `Enter` of a new session releases everything held and starts over; any
    /// other event needs the session to have entered; events not newer than
    /// the last one injected are dropped.
    pub fn handle<I: MouseInjectionBackend<P, W>>(
        &mut self,
        session_id: u64,
        routed: RoutedEvent<P, W>,
        injector: &mut I,
        now_ms: u64,
    ) -> (transition: Result<RemoteTransition<P>, ReceiverError>)
        ensures
            handled(
                *old(self),
                session_id,
                routed,
                now_ms,
                old(injector).requests(),
                *final(self),
                final(injector).requests(),
                transition,
            ),
            transition is Ok && final(injector).requests().len() > old(injector).requests().len()
                ==> match routed.event {
                RemoteMouseEvent::Enter { position, .. } => final(self).last_position == Some(
                    position,
                ),
                RemoteMouseEvent::MoveAbsolute { position, .. } => final(self).last_position
                    == Some(position),
                _ => true,
            },
            transition matches Ok(RemoteTransition::Ended { position }) ==> old(
                self,
            ).last_position == Some(position) && final(self).active_session is None,
    {
        if session_id == 0 || routed.sequence == 0 {
            return Err(ReceiverError::ZeroMouseIds);
        }
        let is_enter = matches!(routed.event, RemoteMouseEvent::Enter { .. });
        let started = if is_enter {
            if self.active_session != Some(session_id) {
                if let Err(e) = injector.release_all() {
                    return Err(ReceiverError::Platform(e));
                }
                self.active_session = Some(session_id);
                self.last_sequence = 0;
                self.last_reliable_sequence = 0;
                self.last_position = None;
                self.motion_reported = false;
                self.pending_datagram = None;
                true
            } else {
                false
            }
        } else if self.active_session != Some(session_id) {
            return Err(ReceiverError::MouseBeforeEnter);
        } else {
            false
        };
        if routed.sequence <= self.last_sequence {
            return Ok(RemoteTransition::NoChange);
        }
        if let Err(e) = injector.inject(routed.event) {
            return Err(ReceiverError::Platform(e));
        }
        self.last_sequence = routed.sequence;
        self.last_reliable_sequence = routed.sequence;
        self.last_activity_ms = Some(now_ms);
        match routed.event {
            RemoteMouseEvent::Enter { position, .. } => {
                self.last_position = Some(position);
                if started {
                    Ok(RemoteTransition::Started { position })
                } else {
                    Ok(RemoteTransition::NoChange)
                }
            },
            RemoteMouseEvent::MoveAbsolute { position, .. } => {
                self.last_position = Some(position);
                if self.motion_reported {
                    Ok(RemoteTransition::NoChange)
                } else {
                    self.motion_reported = true;
                    Ok(RemoteTransition::FirstMotion)
                }
            },
            RemoteMouseEvent::Leave => {
                let position = match self.last_position {
                    Some(position) => position,
                    None => return Err(ReceiverError::LeaveWithoutPosition),
                };
                self.last_position = None;
                self.active_session = None;
                self.last_activity_ms = None;
                self.motion_reported = false;
                self.pending_datagram = None;
                Ok(RemoteTransition::Ended { position })
            },
            _ => Ok(RemoteTransition::NoChange),
        }
    }

    /// Handles a keyboard event; it shares the ordering of mouse events.
    pub fn handle_keyboard<K: KeyboardInjectionBackend>(
        &mut self,
        session_id: u64,
        routed: RoutedKeyboardEvent,
        injector: &mut K,
        now_ms: u64,
    ) -> (handled: Result<(), ReceiverError>)
        ensures
            keyboard_handled(
                *old(self),
                session_id,
                routed,
                now_ms,
                old(injector).requests(),
                *final(self),
                final(injector).requests(),
                handled,
            ),
    {
        if session_id == 0 || routed.sequence == 0 {
            return Err(ReceiverError::ZeroKeyboardIds);
        }
        if self.active_session != Some(session_id) {
            return Err(ReceiverError::KeyboardBeforeEnter);
        }
        if routed.sequence <= self.last_sequence {
            return Ok(());
        }
        if let Err(e) = injector.inject(routed.event) {
            return Err(ReceiverError::Platform(e));
        }
        self.last_sequence = routed.sequence;
        self.last_reliable_sequence = routed.sequence;
        self.last_activity_ms = Some(now_ms);
        Ok(())
    }

    /// What is wrong with a movement datagram before its position is looked
    /// at, if anything.
    pub fn datagram_fault(
        session_id: u64,
        after_sequence: u64,
        routed: RoutedEvent<P, W>,
    ) -> (fault: Option<ReceiverError>)
        ensures
            fault == if session_id == 0 || routed.sequence == 0 {
                Some(ReceiverError::ZeroMouseIds)
            } else if after_sequence >= routed.sequence {
                Some(ReceiverError::InvalidWatermark)
            } else if !(routed.event is MoveAbsolute) {
                Some(ReceiverError::DatagramNotMovement)
            } else {
                None
            },
    {
        if session_id == 0 || routed.sequence == 0 {
            Some(ReceiverError::ZeroMouseIds)
        } else if after_sequence >= routed.sequence {
            Some(ReceiverError::InvalidWatermark)
        } else if !matches!(routed.event, RemoteMouseEvent::MoveAbsolute { .. }) {
            Some(ReceiverError::DatagramNotMovement)
        } else {
            None
        }
    }

    fn inject_datagram<I: MouseInjectionBackend<P, W>>(
        &mut self,
        routed: RoutedEvent<P, W>,
        injector: &mut I,
        now_ms: u64,
    ) -> (transition: Result<RemoteTransition<P>, ReceiverError>)
        ensures
            !(routed.event is MoveAbsolute) ==> transition == Err::<
                RemoteTransition<P>,
                ReceiverError,
            >(ReceiverError::PendingNotMovement) && *final(self) == *old(self)
                && final(injector).requests() == old(injector).requests(),
            routed.event is MoveAbsolute ==> final(injector).requests() == old(
                injector,
            ).requests().push(InjectorRequest::Inject(routed.event)),
            routed.event is MoveAbsolute && transition is Err ==> (transition matches Err(
                ReceiverError::Platform(_),
            ) && *final(self) == *old(self)),
            routed.event is MoveAbsolute && transition is Ok ==> (*final(self), transition)
                == (after_datagram(*old(self), routed, now_ms).0, Ok::<
                RemoteTransition<P>,
                ReceiverError,
            >(after_datagram(*old(self), routed, now_ms).1)),
    {
        let position = match routed.event {
            RemoteMouseEvent::MoveAbsolute { position, .. } => position,
            _ => return Err(ReceiverError::PendingNotMovement),
        };
        if let Err(e) = injector.inject(routed.event) {
            return Err(ReceiverError::Platform(e));
        }
        self.last_sequence = routed.sequence;
        self.last_activity_ms = Some(now_ms);
        self.last_position = Some(position);
        if self.motion_reported {
            Ok(RemoteTransition::NoChange)
        } else {
            self.motion_reported = true;
            Ok(RemoteTransition::FirstMotion)
        }
    }

    /// Handles a movement datagram. It is injected only when it is newer than
    /// everything injected and its reliable predecessor has arrived; otherwise
    /// the newest such datagram waits.
    pub fn handle_datagram<I: MouseInjectionBackend<P, W>>(
        &mut self,
        session_id: u64,
        after_sequence: u64,
        routed: RoutedEvent<P, W>,
        injector: &mut I,
        now_ms: u64,
    ) -> (transition: Result<RemoteTransition<P>, ReceiverError>)
        ensures
            datagram_handled(
                *old(self),
                session_id,
                after_sequence,
                routed,
                now_ms,
                old(injector).requests(),
                *final(self),
                final(injector).requests(),
                transition,
            ),
            transition is Ok && final(injector).requests().len() > old(injector).requests().len()
                ==> match routed.event {
                RemoteMouseEvent::MoveAbsolute { position, .. } => final(self).last_position
                    == Some(position),
                _ => false,
            },
    {
        match Self::datagram_fault(session_id, after_sequence, routed) {
            Some(fault) => return Err(fault),
            None => {},
        }
        if self.active_session != Some(session_id) || routed.sequence <= self.last_sequence {
            return Ok(RemoteTransition::NoChange);
        }
        if after_sequence > self.last_reliable_sequence {
            let replace = match self.pending_datagram {
                None => true,
                Some(pending) => routed.sequence > pending.event.sequence,
            };
            if replace {
                self.pending_datagram = Some(
                    PendingDatagram { session_id, after_sequence, event: routed },
                );
            }
            return Ok(RemoteTransition::NoChange);
        }
        self.inject_datagram(routed, injector, now_ms)
    }

    pub open spec fn spec_datagram_fault(
        session_id: u64,
        after_sequence: u64,
        routed: RoutedEvent<P, W>,
    ) -> Option<ReceiverError> {
        if session_id == 0 || routed.sequence == 0 {
            Some(ReceiverError::ZeroMouseIds)
        } else if after_sequence >= routed.sequence {
            Some(ReceiverError::InvalidWatermark)
        } else if !(routed.event is MoveAbsolute) {
            Some(ReceiverError::DatagramNotMovement)
        } else {
            None
        }
    }

    /// Injects the held-back datagram once its reliable predecessor arrived;
    /// a datagram of an ended session or overtaken by newer input is dropped.
    pub fn take_ready_datagram<I: MouseInjectionBackend<P, W>>(
        &mut self,
        injector: &mut I,
        now_ms: u64,
    ) -> (transition: Result<RemoteTransition<P>, ReceiverError>)
        ensures
            ready_taken(
                *old(self),
                now_ms,
                old(injector).requests(),
                *final(self),
                final(injector).requests(),
                transition,
            ),
            transition is Ok && final(injector).requests().len() > old(injector).requests().len()
                ==> match old(self).pending_datagram {
                Some(p) => match p.event.event {
                    RemoteMouseEvent::MoveAbsolute { position, .. } => final(self).last_position
                        == Some(position),
                    _ => false,
                },
                None => false,
            },
    {
        let pending = match self.pending_datagram {
            Some(pending) => pending,
            None => return Ok(RemoteTransition::NoChange),
        };
        self.pending_datagram = None;
        if self.active_session != Some(pending.session_id) || pending.event.sequence
            <= self.last_sequence {
            return Ok(RemoteTransition::NoChange);
        }
        if pending.after_sequence > self.last_reliable_sequence {
            self.pending_datagram = Some(pending);
            return Ok(RemoteTransition::NoChange);
        }
        self.inject_datagram(pending.event, injector, now_ms)
    }

    /// A heartbeat of the active session keeps it alive.
    pub fn note_heartbeat(&mut self, session_id: u64, now_ms: u64)
        ensures
            old(self).active_session == Some(session_id) ==> *final(self) == (RemoteReceiver {
                last_activity_ms: Some(now_ms),
                ..*old(self)
            }),
            old(self).active_session != Some(session_id) ==> *final(self) == *old(self),
    {
        if self.active_session == Some(session_id) {
            self.last_activity_ms = Some(now_ms);
        }
    }

    /// Ends control by a silent peer: everything held is released and the last
    /// position is handed back.
    pub fn poll_timeout<I: MouseInjectionBackend<P, W>>(
        &mut self,
        injector: &mut I,
        now_ms: u64,
    ) -> (ended: Result<Option<P>, ReceiverError>)
        ensures
            silence_checked(
                *old(self),
                now_ms,
                old(injector).requests(),
                *final(self),
                final(injector).requests(),
                ended,
            ),
    {
        let last_activity = match self.last_activity_ms {
            Some(last) => last,
            None => return Ok(None),
        };
        let silent = if now_ms >= last_activity {
            now_ms - last_activity
        } else {
            0
        };
        if silent < self.timeout_ms {
            return Ok(None);
        }
        if let Err(e) = injector.release_all() {
            return Err(ReceiverError::Platform(e));
        }
        self.active_session = None;
        self.last_activity_ms = None;
        self.motion_reported = false;
        self.pending_datagram = None;
        let position = self.last_position;
        self.last_position = None;
        Ok(position)
    }

    /// Forgets the peer's session (the link ended); releasing is attempted and
    /// its failure ignored. The last position is handed back.
    pub fn reset<I: MouseInjectionBackend<P, W>>(&mut self, injector: &mut I) -> (last: Option<P>)
        ensures
            last == old(self).last_position,
            final(injector).requests() == old(injector).requests().push(InjectorRequest::ReleaseAll),
            *final(self) == closed(RemoteReceiver {
                last_sequence: 0,
                last_reliable_sequence: 0,
                last_position: None,
                ..*old(self)
            }),
    {
        let _ = injector.release_all();
        self.active_session = None;
        self.last_activity_ms = None;
        self.last_sequence = 0;
        self.last_reliable_sequence = 0;
        self.motion_reported = false;
        self.pending_datagram = None;
        let position = self.last_position;
        self.last_position = None;
        position
    }
}

/// An event is injected at most once and never after a newer one: whatever
/// the receiver accepts has a sequence number above everything injected
/// before, and events not newer are dropped without injection.
pub proof fn law_injected_sequences_increase<P, W>(
    r: RemoteReceiver<P, W>,
    routed: RoutedEvent<P, W>,
    started: bool,
    now_ms: u64,
)
    requires
        routed.sequence > r.last_sequence,
    ensures
        after_reliable(r, routed, started, now_ms).0.last_sequence == routed.sequence,
        after_reliable(r, routed, started, now_ms).0.last_sequence > r.last_sequence,
        after_datagram(r, routed, now_ms).0.last_sequence >= r.last_sequence,
{
}

/// A new session entering starts from nothing: no sequence, position or held
/// datagram of an earlier session survives.
pub proof fn law_new_session_starts_clean<P, W>(r: RemoteReceiver<P, W>, session: u64)
    ensures
        opened(r, session).active_session == Some(session),
        opened(r, session).last_sequence == 0,
        opened(r, session).last_position is None,
        opened(r, session).pending_datagram is None,
{
}

/// A movement datagram that was injected is where the pointer now is: the
/// receiver remembers its position, in the session the datagram belongs to.
pub proof fn law_injected_datagram_is_remembered<P: Copy, W: Copy>(
    r: RemoteReceiver<P, W>,
    session_id: u64,
    after_sequence: u64,
    routed: RoutedEvent<P, W>,
    now_ms: u64,
    asked: Seq<InjectorRequest<P, W>>,
    r1: RemoteReceiver<P, W>,
    asked1: Seq<InjectorRequest<P, W>>,
    transition: Result<RemoteTransition<P>, ReceiverError>,
)
    requires
        datagram_handled(r, session_id, after_sequence, routed, now_ms, asked, r1, asked1, transition),
        transition is Ok,
        asked1.len() > asked.len(),
    ensures
        routed.event is MoveAbsolute,
        r1.last_position == Some(routed.event->MoveAbsolute_position),
        r1.active_session == Some(session_id),
        r1.last_sequence == routed.sequence,
{
}

/// A held-back datagram that was injected once ready is where the pointer
/// now is: the receiver remembers its position.
pub proof fn law_injected_ready_datagram_is_remembered<P, W>(
    r: RemoteReceiver<P, W>,
    now_ms: u64,
    asked: Seq<InjectorRequest<P, W>>,
    r1: RemoteReceiver<P, W>,
    asked1: Seq<InjectorRequest<P, W>>,
    transition: Result<RemoteTransition<P>, ReceiverError>,
)
    requires
        ready_taken(r, now_ms, asked, r1, asked1, transition),
        transition is Ok,
        asked1.len() > asked.len(),
    ensures
        r.pending_datagram is Some,
        r.pending_datagram.unwrap().event.event is MoveAbsolute,
        r1.last_position == Some(r.pending_datagram.unwrap().event.event->MoveAbsolute_position),
        r1.active_session == r.active_session,
{
}

/// A reliable event that puts the pointer somewhere (an `Enter` or a
/// movement) and was injected is where the pointer now is.
pub proof fn law_injected_position_is_remembered<P, W>(
    r: RemoteReceiver<P, W>,
    session_id: u64,
    routed: RoutedEvent<P, W>,
    now_ms: u64,
    asked: Seq<InjectorRequest<P, W>>,
    r1: RemoteReceiver<P, W>,
    asked1: Seq<InjectorRequest<P, W>>,
    transition: Result<RemoteTransition<P>, ReceiverError>,
)
    requires
        handled(r, session_id, routed, now_ms, asked, r1, asked1, transition),
        transition is Ok,
        asked1.len() > asked.len(),
    ensures
        routed.event is Enter ==> r1.last_position == Some(routed.event->Enter_position),
        routed.event is MoveAbsolute ==> r1.last_position == Some(
            routed.event->MoveAbsolute_position,
        ),
        !(routed.event is Leave) ==> r1.active_session == Some(session_id),
{
}

/// A `Leave` of the session under way ends it and hands control back where
/// the peer last put the pointer; the peer's `Leave` is injected.
pub proof fn law_leave_returns_the_last_position<P, W>(
    r: RemoteReceiver<P, W>,
    session_id: u64,
    leave: RoutedEvent<P, W>,
    now_ms: u64,
    asked: Seq<InjectorRequest<P, W>>,
    r1: RemoteReceiver<P, W>,
    asked1: Seq<InjectorRequest<P, W>>,
    transition: Result<RemoteTransition<P>, ReceiverError>,
)
    requires
        handled(r, session_id, leave, now_ms, asked, r1, asked1, transition),
        leave.event is Leave,
        session_id != 0,
        r.active_session == Some(session_id),
        leave.sequence > r.last_sequence,
        r.last_position is Some,
        !(transition matches Err(ReceiverError::Platform(_))),
    ensures
        transition == Ok::<RemoteTransition<P>, ReceiverError>(
            RemoteTransition::Ended { position: r.last_position.unwrap() },
        ),
        r1.active_session is None,
        r1.last_position is None,
        asked1 == asked.push(InjectorRequest::Inject(leave.event)),
{
}

/// Control comes back where the peer's last movement put the pointer: after
/// a movement datagram of a session was injected, the next `Leave` of that
/// session ends it at the datagram's position.
pub proof fn law_leave_after_datagram_returns_there<P: Copy, W: Copy>(
    r: RemoteReceiver<P, W>,
    session_id: u64,
    after_sequence: u64,
    moved: RoutedEvent<P, W>,
    moved_ms: u64,
    asked: Seq<InjectorRequest<P, W>>,
    r1: RemoteReceiver<P, W>,
    asked1: Seq<InjectorRequest<P, W>>,
    moved_transition: Result<RemoteTransition<P>, ReceiverError>,
    leave: RoutedEvent<P, W>,
    leave_ms: u64,
    r2: RemoteReceiver<P, W>,
    asked2: Seq<InjectorRequest<P, W>>,
    left: Result<RemoteTransition<P>, ReceiverError>,
)
    requires
        datagram_handled(r, session_id, after_sequence, moved, moved_ms, asked, r1, asked1, moved_transition),
        moved_transition is Ok,
        asked1.len() > asked.len(),
        leave.event is Leave,
        leave.sequence > moved.sequence,
        handled(r1, session_id, leave, leave_ms, asked1, r2, asked2, left),
        !(left matches Err(ReceiverError::Platform(_))),
    ensures
        moved.event is MoveAbsolute,
        left == Ok::<RemoteTransition<P>, ReceiverError>(
            RemoteTransition::Ended { position: moved.event->MoveAbsolute_position },
        ),
        r2.active_session is None,
{
    law_injected_datagram_is_remembered(
        r,
        session_id,
        after_sequence,
        moved,
        moved_ms,
        asked,
        r1,
        asked1,
        moved_transition,
    );
    law_leave_returns_the_last_position(r1, session_id, leave, leave_ms, asked1, r2, asked2, left);
}

/// Likewise after a reliable movement: the next `Leave` of the session ends
/// it at the movement's position.
pub proof fn law_leave_after_movement_returns_there<P, W>(
    r: RemoteReceiver<P, W>,
    session_id: u64,
    moved: RoutedEvent<P, W>,
    moved_ms: u64,
    asked: Seq<InjectorRequest<P, W>>,
    r1: RemoteReceiver<P, W>,
    asked1: Seq<InjectorRequest<P, W>>,
    moved_transition: Result<RemoteTransition<P>, ReceiverError>,
    leave: RoutedEvent<P, W>,
    leave_ms: u64,
    r2: RemoteReceiver<P, W>,
    asked2: Seq<InjectorRequest<P, W>>,
    left: Result<RemoteTransition<P>, ReceiverError>,
)
    requires
        handled(r, session_id, moved, moved_ms, asked, r1, asked1, moved_transition),
        moved.event is MoveAbsolute,
        moved_transition is Ok,
        asked1.len() > asked.len(),
        leave.event is Leave,
        leave.sequence > moved.sequence,
        handled(r1, session_id, leave, leave_ms, asked1, r2, asked2, left),
        !(left matches Err(ReceiverError::Platform(_))),
    ensures
        left == Ok::<RemoteTransition<P>, ReceiverError>(
            RemoteTransition::Ended { position: moved.event->MoveAbsolute_position },
        ),
        r2.active_session is None,
{
    law_injected_position_is_remembered(
        r,
        session_id,
        moved,
        moved_ms,
        asked,
        r1,
        asked1,
        moved_transition,
    );
    law_leave_returns_the_last_position(r1, session_id, leave, leave_ms, asked1, r2, asked2, left);
}

} // verus!
