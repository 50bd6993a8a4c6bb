//! The agent's connection loop, step by step: which peer messages end the
//! connection and how, what a mouse or keyboard message of the peer does to
//! the receiver and the injectors, when a request to take control back is
//! honoured, and when waiting for the peer gives up. The loop itself (sockets,
//! capture adapters, sleeping) runs outside the library, hands each step what
//! arrived and performs what the step decided.
use crate::input::{Effect, RemoteMouseEvent, RoutedEvent, RoutedKeyboardEvent};
use crate::platform::{KeyInjection, KeyboardInjectionBackend};
use crate::network::{
    heartbeat_is_fresh, HeartbeatTracker, ReconnectBackoff, RECONNECT_INITIAL_DELAY_MS,
    RECONNECT_MAX_DELAY_MS,
};
use crate::receiver::{
    closed, handled, keyboard_handled, ready_taken, silence_checked, InjectorRequest,
    MouseInjectionBackend, ReceiverError, RemoteReceiver, RemoteTransition,
};
use crate::session::{
    recovering_view, recovery_effects, routed_to, ControlCore, ControlState, CoreView,
    TakeoverRequest, LOCAL_TAKEOVER_ACK_TIMEOUT_MS,
};
use crate::topology::NodeId;
use vstd::prelude::*;

verus! {

/// How a connection to the peer ended without an error.
#[derive(Debug, Clone, PartialEq, Eq)]
pub enum ConnectionEnd {
    /// The agent is stopping.
    Stopped,
    /// The link went away, for this reason; the agent reconnects.
    Disconnected(String),
}

/// A message from the peer, as the connection loop tells them apart.
pub enum PeerMessage<P, W> {
    Heartbeat { session_id: u64, monotonic_ms: u64 },
    Mouse { session_id: u64, event: RoutedEvent<P, W> },
    Keyboard { session_id: u64, event: RoutedKeyboardEvent },
    ControlReclaim { owner_session_id: u64 },
    ControlReclaimAck { owner_session_id: u64 },
    Datagram { session_id: u64, after_sequence: u64, event: RoutedEvent<P, W> },
    Hello,
    Goodbye,
    /// A movement datagram that arrived on the reliable stream.
    ReliableDatagram,
    /// The transport reported the link gone, with its reason.
    Disconnected { reason: String },
}

/// What a message decides on its own about the connection: `None` when the
/// loop goes on to handle it; otherwise the end of the connection or the
/// error that stops the agent.
pub fn message_ends_connection<P, W>(message: &PeerMessage<P, W>) -> (verdict: Option<
    Result<ConnectionEnd, String>,
>)
    ensures
        match message {
            PeerMessage::Hello => verdict matches Some(Err(m)) && m@
                == "peer sent a duplicate Hello message"@,
            PeerMessage::Goodbye => verdict matches Some(Ok(ConnectionEnd::Disconnected(r))) && r@
                == "peer shut down"@,
            PeerMessage::ReliableDatagram => verdict matches Some(Err(m)) && m@
                == "peer sent a movement datagram on the reliable stream"@,
            PeerMessage::Disconnected { reason } => verdict matches Some(
                Ok(ConnectionEnd::Disconnected(r)),
            ) && r@ == reason@,
            _ => verdict is None,
        },
{
    match message {
        PeerMessage::Hello => Some(Err("peer sent a duplicate Hello message".to_owned())),
        PeerMessage::Goodbye => Some(Ok(ConnectionEnd::Disconnected("peer shut down".to_owned()))),
        PeerMessage::ReliableDatagram => Some(
            Err("peer sent a movement datagram on the reliable stream".to_owned()),
        ),
        PeerMessage::Disconnected { reason } => Some(
            Ok(ConnectionEnd::Disconnected(reason.clone())),
        ),
        _ => None,
    }
}

/// What the network side does with a message read from the reliable stream.
#[derive(Debug, Clone, PartialEq, Eq)]
pub enum ReceiveVerdict {
    /// Hand it to the connection loop.
    Forward,
    /// Drop it: a heartbeat that is not newer than the last one.
    Skip,
    /// Close the link, for this reason.
    Disconnect(String),
}

/// A message read from the reliable stream: a goodbye or a movement datagram
/// there closes the link; a heartbeat is forwarded only when it is fresh,
/// which the tracker then remembers; everything else is forwarded.
pub fn on_reliable_receive<P, W>(tracker: &mut HeartbeatTracker, message: &PeerMessage<P, W>) -> (verdict:
    ReceiveVerdict)
    ensures
        match message {
            PeerMessage::Goodbye => (verdict matches ReceiveVerdict::Disconnect(r) && r@
                == "peer shut down"@) && *final(tracker) == *old(tracker),
            PeerMessage::ReliableDatagram => (verdict matches ReceiveVerdict::Disconnect(r) && r@
                == "peer sent a movement datagram on the reliable stream"@) && *final(tracker)
                == *old(tracker),
            PeerMessage::Heartbeat { session_id, monotonic_ms } => if heartbeat_is_fresh(
                old(tracker).latest,
                *session_id,
                *monotonic_ms,
            ) {
                verdict == ReceiveVerdict::Forward && final(tracker).latest == Some(
                    (*session_id, *monotonic_ms),
                )
            } else {
                verdict == ReceiveVerdict::Skip && *final(tracker) == *old(tracker)
            },
            _ => verdict == ReceiveVerdict::Forward && *final(tracker) == *old(tracker),
        },
{
    match message {
        PeerMessage::Goodbye => ReceiveVerdict::Disconnect("peer shut down".to_owned()),
        PeerMessage::ReliableDatagram => ReceiveVerdict::Disconnect(
            "peer sent a movement datagram on the reliable stream".to_owned(),
        ),
        PeerMessage::Heartbeat { session_id, monotonic_ms } => {
            if tracker.accept(*session_id, *monotonic_ms) {
                ReceiveVerdict::Forward
            } else {
                ReceiveVerdict::Skip
            }
        },
        _ => ReceiveVerdict::Forward,
    }
}

/// A fresh heartbeat of the peer's session `session_id` at `now_ms`: it keeps
/// the outgoing session to `peer` alive, and the incoming session when it is
/// that one.
pub fn on_peer_heartbeat<P: Copy, W: Copy>(
    core: &mut ControlCore<P>,
    remote: &mut RemoteReceiver<P, W>,
    peer: NodeId,
    session_id: u64,
    now_ms: u64,
)
    ensures
        routed_to(old(core)@, peer) ==> final(core)@ == (CoreView {
            last_peer_activity_ms: Some(now_ms),
            ..old(core)@
        }),
        !routed_to(old(core)@, peer) ==> final(core)@ == old(core)@,
        old(remote).active_session == Some(session_id) ==> *final(remote) == (RemoteReceiver {
            last_activity_ms: Some(now_ms),
            ..*old(remote)
        }),
        old(remote).active_session != Some(session_id) ==> *final(remote) == *old(remote),
{
    core.note_peer_activity(peer, now_ms);
    remote.note_heartbeat(session_id, now_ms);
}

/// Whether the keys held for the peer are released before a mouse event of
/// the peer is handled: an entry, a leave and a release of all input each
/// start or end remote input.
pub fn releases_keys_first<P, W>(event: &RemoteMouseEvent<P, W>) -> (release: bool)
    ensures
        release == starts_or_ends_remote_input(*event),
{
    match event {
        RemoteMouseEvent::Enter { .. } => true,
        RemoteMouseEvent::Leave => true,
        RemoteMouseEvent::ReleaseAll => true,
        _ => false,
    }
}

/// A reliable mouse event of the peer's session `session_id` at `now_ms`:
/// when it enters, leaves or releases everything, the keys held for the peer
/// are released first; then the receiver handles it, and a held-back datagram
/// that became ready behind it follows. The first failure ends the step with
/// its error; otherwise both transitions are handed back, in order.
pub fn on_peer_mouse<
    P: Copy,
    W: Copy,
    I: MouseInjectionBackend<P, W>,
    K: KeyboardInjectionBackend,
>(
    remote: &mut RemoteReceiver<P, W>,
    session_id: u64,
    routed: RoutedEvent<P, W>,
    injector: &mut I,
    keys: &mut K,
    now_ms: u64,
) -> (stepped: Result<(RemoteTransition<P>, RemoteTransition<P>), ReceiverError>)
    ensures
        starts_or_ends_remote_input(routed.event) ==> final(keys).requests() == old(
            keys,
        ).requests().push(KeyInjection::ReleaseAll),
        !starts_or_ends_remote_input(routed.event) ==> final(keys).requests() == old(keys).requests(),
        ({
            ||| {
                &&& starts_or_ends_remote_input(routed.event)
                &&& stepped matches Err(ReceiverError::Platform(_))
                &&& *final(remote) == *old(remote)
                &&& final(injector).requests() == old(injector).requests()
            }
            ||| exists|
                mid: RemoteReceiver<P, W>,
                asked: Seq<InjectorRequest<P, W>>,
                first: Result<RemoteTransition<P>, ReceiverError>,
            |
                #![trigger handled(*old(remote), session_id, routed, now_ms, old(injector).requests(), mid, asked, first)]
                {
                    &&& handled(
                        *old(remote),
                        session_id,
                        routed,
                        now_ms,
                        old(injector).requests(),
                        mid,
                        asked,
                        first,
                    )
                    &&& match first {
                        Err(e) => stepped == Err::<
                            (RemoteTransition<P>, RemoteTransition<P>),
                            ReceiverError,
                        >(e) && *final(remote) == mid && final(injector).requests() == asked,
                        Ok(t1) => exists|second: Result<RemoteTransition<P>, ReceiverError>|
                            #![trigger ready_taken(mid, now_ms, asked, *final(remote), final(injector).requests(), second)]
                            {
                                &&& ready_taken(
                                    mid,
                                    now_ms,
                                    asked,
                                    *final(remote),
                                    final(injector).requests(),
                                    second,
                                )
                                &&& match second {
                                    Err(e) => stepped == Err::<
                                        (RemoteTransition<P>, RemoteTransition<P>),
                                        ReceiverError,
                                    >(e),
                                    Ok(t2) => stepped == Ok::<
                                        (RemoteTransition<P>, RemoteTransition<P>),
                                        ReceiverError,
                                    >((t1, t2)),
                                }
                            },
                    }
                }
        }),
{
    if releases_keys_first(&routed.event) {
        if let Err(e) = keys.release_all() {
            return Err(ReceiverError::Platform(e));
        }
    }
    let ghost before = *remote;
    let ghost asked0 = injector.requests();
    let first = remote.handle(session_id, routed, injector, now_ms);
    let ghost mid = *remote;
    let ghost asked = injector.requests();
    let ghost first_view = first;
    assert(handled(before, session_id, routed, now_ms, asked0, mid, asked, first_view));
    let t1 = match first {
        Err(e) => {
            return Err(e);
        },
        Ok(t) => t,
    };
    let second = remote.take_ready_datagram(injector, now_ms);
    assert(ready_taken(mid, now_ms, asked, *remote, injector.requests(), second));
    match second {
        Err(e) => Err(e),
        Ok(t2) => Ok((t1, t2)),
    }
}

/// A keyboard event of the peer's session `session_id` at `now_ms`: the
/// receiver injects it, and a held-back datagram that became ready behind it
/// follows. The first failure ends the step with its error; otherwise the
/// datagram's transition is handed back.
pub fn on_peer_keyboard<
    P: Copy,
    W: Copy,
    I: MouseInjectionBackend<P, W>,
    K: KeyboardInjectionBackend,
>(
    remote: &mut RemoteReceiver<P, W>,
    session_id: u64,
    routed: RoutedKeyboardEvent,
    injector: &mut I,
    keys: &mut K,
    now_ms: u64,
) -> (stepped: Result<RemoteTransition<P>, ReceiverError>)
    ensures
        exists|mid: RemoteReceiver<P, W>, first: Result<(), ReceiverError>|
            #![trigger keyboard_handled(*old(remote), session_id, routed, now_ms, old(keys).requests(), mid, final(keys).requests(), first)]
            {
                &&& keyboard_handled(
                    *old(remote),
                    session_id,
                    routed,
                    now_ms,
                    old(keys).requests(),
                    mid,
                    final(keys).requests(),
                    first,
                )
                &&& match first {
                    Err(e) => {
                        &&& stepped == Err::<RemoteTransition<P>, ReceiverError>(e)
                        &&& *final(remote) == mid
                        &&& final(injector).requests() == old(injector).requests()
                    },
                    Ok(_) => ready_taken(
                        mid,
                        now_ms,
                        old(injector).requests(),
                        *final(remote),
                        final(injector).requests(),
                        stepped,
                    ),
                }
            },
{
    let ghost before = *remote;
    let first = remote.handle_keyboard(session_id, routed, keys, now_ms);
    let ghost mid = *remote;
    let ghost first_view = first;
    assert(keyboard_handled(
        before,
        session_id,
        routed,
        now_ms,
        old(keys).requests(),
        mid,
        keys.requests(),
        first_view,
    ));
    match first {
        Err(e) => {
            return Err(e);
        },
        Ok(()) => {},
    }
    remote.take_ready_datagram(injector, now_ms)
}

/// The link to the peer went away: the keys held for it are released (a
/// failure to release is ignored) and the incoming session is forgotten; the
/// pointer position it left, if any, is handed back to be restored.
pub fn on_link_lost<P: Copy, W: Copy, I: MouseInjectionBackend<P, W>, K: KeyboardInjectionBackend>(
    remote: &mut RemoteReceiver<P, W>,
    injector: &mut I,
    keys: &mut K,
) -> (position: Option<P>)
    ensures
        final(keys).requests() == old(keys).requests().push(KeyInjection::ReleaseAll),
        final(injector).requests() == old(injector).requests().push(InjectorRequest::ReleaseAll),
        position == old(remote).last_position,
        *final(remote) == closed(RemoteReceiver {
            last_sequence: 0,
            last_reliable_sequence: 0,
            last_position: None,
            ..*old(remote)
        }),
{
    let _ = keys.release_all();
    remote.reset(injector)
}

/// The incoming session checked for silence at `now_ms`: when the peer has
/// been silent past the timeout and left a pointer position, the buttons it
/// held are released, then its keys, and the connection ends; the position is
/// handed back to be restored with the end. The first failure ends the step
/// with its error.
pub fn on_incoming_silence<
    P: Copy,
    W: Copy,
    I: MouseInjectionBackend<P, W>,
    K: KeyboardInjectionBackend,
>(remote: &mut RemoteReceiver<P, W>, injector: &mut I, keys: &mut K, now_ms: u64) -> (ended:
    Result<Option<(P, ConnectionEnd)>, ReceiverError>)
    ensures
        exists|first: Result<Option<P>, ReceiverError>|
            #![trigger silence_checked(*old(remote), now_ms, old(injector).requests(), *final(remote), final(injector).requests(), first)]
            {
                &&& silence_checked(
                    *old(remote),
                    now_ms,
                    old(injector).requests(),
                    *final(remote),
                    final(injector).requests(),
                    first,
                )
                &&& match first {
                    Err(e) => ended == Err::<Option<(P, ConnectionEnd)>, ReceiverError>(e)
                        && final(keys).requests() == old(keys).requests(),
                    Ok(None) => ended == Ok::<Option<(P, ConnectionEnd)>, ReceiverError>(None)
                        && final(keys).requests() == old(keys).requests(),
                    Ok(Some(position)) => {
                        &&& final(keys).requests() == old(keys).requests().push(
                            KeyInjection::ReleaseAll,
                        )
                        &&& (ended is Err ==> ended matches Err(ReceiverError::Platform(_)))
                        &&& (ended is Ok ==> (ended matches Ok(
                            Some((p, ConnectionEnd::Disconnected(r))),
                        ) && p == position && r@ == "incoming remote control timed out"@))
                    },
                }
            },
{
    let ghost before = *remote;
    let first = remote.poll_timeout(injector, now_ms);
    let ghost first_view = first;
    assert(silence_checked(
        before,
        now_ms,
        old(injector).requests(),
        *remote,
        injector.requests(),
        first_view,
    ));
    let position = match first {
        Err(e) => {
            return Err(e);
        },
        Ok(None) => {
            return Ok(None);
        },
        Ok(Some(position)) => position,
    };
    if let Err(e) = keys.release_all() {
        return Err(ReceiverError::Platform(e));
    }
    Ok(
        Some(
            (position, ConnectionEnd::Disconnected("incoming remote control timed out".to_owned())),
        ),
    )
}

/// Control comes back after the peer acknowledged a takeover: the keys held
/// for the peer are released, then the incoming session is forgotten (its
/// buttons released); its last pointer position is where the local pointer
/// resumes. A failure to release the keys ends the step before anything else.
pub fn reclaim_incoming<P: Copy, W: Copy, I: MouseInjectionBackend<P, W>, K: KeyboardInjectionBackend>(
    remote: &mut RemoteReceiver<P, W>,
    injector: &mut I,
    keys: &mut K,
) -> (reclaimed: Result<P, String>)
    ensures
        final(keys).requests() == old(keys).requests().push(KeyInjection::ReleaseAll),
        ({
            ||| (reclaimed is Err && *final(remote) == *old(remote) && final(injector).requests()
                == old(injector).requests())
            ||| {
                &&& final(injector).requests() == old(injector).requests().push(
                    InjectorRequest::ReleaseAll,
                )
                &&& *final(remote) == closed(RemoteReceiver {
                    last_sequence: 0,
                    last_reliable_sequence: 0,
                    last_position: None,
                    ..*old(remote)
                })
                &&& match old(remote).last_position {
                    Some(position) => reclaimed == Ok::<P, String>(position),
                    None => reclaimed matches Err(m) && m@
                        == "incoming control had no pointer position to reclaim"@,
                }
            }
        }),
{
    if let Err(e) = keys.release_all() {
        return Err(e.message().to_owned());
    }
    match remote.reset(injector) {
        Some(position) => Ok(position),
        None => Err("incoming control had no pointer position to reclaim".to_owned()),
    }
}

/// Whether a mouse event of the peer starts or ends its input here, so that
/// the keys held for it are released first.
pub open spec fn starts_or_ends_remote_input<P, W>(event: RemoteMouseEvent<P, W>) -> bool {
    event is Enter || event is Leave || event is ReleaseAll
}

/// Whether the peer's request to take control back is honoured: it must name
/// this agent's session, no control may be arriving from the peer at the same
/// time, and this agent must be controlling the peer.
pub fn check_reclaim_request(
    owner_session_id: u64,
    local_session_id: u64,
    incoming_active: bool,
    state: ControlState,
    peer: NodeId,
) -> (checked: Result<(), String>)
    ensures
        if owner_session_id != local_session_id {
            checked matches Err(m) && m@ == "peer requested control from a stale local session"@
        } else if incoming_active {
            checked matches Err(m) && m@
                == "peer requested control during simultaneous incoming control"@
        } else if state != (ControlState::Remote { peer }) {
            checked matches Err(m) && m@
                == "peer requested control when no outgoing session was active"@
        } else {
            checked is Ok
        },
{
    if owner_session_id != local_session_id {
        return Err("peer requested control from a stale local session".to_owned());
    }
    if incoming_active {
        return Err("peer requested control during simultaneous incoming control".to_owned());
    }
    let outgoing = match state {
        ControlState::Remote { peer: active } => active == peer,
        _ => false,
    };
    if !outgoing {
        return Err("peer requested control when no outgoing session was active".to_owned());
    }
    Ok(())
}

/// The peer asked to take control back from this agent's session: when the
/// request is honoured (see `check_reclaim_request`), control of the peer
/// ends in an orderly handoff, whose effects are handed back for the caller
/// to apply before it acknowledges; otherwise nothing changes.
pub fn on_reclaim_request<P: Copy, W>(
    core: &mut ControlCore<P>,
    owner_session_id: u64,
    local_session_id: u64,
    incoming_active: bool,
    peer: NodeId,
) -> (handoff: Result<Vec<Effect<P, W>>, String>)
    ensures
        if owner_session_id != local_session_id {
            (handoff matches Err(m) && m@ == "peer requested control from a stale local session"@)
                && final(core)@ == old(core)@
        } else if incoming_active {
            (handoff matches Err(m) && m@
                == "peer requested control during simultaneous incoming control"@) && final(core)@
                == old(core)@
        } else if !routed_to(old(core)@, peer) {
            (handoff matches Err(m) && m@
                == "peer requested control when no outgoing session was active"@) && final(core)@
                == old(core)@
        } else {
            &&& handoff matches Ok(effects) && effects@ == recovery_effects::<P, W>(
                old(core)@,
                peer,
                false,
            )
            &&& final(core)@ == recovering_view(old(core)@, peer)
        },
{
    check_reclaim_request(owner_session_id, local_session_id, incoming_active, core.state(), peer)?;
    Ok(core.yield_remote_control(peer))
}

/// What the peer's acknowledgement of a takeover leads to.
#[derive(Debug, Clone, PartialEq, Eq)]
pub enum AckVerdict {
    /// It answers no request of this agent and is ignored.
    Ignore,
    /// Control comes back: the incoming session is reset and the pointer
    /// crosses the takeover edge.
    Reclaim,
    /// The agent stops with this error.
    Fail(String),
}

/// The peer acknowledged taking control back from session
/// `owner_session_id`; `incoming` is the session whose control is arriving,
/// if any. An acknowledgement that answers the pending request ends it.
pub fn on_reclaim_ack(
    takeover: &mut TakeoverRequest,
    owner_session_id: u64,
    incoming: Option<u64>,
) -> (verdict: AckVerdict)
    ensures
        ({
            let answers = old(takeover).pending matches Some((s, _)) && s == owner_session_id;
            if !answers {
                verdict == AckVerdict::Ignore && *final(takeover) == *old(takeover)
            } else {
                &&& final(takeover).pending is None
                &&& if incoming != Some(owner_session_id) {
                    verdict matches AckVerdict::Fail(m) && m@
                        == "peer acknowledged a control session that is not active"@
                } else {
                    verdict == AckVerdict::Reclaim
                }
            }
        }),
{
    if !takeover.accept_ack(owner_session_id) {
        return AckVerdict::Ignore;
    }
    if incoming != Some(owner_session_id) {
        return AckVerdict::Fail("peer acknowledged a control session that is not active".to_owned());
    }
    AckVerdict::Reclaim
}

/// Waiting for the peer to acknowledge a takeover, at `now_ms`: when the wait
/// is over and the session it was for still controls this computer, the
/// connection ends; when that session is gone, the request is dropped.
pub fn check_takeover_wait(takeover: &mut TakeoverRequest, incoming: Option<u64>, now_ms: u64) -> (end:
    Option<ConnectionEnd>)
    ensures
        ({
            let overdue = match old(takeover).pending {
                Some((session, requested_at)) => if (if now_ms >= requested_at {
                    now_ms - requested_at
                } else {
                    0
                }) >= LOCAL_TAKEOVER_ACK_TIMEOUT_MS {
                    Some(session)
                } else {
                    None::<u64>
                },
                None => None::<u64>,
            };
            match overdue {
                None => end is None && *final(takeover) == *old(takeover),
                Some(session) => if incoming == Some(session) {
                    &&& end matches Some(ConnectionEnd::Disconnected(r))
                    &&& r@ == "local physical mouse reclaim was not acknowledged"@
                    &&& *final(takeover) == *old(takeover)
                } else {
                    end is None && final(takeover).pending is None
                },
            }
        }),
{
    match takeover.timed_out(now_ms) {
        None => None,
        Some(session) => {
            if incoming == Some(session) {
                Some(
                    ConnectionEnd::Disconnected(
                        "local physical mouse reclaim was not acknowledged".to_owned(),
                    ),
                )
            } else {
                takeover.pending = None;
                None
            }
        },
    }
}

/// Whether effects report that the peer's heartbeat timed out.
pub open spec fn reports_timeout<P, W>(effects: Seq<Effect<P, W>>) -> bool {
    exists|i: int| 0 <= i < effects.len() && effects[i] is PeerTimedOut
}

/// After the session's own timeout check: the connection ends when the
/// effects report that the peer timed out.
pub fn heartbeat_end<P, W>(effects: &Vec<Effect<P, W>>) -> (end: Option<ConnectionEnd>)
    ensures
        reports_timeout(effects@) ==> (end matches Some(ConnectionEnd::Disconnected(r)) && r@
            == "trusted peer heartbeat timed out"@),
        !reports_timeout(effects@) ==> end is None,
{
    let mut i: usize = 0;
    while i < effects.len()
        invariant
            i <= effects.len(),
            forall|j: int| 0 <= j < i ==> !(effects@[j] is PeerTimedOut),
        decreases effects.len() - i,
    {
        if matches!(effects[i], Effect::PeerTimedOut { .. }) {
            return Some(ConnectionEnd::Disconnected("trusted peer heartbeat timed out".to_owned()));
        }
        i = i + 1;
    }
    None
}

/// The peer entered this computer's screen: only a computer that is not
/// itself controlling the peer accepts that, else both tried at once.
pub fn check_incoming_start(state: ControlState) -> (checked: Result<(), String>)
    ensures
        state == ControlState::Local ==> checked is Ok,
        state != ControlState::Local ==> (checked matches Err(m) && m@
            == "simultaneous mouse handoff detected; local and peer both tried to take control"@),
{
    match state {
        ControlState::Local => Ok(()),
        _ => Err(
            "simultaneous mouse handoff detected; local and peer both tried to take control".to_owned(),
        ),
    }
}

/// The peer that completed the handshake must be the configured one.
pub fn check_connected_peer(connected: NodeId, configured: NodeId) -> (checked: Result<(), String>)
    ensures
        connected == configured ==> checked is Ok,
        connected != configured ==> (checked matches Err(m) && m@
            == "connected peer identity does not match configuration"@),
{
    if connected.0 != configured.0 {
        return Err("connected peer identity does not match configuration".to_owned());
    }
    Ok(())
}

/// What the agent's outer loop keeps between connection attempts: whether it
/// is reconnecting after a loss or failure, and the delays between attempts.
#[derive(Debug, Clone, Copy, PartialEq, Eq)]
pub struct Reconnection {
    pub reconnecting: bool,
    pub backoff: ReconnectBackoff,
}

/// The delay that follows `next_ms` between attempts.
pub open spec fn following_delay(next_ms: u64) -> u64 {
    if 2 * next_ms as int >= RECONNECT_MAX_DELAY_MS {
        RECONNECT_MAX_DELAY_MS
    } else {
        (2 * next_ms) as u64
    }
}

impl Reconnection {
    /// Before the first attempt.
    pub fn new() -> (state: Reconnection)
        ensures
            !state.reconnecting,
            state.backoff.next_ms == RECONNECT_INITIAL_DELAY_MS,
    {
        Reconnection { reconnecting: false, backoff: ReconnectBackoff::default() }
    }

    /// Discovery or the connection attempt failed: the next attempt is a
    /// reconnection, after the returned delay in milliseconds.
    pub fn attempt_failed(&mut self) -> (delay_ms: u64)
        ensures
            final(self).reconnecting,
            delay_ms == old(self).backoff.next_ms,
            final(self).backoff.next_ms == following_delay(old(self).backoff.next_ms),
    {
        self.reconnecting = true;
        self.backoff.next_delay()
    }

    /// The handshake completed with the peer `connected`: it must be the
    /// configured peer, and then the delays start over.
    pub fn connected(&mut self, connected: NodeId, configured: NodeId) -> (checked: Result<(), String>)
        ensures
            connected != configured ==> (checked matches Err(m) && m@
                == "connected peer identity does not match configuration"@) && *final(self)
                == *old(self),
            connected == configured ==> checked is Ok && final(self).reconnecting
                == old(self).reconnecting && final(self).backoff.next_ms
                == RECONNECT_INITIAL_DELAY_MS,
    {
        check_connected_peer(connected, configured)?;
        self.backoff.reset();
        Ok(())
    }

    /// A connection ended: when the agent is stopping there is no next
    /// attempt (`None`); when the link was lost the agent reconnects after the
    /// returned delay.
    pub fn connection_ended(&mut self, end: &ConnectionEnd) -> (delay_ms: Option<u64>)
        ensures
            *end == ConnectionEnd::Stopped ==> delay_ms is None && *final(self) == *old(self),
            end is Disconnected ==> {
                &&& delay_ms == Some(old(self).backoff.next_ms)
                &&& final(self).reconnecting
                &&& final(self).backoff.next_ms == following_delay(old(self).backoff.next_ms)
            },
    {
        match end {
            ConnectionEnd::Stopped => None,
            ConnectionEnd::Disconnected(_) => Some(self.attempt_failed()),
        }
    }
}

} // verus!
