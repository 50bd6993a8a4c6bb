//! Who controls the pointer and keyboard, and what the session asks the
//! adapters to do about it. The geometry that decides when the pointer crosses
//! a screen edge is floating point and lives with the platform side; it hands
//! this control core the outcome (which node a crossing leaves and enters) and
//! the core decides the state change, the events sent to the peer with their
//! sequence numbers, and the recovery of local control.
use crate::input::{
    button_code, ButtonState, Effect, InputDisposition, InputResult, KeyboardEvent, MouseButton,
    RemoteMouseEvent, RoutedEvent, RoutedKeyboardEvent,
};
use crate::text::{concat2, decimal, spec_decimal};
use crate::topology::{NodeId, ScreenId, TopologyError};
use std::collections::BTreeSet;
use vstd::prelude::*;

verus! {

broadcast use {vstd::laws_cmp::group_laws_cmp, vstd::std_specs::btree::group_btree_axioms};

#[derive(Debug, Clone, Copy, PartialEq, Eq, Structural)]
pub enum ControlState {
    Local,
    Remote { peer: NodeId },
    Recovering { peer: NodeId },
}

#[derive(Debug, Clone, Copy, PartialEq, Eq, Structural)]
pub enum SessionError {
    Topology(TopologyError),
    InvalidHysteresis,
    InvalidTimeout,
    InitialScreenNotLocal(ScreenId),
    InitialPointerOutside(ScreenId),
    NonFiniteWheel,
    NotRecovering,
    MissingRestorePoint,
    CannotSynchronizeWhileRemote,
    SynchronizedScreenNotLocal(ScreenId),
    SynchronizedPointerOutside(ScreenId),
}

/// The message of a session error whose text depends on no number.
pub open spec fn fixed_session_message(error: SessionError) -> Seq<char> {
    match error {
        SessionError::InvalidHysteresis => "entry hysteresis must be finite and non-negative"@,
        SessionError::InvalidTimeout => "peer timeout must be greater than zero"@,
        SessionError::NonFiniteWheel => "wheel deltas must be finite"@,
        SessionError::NotRecovering => "session is not recovering"@,
        SessionError::MissingRestorePoint => "session has no local restore point"@,
        SessionError::CannotSynchronizeWhileRemote =>
            "cannot synchronize the local pointer while routing remotely"@,
        _ => Seq::empty(),
    }
}

/// The message of a session error.
pub open spec fn session_message(error: SessionError) -> Seq<char> {
    match error {
        SessionError::InitialScreenNotLocal(s) => "initial screen "@ + spec_decimal(s.0 as nat)
            + " is not local"@,
        SessionError::InitialPointerOutside(s) => "initial pointer is outside screen "@
            + spec_decimal(s.0 as nat),
        SessionError::SynchronizedScreenNotLocal(s) => "synchronized screen "@ + spec_decimal(
            s.0 as nat,
        ) + " is not local"@,
        SessionError::SynchronizedPointerOutside(s) => "synchronized pointer is outside screen "@
            + spec_decimal(s.0 as nat),
        SessionError::Topology(t) => topology_message(t),
        _ => fixed_session_message(error),
    }
}

/// The message of a topology error whose text depends on no edge name.
pub open spec fn topology_message(error: TopologyError) -> Seq<char> {
    match error {
        TopologyError::MissingScreen(s) => "missing screen "@ + spec_decimal(s.0 as nat),
        TopologyError::DuplicateScreen(s) => "duplicate screen "@ + spec_decimal(s.0 as nat),
        TopologyError::SelfConnection(s) => "screen "@ + spec_decimal(s.0 as nat)
            + " cannot connect to itself"@,
        TopologyError::InvalidScaleFactor => "scale factor must be finite and positive"@,
        TopologyError::InvalidDisplayGeometry => "invalid physical display geometry"@,
        TopologyError::PointOutsideScreen(s) => "pointer is outside screen "@ + spec_decimal(
            s.0 as nat,
        ),
        TopologyError::NonFiniteMovement => "mouse movement must be finite"@,
        TopologyError::OccupiedEdge(s, e) => "screen "@ + spec_decimal(s.0 as nat) + " edge "@
            + crate::geometry::debug_edge_text(e) + " already has a portal"@,
    }
}

fn with_number(prefix: &str, number: u64) -> (text: String)
    ensures
        text@ == prefix@ + spec_decimal(number as nat),
{
    let digits = decimal(number);
    concat2(prefix, digits.as_str())
}

fn with_number_between(prefix: &str, number: u64, suffix: &str) -> (text: String)
    ensures
        text@ == prefix@ + spec_decimal(number as nat) + suffix@,
{
    let digits = decimal(number);
    crate::text::concat3(prefix, digits.as_str(), suffix)
}

/// The text of a topology error.
pub fn topology_error_message(error: TopologyError) -> (text: String)
    ensures
        text@ == topology_message(error),
{
    match error {
        TopologyError::MissingScreen(s) => with_number("missing screen ", s.0),
        TopologyError::DuplicateScreen(s) => with_number("duplicate screen ", s.0),
        TopologyError::SelfConnection(s) => with_number_between(
            "screen ",
            s.0,
            " cannot connect to itself",
        ),
        TopologyError::InvalidScaleFactor => "scale factor must be finite and positive".to_owned(),
        TopologyError::InvalidDisplayGeometry => "invalid physical display geometry".to_owned(),
        TopologyError::PointOutsideScreen(s) => with_number("pointer is outside screen ", s.0),
        TopologyError::NonFiniteMovement => "mouse movement must be finite".to_owned(),
        TopologyError::OccupiedEdge(s, e) => {
            let head = with_number_between("screen ", s.0, " edge ");
            crate::text::concat3(
                head.as_str(),
                crate::geometry::debug_edge_name(e),
                " already has a portal",
            )
        },
    }
}

impl SessionError {
    /// The text of the error.
    pub fn message(&self) -> (text: String)
        ensures
            text@ == session_message(*self),
    {
        match *self {
            SessionError::Topology(t) => topology_error_message(t),
            SessionError::InvalidHysteresis => "entry hysteresis must be finite and non-negative"
                .to_owned(),
            SessionError::InvalidTimeout => "peer timeout must be greater than zero".to_owned(),
            SessionError::InitialScreenNotLocal(s) => with_number_between(
                "initial screen ",
                s.0,
                " is not local",
            ),
            SessionError::InitialPointerOutside(s) => with_number(
                "initial pointer is outside screen ",
                s.0,
            ),
            SessionError::NonFiniteWheel => "wheel deltas must be finite".to_owned(),
            SessionError::NotRecovering => "session is not recovering".to_owned(),
            SessionError::MissingRestorePoint => "session has no local restore point".to_owned(),
            SessionError::CannotSynchronizeWhileRemote =>
                "cannot synchronize the local pointer while routing remotely".to_owned(),
            SessionError::SynchronizedScreenNotLocal(s) => with_number_between(
                "synchronized screen ",
                s.0,
                " is not local",
            ),
            SessionError::SynchronizedPointerOutside(s) => with_number(
                "synchronized pointer is outside screen ",
                s.0,
            ),
        }
    }

    /// The topology error underneath, if this is one.
    pub fn source(&self) -> (inner: Option<TopologyError>)
        ensures
            inner == match *self {
                SessionError::Topology(t) => Some(t),
                _ => None::<TopologyError>,
            },
    {
        match *self {
            SessionError::Topology(t) => Some(t),
            _ => None,
        }
    }
}

/// The sequence number after `n`: one more, wrapping past the largest to 1, so
/// that 0 is never used.
pub open spec fn next_after(n: u64) -> u64 {
    if n == u64::MAX {
        1
    } else {
        (n + 1) as u64
    }
}

/// The sequence number an effect sends to the peer, if it sends an event.
pub open spec fn sent_sequence<P, W>(effect: Effect<P, W>) -> Option<u64> {
    match effect {
        Effect::Send { event, .. } => Some(event.sequence),
        Effect::SendKeyboard { event, .. } => Some(event.sequence),
        _ => None,
    }
}

/// The sequence numbers that a list of effects sends, in order.
pub open spec fn sent_sequences<P, W>(effects: Seq<Effect<P, W>>) -> Seq<u64>
    decreases effects.len(),
{
    if effects.len() == 0 {
        Seq::empty()
    } else {
        let earlier = sent_sequences(effects.drop_last());
        match sent_sequence(effects.last()) {
            Some(n) => earlier.push(n),
            None => earlier,
        }
    }
}

/// The mouse events that a list of effects sends to `peer`, in order.
pub open spec fn mouse_events_to<P, W>(effects: Seq<Effect<P, W>>, peer: NodeId) -> Seq<
    RemoteMouseEvent<P, W>,
>
    decreases effects.len(),
{
    if effects.len() == 0 {
        Seq::empty()
    } else {
        let earlier = mouse_events_to(effects.drop_last(), peer);
        match effects.last() {
            Effect::Send { peer: to, event } => if to == peer {
                earlier.push(event.event)
            } else {
                earlier
            },
            _ => earlier,
        }
    }
}

/// `count` consecutive sequence numbers, the first being `first`.
pub open spec fn numbers_from(first: u64, count: nat) -> Seq<u64>
    decreases count,
{
    if count == 0 {
        Seq::empty()
    } else {
        seq![first] + numbers_from(next_after(first), (count - 1) as nat)
    }
}

/// The sequence number `count` places after `first`.
pub open spec fn advanced(first: u64, count: nat) -> u64
    decreases count,
{
    if count == 0 {
        first
    } else {
        advanced(next_after(first), (count - 1) as nat)
    }
}

/// One call's effects send consecutive numbers from `before` on, and the
/// session's next number afterwards, `after`, is the one right past them.
pub open spec fn sends_fresh<P, W>(before: u64, effects: Seq<Effect<P, W>>, after: u64) -> bool {
    let sent = sent_sequences(effects);
    sent == numbers_from(before, sent.len()) && after == advanced(before, sent.len())
}

/// All effects of a run of calls, in the order the calls returned them.
pub open spec fn run_effects<P, W>(calls: Seq<Seq<Effect<P, W>>>) -> Seq<Effect<P, W>>
    decreases calls.len(),
{
    if calls.len() == 0 {
        Seq::empty()
    } else {
        run_effects(calls.drop_last()) + calls.last()
    }
}

proof fn lemma_sent_sequences_append<P, W>(a: Seq<Effect<P, W>>, b: Seq<Effect<P, W>>)
    ensures
        sent_sequences(a + b) == sent_sequences(a) + sent_sequences(b),
    decreases b.len(),
{
    if b.len() == 0 {
        assert(a + b =~= a);
        assert(sent_sequences(a) + sent_sequences(b) =~= sent_sequences(a));
    } else {
        lemma_sent_sequences_append(a, b.drop_last());
        assert((a + b).drop_last() =~= a + b.drop_last());
        assert((a + b).last() == b.last());
        match sent_sequence(b.last()) {
            Some(n) => {
                assert(sent_sequences(a) + sent_sequences(b.drop_last()).push(n) =~= (
                sent_sequences(a) + sent_sequences(b.drop_last())).push(n));
            },
            None => {},
        }
    }
}

proof fn lemma_numbers_from_split(first: u64, a: nat, b: nat)
    ensures
        numbers_from(first, a + b) == numbers_from(first, a) + numbers_from(advanced(first, a), b),
        advanced(first, a + b) == advanced(advanced(first, a), b),
    decreases a,
{
    if a == 0 {
        assert(numbers_from(first, 0) + numbers_from(first, b) =~= numbers_from(first, b));
    } else {
        lemma_numbers_from_split(next_after(first), (a - 1) as nat, b);
        assert((a + b - 1) as nat == ((a - 1) as nat + b) as nat);
        assert(seq![first] + (numbers_from(next_after(first), (a - 1) as nat) + numbers_from(
            advanced(next_after(first), (a - 1) as nat),
            b,
        )) =~= (seq![first] + numbers_from(next_after(first), (a - 1) as nat)) + numbers_from(
            advanced(next_after(first), (a - 1) as nat),
            b,
        ));
    }
}

proof fn lemma_numbers_from_steps(first: u64, count: nat)
    requires
        first >= 1,
    ensures
        numbers_from(first, count).len() == count,
        count > 0 ==> numbers_from(first, count)[0] == first,
        forall|j: int| 0 <= j < count ==> #[trigger] numbers_from(first, count)[j] >= 1,
        forall|j: int|
            0 <= j < count - 1 ==> #[trigger] numbers_from(first, count)[j + 1] == next_after(
                numbers_from(first, count)[j],
            ),
    decreases count,
{
    if count > 0 {
        lemma_numbers_from_steps(next_after(first), (count - 1) as nat);
        let rest = numbers_from(next_after(first), (count - 1) as nat);
        let all = numbers_from(first, count);
        assert(all == seq![first] + rest);
        assert forall|j: int| 0 <= j < count implies #[trigger] all[j] >= 1 by {
            if j > 0 {
                assert(all[j] == rest[j - 1]);
            }
        }
        assert forall|j: int| 0 <= j < count - 1 implies #[trigger] all[j + 1] == next_after(
            all[j],
        ) by {
            assert(all[j + 1] == rest[j]);
            if j > 0 {
                assert(all[j] == rest[j - 1]);
                assert(rest[(j - 1) + 1] == next_after(rest[j - 1]));
            } else {
                assert(rest[0] == next_after(first));
            }
        }
    }
}

/// Every event sent to the peer carries a fresh sequence number, over any run
/// of calls: when each call's effects send consecutive numbers from where the
/// session stood and leave it right past them (as every call of `ControlCore`
/// does), all events of the run carry the numbers 1, 2, 3, ... from the
/// session's first number on, each one past the one before (after the largest
/// number comes 1), none of them 0, and the session stands right past the
/// last one. A session made by `ControlCore::new` stands at 1, so its events
/// carry 1, 2, 3, ... from its first call on.
pub proof fn law_sequence_numbers_stay_fresh<P, W>(calls: Seq<Seq<Effect<P, W>>>, marks: Seq<u64>)
    requires
        marks.len() == calls.len() + 1,
        marks[0] >= 1,
        forall|i: int|
            0 <= i < calls.len() ==> sends_fresh(marks[i], #[trigger] calls[i], marks[i + 1]),
    ensures
        ({
            let sent = sent_sequences(run_effects(calls));
            &&& sent == numbers_from(marks[0], sent.len())
            &&& marks[0] == 1 ==> sent == numbers_from(1, sent.len())
            &&& marks.last() == advanced(marks[0], sent.len())
            &&& sent.len() > 0 ==> sent[0] == marks[0]
            &&& forall|j: int| 0 <= j < sent.len() ==> #[trigger] sent[j] >= 1
            &&& forall|j: int|
                0 <= j < sent.len() - 1 ==> #[trigger] sent[j + 1] == next_after(sent[j])
        }),
    decreases calls.len(),
{
    let sent = sent_sequences(run_effects(calls));
    if calls.len() == 0 {
        assert(sent =~= Seq::<u64>::empty());
    } else {
        let n = calls.len() - 1;
        let earlier_calls = calls.drop_last();
        let earlier_marks = marks.drop_last();
        assert forall|i: int| 0 <= i < earlier_calls.len() implies sends_fresh(
            earlier_marks[i],
            #[trigger] earlier_calls[i],
            earlier_marks[i + 1],
        ) by {
            assert(earlier_calls[i] == calls[i]);
            assert(sends_fresh(marks[i], calls[i], marks[i + 1]));
        }
        law_sequence_numbers_stay_fresh(earlier_calls, earlier_marks);
        let before = sent_sequences(run_effects(earlier_calls));
        let last = sent_sequences(calls[n]);
        assert(sends_fresh(marks[n], calls[n], marks[n + 1]));
        lemma_sent_sequences_append(run_effects(earlier_calls), calls.last());
        assert(sent == before + last);
        lemma_numbers_from_split(marks[0], before.len(), last.len());
        assert(sent.len() == before.len() + last.len());
    }
    lemma_numbers_from_steps(marks[0], sent.len());
}

proof fn lemma_sends_one<P, W>(before: u64, effect: Effect<P, W>)
    requires
        sent_sequence(effect) == Some(before),
    ensures
        sends_fresh(before, seq![effect], next_after(before)),
{
    reveal_with_fuel(sent_sequences, 2);
    reveal_with_fuel(numbers_from, 2);
    reveal_with_fuel(advanced, 2);
    assert(seq![effect].drop_last() =~= Seq::<Effect<P, W>>::empty());
    assert(numbers_from(before, 1) =~= seq![before]);
}

proof fn lemma_recovery_sends_nothing<P, W>(v: CoreView<P>, peer: NodeId, report_timeout: bool)
    ensures
        sends_fresh(
            v.next_sequence,
            recovery_effects::<P, W>(v, peer, report_timeout),
            recovering_view(v, peer).next_sequence,
        ),
{
    reveal_with_fuel(sent_sequences, 3);
    let effects = recovery_effects::<P, W>(v, peer, report_timeout);
    if effects.len() == 2 {
        assert(effects.drop_last().drop_last() =~= Seq::<Effect<P, W>>::empty());
    } else if effects.len() == 1 {
        assert(effects.drop_last() =~= Seq::<Effect<P, W>>::empty());
    }
}

proof fn lemma_cross_sends_fresh<P, W>(
    v: CoreView<P>,
    from_node: NodeId,
    to_node: NodeId,
    from_screen: ScreenId,
    to_screen: ScreenId,
    position: P,
    anchor: P,
    restore: P,
    now_ms: u64,
)
    ensures
        sends_fresh(
            v.next_sequence,
            cross_effects::<P, W>(v, from_node, to_node, to_screen, position, anchor),
            spec_cross(v, from_node, to_node, from_screen, restore, now_ms).next_sequence,
        ),
{
    reveal_with_fuel(sent_sequences, 4);
    reveal_with_fuel(numbers_from, 4);
    reveal_with_fuel(advanced, 4);
    let effects = cross_effects::<P, W>(v, from_node, to_node, to_screen, position, anchor);
    let s0 = v.next_sequence;
    let s1 = next_after(s0);
    let s2 = next_after(s1);
    if effects.len() == 3 {
        assert(effects.drop_last().drop_last().drop_last() =~= Seq::<Effect<P, W>>::empty());
    } else if effects.len() == 2 {
        assert(effects.drop_last().drop_last() =~= Seq::<Effect<P, W>>::empty());
    } else if effects.len() == 1 {
        assert(effects.drop_last() =~= Seq::<Effect<P, W>>::empty());
    }
    assert(numbers_from(s0, 1) =~= seq![s0]);
    assert(numbers_from(s0, 2) =~= seq![s0, s1]);
    assert(numbers_from(s0, 3) =~= seq![s0, s1, s2]);
}

/// The control state of a session, with the point type `P` of the platform side.
pub struct ControlCore<P> {
    local_node: NodeId,
    peer_timeout_ms: u64,
    block_switch_while_dragging: bool,
    state: ControlState,
    pressed: BTreeSet<u16>,
    next_sequence: u64,
    last_peer_activity_ms: Option<u64>,
    local_restore: Option<(ScreenId, P)>,
}

/// The mathematical content of a control core.
pub struct CoreView<P> {
    pub local_node: NodeId,
    pub peer_timeout_ms: u64,
    pub block_switch_while_dragging: bool,
    pub state: ControlState,
    pub pressed: Set<u16>,
    pub next_sequence: u64,
    pub last_peer_activity_ms: Option<u64>,
    pub local_restore: Option<(ScreenId, P)>,
}

impl<P> View for ControlCore<P> {
    type V = CoreView<P>;

    closed spec fn view(&self) -> CoreView<P> {
        CoreView {
            local_node: self.local_node,
            peer_timeout_ms: self.peer_timeout_ms,
            block_switch_while_dragging: self.block_switch_while_dragging,
            state: self.state,
            pressed: self.pressed@,
            next_sequence: self.next_sequence,
            last_peer_activity_ms: self.last_peer_activity_ms,
            local_restore: self.local_restore,
        }
    }
}

/// A control core is well formed when its next sequence number is not zero and
/// its timeout is positive.
pub open spec fn core_ok<P>(v: CoreView<P>) -> bool {
    v.next_sequence >= 1 && v.peer_timeout_ms > 0
}

/// The state after recovery of control from `peer` begins.
pub open spec fn recovering_view<P>(v: CoreView<P>, peer: NodeId) -> CoreView<P> {
    CoreView {
        state: ControlState::Recovering { peer },
        last_peer_activity_ms: if v.local_restore is Some {
            None
        } else {
            v.last_peer_activity_ms
        },
        ..v
    }
}

/// The effects of beginning recovery from `peer`.
pub open spec fn recovery_effects<P, W>(v: CoreView<P>, peer: NodeId, report_timeout: bool) -> Seq<
    Effect<P, W>,
> {
    let reported: Seq<Effect<P, W>> = if report_timeout {
        seq![Effect::PeerTimedOut { peer }]
    } else {
        Seq::empty()
    };
    match v.local_restore {
        Some((screen, restore_position)) => reported.push(
            Effect::ReleasePointer { screen, restore_position },
        ),
        None => reported,
    }
}

/// Whether the pointer is routed to `peer` right now.
pub open spec fn routed_to<P>(v: CoreView<P>, peer: NodeId) -> bool {
    v.state == (ControlState::Remote { peer })
}

impl<P> ControlCore<P> {
    /// The next sequence number is never 0 and the timeout is positive.
    #[verifier::type_invariant]
    spec fn well_formed(&self) -> bool {
        self.next_sequence >= 1 && self.peer_timeout_ms > 0
    }
}

impl<P: Copy> ControlCore<P> {

    /// A session on `local_node` that starts with local control.
    pub fn new(local_node: NodeId, peer_timeout_ms: u64, block_switch_while_dragging: bool) -> (core:
        Result<Self, SessionError>)
        ensures
            peer_timeout_ms == 0 ==> core == Err::<Self, SessionError>(
                SessionError::InvalidTimeout,
            ),
            peer_timeout_ms > 0 ==> (core matches Ok(c) && c@ == (CoreView::<P> {
                local_node,
                peer_timeout_ms,
                block_switch_while_dragging,
                state: ControlState::Local,
                pressed: Set::empty(),
                next_sequence: 1,
                last_peer_activity_ms: None,
                local_restore: None,
            })),
    {
        if peer_timeout_ms == 0 {
            return Err(SessionError::InvalidTimeout);
        }
        Ok(
            ControlCore {
                local_node,
                peer_timeout_ms,
                block_switch_while_dragging,
                state: ControlState::Local,
                pressed: BTreeSet::new(),
                next_sequence: 1,
                last_peer_activity_ms: None,
                local_restore: None,
            },
        )
    }

    pub fn state(&self) -> (state: ControlState)
        ensures
            state == self@.state,
    {
        self.state
    }

    pub fn local_node(&self) -> (node: NodeId)
        ensures
            node == self@.local_node,
    {
        self.local_node
    }

    /// Whether local input should pass through untouched while recovery is
    /// under way.
    pub fn is_recovering(&self) -> (recovering: bool)
        ensures
            recovering == self@.state is Recovering,
    {
        matches!(self.state, ControlState::Recovering { .. })
    }

    /// Whether a screen transition must wait because a button is held.
    pub fn blocks_transition(&self) -> (blocked: bool)
        ensures
            blocked == (self@.block_switch_while_dragging && !self@.pressed.is_empty()),
    {
        self.block_switch_while_dragging && !self.pressed.is_empty()
    }

    /// Takes the next sequence number.
    fn take_sequence(&mut self) -> (sequence: u64)
        ensures
            sequence == old(self)@.next_sequence,
            final(self)@ == (CoreView { next_sequence: next_after(sequence), ..old(self)@ }),
            core_ok(final(self)@),
    {
        proof {
            use_type_invariant(&*self);
        }
        let sequence = self.next_sequence;
        self.next_sequence = if self.next_sequence == u64::MAX {
            1
        } else {
            self.next_sequence + 1
        };
        sequence
    }

    /// A keyboard event: sent to the peer that controls the pointer, passed
    /// through otherwise.
    pub fn handle_keyboard<W>(&mut self, event: KeyboardEvent) -> (result: InputResult<P, W>)
        ensures
            core_ok(final(self)@),
            match old(self)@.state {
                ControlState::Remote { peer } => result.disposition == InputDisposition::Suppress
                    && result.effects@ == seq![
                    Effect::<P, W>::SendKeyboard {
                        peer,
                        event: RoutedKeyboardEvent { sequence: old(self)@.next_sequence, event },
                    },
                ] && final(self)@ == (CoreView {
                    next_sequence: next_after(old(self)@.next_sequence),
                    ..old(self)@
                }),
                _ => result.disposition == InputDisposition::PassThrough && result.effects@.len()
                    == 0 && final(self)@ == old(self)@,
            },
            sends_fresh(old(self)@.next_sequence, result.effects@, final(self)@.next_sequence),
    {
        proof {
            use_type_invariant(&*self);
        }
        match self.state {
            ControlState::Remote { peer } => {
                let sequence = self.take_sequence();
                let effects = vec![
                    Effect::SendKeyboard { peer, event: RoutedKeyboardEvent { sequence, event } },
                ];
                proof {
                    lemma_sends_one::<P, W>(sequence, effects@[0]);
                    assert(effects@ =~= seq![effects@[0]]);
                }
                InputResult::suppress(effects)
            },
            _ => InputResult::pass_through(),
        }
    }

    /// The controlled peer was heard from at `now_ms`.
    pub fn note_peer_activity(&mut self, peer: NodeId, now_ms: u64)
        ensures
            routed_to(old(self)@, peer) ==> final(self)@ == (CoreView {
                last_peer_activity_ms: Some(now_ms),
                ..old(self)@
            }),
            !routed_to(old(self)@, peer) ==> final(self)@ == old(self)@,
    {
        proof {
            use_type_invariant(&*self);
        }
        match self.state {
            ControlState::Remote { peer: active } => {
                if active == peer {
                    self.last_peer_activity_ms = Some(now_ms);
                }
            },
            _ => {},
        }
    }

    fn begin_recovery<W>(&mut self, peer: NodeId, report_timeout: bool) -> (effects: Vec<
        Effect<P, W>,
    >)
        ensures
            final(self)@ == recovering_view(old(self)@, peer),
            effects@ == recovery_effects::<P, W>(old(self)@, peer, report_timeout),
            sends_fresh(old(self)@.next_sequence, effects@, final(self)@.next_sequence),
    {
        proof {
            use_type_invariant(&*self);
        }
        proof {
            lemma_recovery_sends_nothing::<P, W>(self@, peer, report_timeout);
        }
        let mut effects: Vec<Effect<P, W>> = Vec::new();
        if report_timeout {
            effects.push(Effect::PeerTimedOut { peer });
        }
        match self.local_restore {
            None => {
                self.state = ControlState::Recovering { peer };
                effects
            },
            Some((screen, restore_position)) => {
                self.state = ControlState::Recovering { peer };
                self.last_peer_activity_ms = None;
                effects.push(Effect::ReleasePointer { screen, restore_position });
                effects
            },
        }
    }

    /// Gives control back when the controlled peer has been silent for the
    /// timeout, reporting it.
    pub fn poll_timeout<W>(&mut self, now_ms: u64) -> (effects: Vec<Effect<P, W>>)
        ensures
            ({
                let v = old(self)@;
                let expired = v.state is Remote && v.last_peer_activity_ms is Some && (if now_ms
                    >= v.last_peer_activity_ms.unwrap() {
                    now_ms - v.last_peer_activity_ms.unwrap()
                } else {
                    0
                }) >= v.peer_timeout_ms;
                &&& expired ==> final(self)@ == recovering_view(v, v.state->Remote_peer) && effects@
                    == recovery_effects::<P, W>(v, v.state->Remote_peer, true)
                &&& !expired ==> final(self)@ == v && effects@.len() == 0
            }),
            sends_fresh(old(self)@.next_sequence, effects@, final(self)@.next_sequence),
    {
        proof {
            use_type_invariant(&*self);
        }
        let peer = match self.state {
            ControlState::Remote { peer } => peer,
            _ => return Vec::new(),
        };
        let last_activity = match self.last_peer_activity_ms {
            Some(last) => last,
            None => return Vec::new(),
        };
        let silent = if now_ms >= last_activity {
            now_ms - last_activity
        } else {
            0
        };
        if silent < self.peer_timeout_ms {
            return Vec::new();
        }
        self.begin_recovery(peer, true)
    }

    /// The link to `peer` dropped: if it controlled the pointer, control
    /// recovers and the failure is reported.
    pub fn disconnect_peer<W>(&mut self, peer: NodeId) -> (effects: Vec<Effect<P, W>>)
        ensures
            routed_to(old(self)@, peer) ==> final(self)@ == recovering_view(old(self)@, peer)
                && effects@ == recovery_effects::<P, W>(old(self)@, peer, true),
            !routed_to(old(self)@, peer) ==> final(self)@ == old(self)@ && effects@.len() == 0,
            sends_fresh(old(self)@.next_sequence, effects@, final(self)@.next_sequence),
    {
        proof {
            use_type_invariant(&*self);
        }
        match self.state {
            ControlState::Remote { peer: active } => {
                if active == peer {
                    return self.begin_recovery(peer, true);
                }
                Vec::new()
            },
            _ => Vec::new(),
        }
    }

    /// The peer asked to hand control back: an orderly handoff, not reported
    /// as a failure.
    pub fn yield_remote_control<W>(&mut self, peer: NodeId) -> (effects: Vec<Effect<P, W>>)
        ensures
            routed_to(old(self)@, peer) ==> final(self)@ == recovering_view(old(self)@, peer)
                && effects@ == recovery_effects::<P, W>(old(self)@, peer, false),
            !routed_to(old(self)@, peer) ==> final(self)@ == old(self)@ && effects@.len() == 0,
            sends_fresh(old(self)@.next_sequence, effects@, final(self)@.next_sequence),
    {
        proof {
            use_type_invariant(&*self);
        }
        match self.state {
            ControlState::Remote { peer: active } => {
                if active == peer {
                    return self.begin_recovery(peer, false);
                }
                Vec::new()
            },
            _ => Vec::new(),
        }
    }

    /// The adapter restored the local pointer: control is local again, at the
    /// returned screen and position.
    pub fn complete_recovery(&mut self) -> (restored: Result<(ScreenId, P), SessionError>)
        ensures
            !(old(self)@.state is Recovering) ==> restored == Err::<(ScreenId, P), SessionError>(
                SessionError::NotRecovering,
            ) && final(self)@ == old(self)@,
            old(self)@.state is Recovering && old(self)@.local_restore is None ==> restored
                == Err::<(ScreenId, P), SessionError>(SessionError::MissingRestorePoint) && final(self)@ == old(self)@,
            old(self)@.state is Recovering && old(self)@.local_restore is Some ==> restored
                == Ok::<(ScreenId, P), SessionError>(old(self)@.local_restore.unwrap()) && final(self)@ == (CoreView {
                state: ControlState::Local,
                pressed: Set::empty(),
                last_peer_activity_ms: None,
                local_restore: None,
                ..old(self)@
            }),
    {
        proof {
            use_type_invariant(&*self);
        }
        if !matches!(self.state, ControlState::Recovering { .. }) {
            return Err(SessionError::NotRecovering);
        }
        let restore = match self.local_restore {
            Some(restore) => restore,
            None => return Err(SessionError::MissingRestorePoint),
        };
        self.local_restore = None;
        self.state = ControlState::Local;
        self.last_peer_activity_ms = None;
        self.pressed = BTreeSet::new();
        Ok(restore)
    }

    /// Whether the local pointer may be re-synchronised (only under local
    /// control).
    pub fn check_synchronize(&self) -> (allowed: Result<(), SessionError>)
        ensures
            self@.state == ControlState::Local ==> allowed is Ok,
            self@.state != ControlState::Local ==> allowed == Err::<(), SessionError>(
                SessionError::CannotSynchronizeWhileRemote,
            ),
    {
        if self.state != ControlState::Local {
            return Err(SessionError::CannotSynchronizeWhileRemote);
        }
        Ok(())
    }

    /// The local pointer was re-synchronised after an incoming remote session:
    /// nothing is held and there is nothing to restore.
    pub fn synchronized(&mut self)
        ensures
            final(self)@ == (CoreView {
                pressed: Set::empty(),
                last_peer_activity_ms: None,
                local_restore: None,
                ..old(self)@
            }),
    {
        proof {
            use_type_invariant(&*self);
        }
        self.pressed = BTreeSet::new();
        self.last_peer_activity_ms = None;
        self.local_restore = None;
    }

    /// A mouse button changed: the held set follows it, and under remote
    /// control the change goes to the peer.
    pub fn handle_button<W>(&mut self, button: MouseButton, state: ButtonState) -> (result:
        InputResult<P, W>)
        ensures
            core_ok(final(self)@),
            final(self)@.pressed == match state {
                ButtonState::Pressed => old(self)@.pressed.insert(button_code(button)),
                ButtonState::Released => old(self)@.pressed.remove(button_code(button)),
            },
            match old(self)@.state {
                ControlState::Remote { peer } => result.disposition == InputDisposition::Suppress
                    && result.effects@ == seq![
                    Effect::<P, W>::Send {
                        peer,
                        event: RoutedEvent {
                            sequence: old(self)@.next_sequence,
                            event: RemoteMouseEvent::Button { button, state },
                        },
                    },
                ] && final(self)@.next_sequence == next_after(old(self)@.next_sequence),
                _ => result.disposition == InputDisposition::PassThrough && result.effects@.len()
                    == 0 && final(self)@.next_sequence == old(self)@.next_sequence,
            },
            final(self)@.state == old(self)@.state,
            final(self)@.last_peer_activity_ms == old(self)@.last_peer_activity_ms,
            final(self)@.local_restore == old(self)@.local_restore,
            final(self)@.local_node == old(self)@.local_node,
            final(self)@.peer_timeout_ms == old(self)@.peer_timeout_ms,
            final(self)@.block_switch_while_dragging == old(self)@.block_switch_while_dragging,
            sends_fresh(old(self)@.next_sequence, result.effects@, final(self)@.next_sequence),
    {
        proof {
            use_type_invariant(&*self);
        }
        let code = button_code(button);
        match state {
            ButtonState::Pressed => {
                let mut pressed = BTreeSet::new();
                std::mem::swap(&mut pressed, &mut self.pressed);
                pressed.insert(code);
                self.pressed = pressed;
            },
            ButtonState::Released => {
                let mut pressed = BTreeSet::new();
                std::mem::swap(&mut pressed, &mut self.pressed);
                pressed.remove(&code);
                self.pressed = pressed;
            },
        }
        match self.state {
            ControlState::Remote { peer } => {
                let sequence = self.take_sequence();
                let effects = vec![
                    Effect::Send {
                        peer,
                        event: RoutedEvent {
                            sequence,
                            event: RemoteMouseEvent::Button { button, state },
                        },
                    },
                ];
                proof {
                    lemma_sends_one::<P, W>(sequence, effects@[0]);
                    assert(effects@ =~= seq![effects@[0]]);
                }
                InputResult::suppress(effects)
            },
            _ => InputResult::pass_through(),
        }
    }

    /// A wheel movement (already checked to be finite): sent to the peer under
    /// remote control.
    pub fn handle_wheel<W>(&mut self, horizontal: W, vertical: W) -> (result: InputResult<P, W>)
        ensures
            core_ok(final(self)@),
            match old(self)@.state {
                ControlState::Remote { peer } => result.disposition == InputDisposition::Suppress
                    && result.effects@ == seq![
                    Effect::<P, W>::Send {
                        peer,
                        event: RoutedEvent {
                            sequence: old(self)@.next_sequence,
                            event: RemoteMouseEvent::Wheel { horizontal, vertical },
                        },
                    },
                ] && final(self)@ == (CoreView {
                    next_sequence: next_after(old(self)@.next_sequence),
                    ..old(self)@
                }),
                _ => result.disposition == InputDisposition::PassThrough && result.effects@.len()
                    == 0 && final(self)@ == old(self)@,
            },
            sends_fresh(old(self)@.next_sequence, result.effects@, final(self)@.next_sequence),
    {
        proof {
            use_type_invariant(&*self);
        }
        match self.state {
            ControlState::Remote { peer } => {
                let sequence = self.take_sequence();
                let effects = vec![
                    Effect::Send {
                        peer,
                        event: RoutedEvent {
                            sequence,
                            event: RemoteMouseEvent::Wheel { horizontal, vertical },
                        },
                    },
                ];
                proof {
                    lemma_sends_one::<P, W>(sequence, effects@[0]);
                    assert(effects@ =~= seq![effects@[0]]);
                }
                InputResult::suppress(effects)
            },
            _ => InputResult::pass_through(),
        }
    }

    /// The pointer moved without changing screens: under remote control its
    /// new absolute position goes to the peer.
    pub fn route_motion<W>(&mut self, screen: ScreenId, position: P) -> (result: InputResult<
        P,
        W,
    >)
        ensures
            core_ok(final(self)@),
            match old(self)@.state {
                ControlState::Remote { peer } => result.disposition == InputDisposition::Suppress
                    && result.effects@ == seq![
                    Effect::<P, W>::Send {
                        peer,
                        event: RoutedEvent {
                            sequence: old(self)@.next_sequence,
                            event: RemoteMouseEvent::MoveAbsolute { screen, position },
                        },
                    },
                ] && final(self)@ == (CoreView {
                    next_sequence: next_after(old(self)@.next_sequence),
                    ..old(self)@
                }),
                _ => result.disposition == InputDisposition::PassThrough && result.effects@.len()
                    == 0 && final(self)@ == old(self)@,
            },
            sends_fresh(old(self)@.next_sequence, result.effects@, final(self)@.next_sequence),
    {
        proof {
            use_type_invariant(&*self);
        }
        match self.state {
            ControlState::Remote { peer } => {
                let sequence = self.take_sequence();
                let effects = vec![
                    Effect::Send {
                        peer,
                        event: RoutedEvent {
                            sequence,
                            event: RemoteMouseEvent::MoveAbsolute { screen, position },
                        },
                    },
                ];
                proof {
                    lemma_sends_one::<P, W>(sequence, effects@[0]);
                    assert(effects@ =~= seq![effects@[0]]);
                }
                InputResult::suppress(effects)
            },
            _ => InputResult::pass_through(),
        }
    }

    /// The pointer crossed from a screen of `from_node` to `to_screen` of
    /// `to_node`, arriving at `position`. `anchor` is where it left and
    /// `restore` the point inside the left screen to come back to. The drag
    /// lock is the caller's to check (`handle_input` does).
    pub fn cross<W>(
        &mut self,
        from_node: NodeId,
        to_node: NodeId,
        from_screen: ScreenId,
        to_screen: ScreenId,
        position: P,
        anchor: P,
        restore: P,
        now_ms: u64,
    ) -> (result: InputResult<P, W>)
        ensures
            core_ok(final(self)@),
            final(self)@ == spec_cross(
                old(self)@,
                from_node,
                to_node,
                from_screen,
                restore,
                now_ms,
            ),
            result.effects@ == cross_effects::<P, W>(
                old(self)@,
                from_node,
                to_node,
                to_screen,
                position,
                anchor,
            ),
            result.disposition == if from_node == old(self)@.local_node && to_node == old(self)@.local_node {
                InputDisposition::PassThrough
            } else {
                InputDisposition::Suppress
            },
            sends_fresh(old(self)@.next_sequence, result.effects@, final(self)@.next_sequence),
            tells_each_computer(
                old(self)@.local_node,
                from_node,
                to_node,
                to_screen,
                position,
                anchor,
                result.effects@,
            ),
    {
        proof {
            use_type_invariant(&*self);
            law_crossing_tells_each_computer::<P, W>(
                self@,
                from_node,
                to_node,
                to_screen,
                position,
                anchor,
            );
        }
        proof {
            lemma_cross_sends_fresh::<P, W>(
                self@,
                from_node,
                to_node,
                from_screen,
                to_screen,
                position,
                anchor,
                restore,
                now_ms,
            );
        }
        let local = self.local_node;
        if from_node == local && to_node == local {
            return InputResult::pass_through();
        }
        if from_node == local {
            self.state = ControlState::Remote { peer: to_node };
            self.last_peer_activity_ms = Some(now_ms);
            self.local_restore = Some((from_screen, restore));
            let sequence = self.take_sequence();
            let effects = vec![
                Effect::CapturePointer { anchor },
                Effect::Send {
                    peer: to_node,
                    event: RoutedEvent {
                        sequence,
                        event: RemoteMouseEvent::Enter { screen: to_screen, position },
                    },
                },
            ];
            return InputResult::suppress(effects);
        }
        if to_node == local {
            let release = self.take_sequence();
            let leave = self.take_sequence();
            self.state = ControlState::Local;
            self.last_peer_activity_ms = None;
            self.local_restore = None;
            self.pressed = BTreeSet::new();
            let effects = vec![
                Effect::Send {
                    peer: from_node,
                    event: RoutedEvent { sequence: release, event: RemoteMouseEvent::ReleaseAll },
                },
                Effect::Send {
                    peer: from_node,
                    event: RoutedEvent { sequence: leave, event: RemoteMouseEvent::Leave },
                },
                Effect::ReleasePointer { screen: to_screen, restore_position: position },
            ];
            return InputResult::suppress(effects);
        }
        if from_node == to_node {
            let sequence = self.take_sequence();
            let effects = vec![
                Effect::Send {
                    peer: to_node,
                    event: RoutedEvent {
                        sequence,
                        event: RemoteMouseEvent::Enter { screen: to_screen, position },
                    },
                },
            ];
            proof {
                lemma_sends_one::<P, W>(sequence, effects@[0]);
                assert(effects@ =~= seq![effects@[0]]);
            }
            return InputResult::suppress(effects);
        }
        let release = self.take_sequence();
        let leave = self.take_sequence();
        let enter = self.take_sequence();
        self.state = ControlState::Remote { peer: to_node };
        self.last_peer_activity_ms = Some(now_ms);
        let effects = vec![
            Effect::Send {
                peer: from_node,
                event: RoutedEvent { sequence: release, event: RemoteMouseEvent::ReleaseAll },
            },
            Effect::Send {
                peer: from_node,
                event: RoutedEvent { sequence: leave, event: RemoteMouseEvent::Leave },
            },
            Effect::Send {
                peer: to_node,
                event: RoutedEvent {
                    sequence: enter,
                    event: RemoteMouseEvent::Enter { screen: to_screen, position },
                },
            },
        ];
        InputResult::suppress(effects)
    }

    /// Local mouse input: while control recovers from the peer everything
    /// passes through untouched; otherwise a movement within a screen, a
    /// crossing, a button or the wheel is handled as by `route_motion`,
    /// `cross`, `handle_button` and `handle_wheel`. While a button is held and
    /// the session blocks switching while dragging, a crossing is refused: the
    /// pointer stays on its screen and the movement is routed there.
    pub fn handle_input<W>(&mut self, input: PointerInput<P, W>, now_ms: u64) -> (result:
        InputResult<P, W>)
        ensures
            core_ok(final(self)@),
            sends_fresh(old(self)@.next_sequence, result.effects@, final(self)@.next_sequence),
            old(self)@.state is Recovering ==> result.disposition == InputDisposition::PassThrough
                && result.effects@.len() == 0 && final(self)@ == old(self)@,
            !(old(self)@.state is Recovering) ==> match input {
                PointerInput::Motion { screen, position } => (final(self)@, result.effects@)
                    == forwarded::<P, W>(
                    old(self)@,
                    RemoteMouseEvent::MoveAbsolute { screen, position },
                ),
                PointerInput::Crossing {
                    from_node,
                    to_node,
                    from_screen,
                    to_screen,
                    position,
                    anchor,
                    restore,
                    stay,
                } => if old(self)@.block_switch_while_dragging && !old(self)@.pressed.is_empty() {
                    &&& (final(self)@, result.effects@) == forwarded::<P, W>(
                        old(self)@,
                        RemoteMouseEvent::MoveAbsolute { screen: from_screen, position: stay },
                    )
                    &&& result.disposition == if old(self)@.state is Remote {
                        InputDisposition::Suppress
                    } else {
                        InputDisposition::PassThrough
                    }
                } else {
                    final(self)@ == spec_cross(
                    old(self)@,
                    from_node,
                    to_node,
                    from_screen,
                    restore,
                    now_ms,
                ) && result.effects@ == cross_effects::<P, W>(
                    old(self)@,
                    from_node,
                    to_node,
                    to_screen,
                    position,
                    anchor,
                )
                },
                PointerInput::Button { button, state } => (final(self)@, result.effects@)
                    == forwarded::<P, W>(
                    CoreView { pressed: pressed_after(old(self)@.pressed, button, state), ..old(self)@ },
                    RemoteMouseEvent::Button { button, state },
                ),
                PointerInput::Wheel { horizontal, vertical } => (final(self)@, result.effects@)
                    == forwarded::<P, W>(
                    old(self)@,
                    RemoteMouseEvent::Wheel { horizontal, vertical },
                ),
            },
    {
        proof {
            use_type_invariant(&*self);
        }
        if self.is_recovering() {
            return InputResult::pass_through();
        }
        match input {
            PointerInput::Motion { screen, position } => self.route_motion(screen, position),
            PointerInput::Crossing {
                from_node,
                to_node,
                from_screen,
                to_screen,
                position,
                anchor,
                restore,
                stay,
            } => if self.blocks_transition() {
                self.route_motion(from_screen, stay)
            } else {
                self.cross(
                from_node,
                to_node,
                from_screen,
                to_screen,
                position,
                anchor,
                restore,
                now_ms,
            )
            },
            PointerInput::Button { button, state } => self.handle_button(button, state),
            PointerInput::Wheel { horizontal, vertical } => self.handle_wheel(horizontal, vertical),
        }
    }
}

/// The refusal, if any, of a screen for the local pointer: `owner` is the
/// node the topology gives the screen (`None` when it has no such screen) and
/// `pointer_inside` whether the pointer lies within the screen's bounds, as
/// the platform side measured them. A session starts (`initial`), and a
/// pointer handed back by the peer is synchronized, only on a screen of the
/// local node that contains the pointer.
pub open spec fn spec_local_screen_fault(
    owner: Option<NodeId>,
    local_node: NodeId,
    screen: ScreenId,
    pointer_inside: bool,
    initial: bool,
) -> Option<SessionError> {
    match owner {
        None => Some(SessionError::Topology(TopologyError::MissingScreen(screen))),
        Some(node) => if node != local_node {
            Some(
                if initial {
                    SessionError::InitialScreenNotLocal(screen)
                } else {
                    SessionError::SynchronizedScreenNotLocal(screen)
                },
            )
        } else if !pointer_inside {
            Some(
                if initial {
                    SessionError::InitialPointerOutside(screen)
                } else {
                    SessionError::SynchronizedPointerOutside(screen)
                },
            )
        } else {
            None
        },
    }
}

/// Checks a screen for the local pointer, as `spec_local_screen_fault` says.
pub fn check_local_screen(
    owner: Option<NodeId>,
    local_node: NodeId,
    screen: ScreenId,
    pointer_inside: bool,
    initial: bool,
) -> (checked: Result<(), SessionError>)
    ensures
        match spec_local_screen_fault(owner, local_node, screen, pointer_inside, initial) {
            Some(fault) => checked == Err::<(), SessionError>(fault),
            None => checked is Ok,
        },
{
    let node = match owner {
        None => return Err(SessionError::Topology(TopologyError::MissingScreen(screen))),
        Some(node) => node,
    };
    if node.0 != local_node.0 {
        return Err(
            if initial {
                SessionError::InitialScreenNotLocal(screen)
            } else {
                SessionError::SynchronizedScreenNotLocal(screen)
            },
        );
    }
    if !pointer_inside {
        return Err(
            if initial {
                SessionError::InitialPointerOutside(screen)
            } else {
                SessionError::SynchronizedPointerOutside(screen)
            },
        );
    }
    Ok(())
}

/// Input from the local mouse, once the platform side resolved where a
/// movement leads: within a screen, or across an edge to another screen.
pub enum PointerInput<P, W> {
    Motion { screen: ScreenId, position: P },
    /// A movement across an edge from `from_screen` to `to_screen`, arriving
    /// at `position`; `anchor` is where the pointer left, `restore` the point
    /// inside the left screen to come back to, and `stay` where the pointer
    /// stays on `from_screen` if the crossing is refused.
    Crossing {
        from_node: NodeId,
        to_node: NodeId,
        from_screen: ScreenId,
        to_screen: ScreenId,
        position: P,
        anchor: P,
        restore: P,
        stay: P,
    },
    Button { button: MouseButton, state: ButtonState },
    Wheel { horizontal: W, vertical: W },
}

/// The state and effects after an input event that goes to the peer under
/// remote control and stays local otherwise.
pub open spec fn forwarded<P, W>(v: CoreView<P>, event: RemoteMouseEvent<P, W>) -> (
    CoreView<P>,
    Seq<Effect<P, W>>,
) {
    match v.state {
        ControlState::Remote { peer } => (
            CoreView { next_sequence: next_after(v.next_sequence), ..v },
            seq![
                Effect::Send { peer, event: RoutedEvent { sequence: v.next_sequence, event } },
            ],
        ),
        _ => (v, Seq::empty()),
    }
}

/// The held buttons after a button changed.
pub open spec fn pressed_after(pressed: Set<u16>, button: MouseButton, state: ButtonState) -> Set<
    u16,
> {
    match state {
        ButtonState::Pressed => pressed.insert(button_code(button)),
        ButtonState::Released => pressed.remove(button_code(button)),
    }
}

/// The state after a crossing from a screen of `from_node` to one of
/// `to_node`.
pub open spec fn spec_cross<P>(
    v: CoreView<P>,
    from_node: NodeId,
    to_node: NodeId,
    from_screen: ScreenId,
    restore: P,
    now_ms: u64,
) -> CoreView<P> {
    let local = v.local_node;
    if from_node == local && to_node == local {
        v
    } else if from_node == local {
        CoreView {
            state: ControlState::Remote { peer: to_node },
            last_peer_activity_ms: Some(now_ms),
            local_restore: Some((from_screen, restore)),
            next_sequence: next_after(v.next_sequence),
            ..v
        }
    } else if to_node == local {
        CoreView {
            state: ControlState::Local,
            last_peer_activity_ms: None,
            local_restore: None,
            pressed: Set::empty(),
            next_sequence: next_after(next_after(v.next_sequence)),
            ..v
        }
    } else if from_node == to_node {
        CoreView { next_sequence: next_after(v.next_sequence), ..v }
    } else {
        CoreView {
            state: ControlState::Remote { peer: to_node },
            last_peer_activity_ms: Some(now_ms),
            next_sequence: next_after(next_after(next_after(v.next_sequence))),
            ..v
        }
    }
}

/// The effects of a crossing.
pub open spec fn cross_effects<P, W>(
    v: CoreView<P>,
    from_node: NodeId,
    to_node: NodeId,
    to_screen: ScreenId,
    position: P,
    anchor: P,
) -> Seq<Effect<P, W>> {
    let local = v.local_node;
    let s0 = v.next_sequence;
    let s1 = next_after(s0);
    let s2 = next_after(s1);
    if from_node == local && to_node == local {
        Seq::empty()
    } else if from_node == local {
        seq![
            Effect::CapturePointer { anchor },
            Effect::Send {
                peer: to_node,
                event: RoutedEvent {
                    sequence: s0,
                    event: RemoteMouseEvent::Enter { screen: to_screen, position },
                },
            },
        ]
    } else if to_node == local {
        seq![
            Effect::Send {
                peer: from_node,
                event: RoutedEvent { sequence: s0, event: RemoteMouseEvent::ReleaseAll },
            },
            Effect::Send {
                peer: from_node,
                event: RoutedEvent { sequence: s1, event: RemoteMouseEvent::Leave },
            },
            Effect::ReleasePointer { screen: to_screen, restore_position: position },
        ]
    } else if from_node == to_node {
        seq![
            Effect::Send {
                peer: to_node,
                event: RoutedEvent {
                    sequence: s0,
                    event: RemoteMouseEvent::Enter { screen: to_screen, position },
                },
            },
        ]
    } else {
        seq![
            Effect::Send {
                peer: from_node,
                event: RoutedEvent { sequence: s0, event: RemoteMouseEvent::ReleaseAll },
            },
            Effect::Send {
                peer: from_node,
                event: RoutedEvent { sequence: s1, event: RemoteMouseEvent::Leave },
            },
            Effect::Send {
                peer: to_node,
                event: RoutedEvent {
                    sequence: s2,
                    event: RemoteMouseEvent::Enter { screen: to_screen, position },
                },
            },
        ]
    }
}

/// What each computer is told by `effects` when the pointer crosses from a
/// screen of `from_node` to `to_screen` of `to_node`, arriving at `position`,
/// with `local` the computer the session runs on. Leaving the local computer
/// captures the pointer at `anchor` and sends the peer one `Enter` at the
/// arrival. Leaving a peer sends that peer its `ReleaseAll` and then its one
/// `Leave`, and nothing else; coming home then releases the pointer at the
/// arrival on the local screen, while going on to another peer sends that one
/// `Enter`. Moving between screens of one peer sends it one `Enter`.
pub open spec fn tells_each_computer<P, W>(
    local: NodeId,
    from_node: NodeId,
    to_node: NodeId,
    to_screen: ScreenId,
    position: P,
    anchor: P,
    effects: Seq<Effect<P, W>>,
) -> bool {
    let enter = RemoteMouseEvent::<P, W>::Enter { screen: to_screen, position };
    &&& from_node == local && to_node == local ==> effects.len() == 0
    &&& from_node == local && to_node != local ==> {
        &&& effects[0] == Effect::<P, W>::CapturePointer { anchor }
        &&& mouse_events_to(effects, to_node) == seq![enter]
    }
    &&& from_node != local ==> mouse_events_to(effects, from_node) == if from_node == to_node {
        seq![enter]
    } else {
        seq![RemoteMouseEvent::<P, W>::ReleaseAll, RemoteMouseEvent::<P, W>::Leave]
    }
    &&& from_node != local && to_node == local ==> effects.last()
        == Effect::<P, W>::ReleasePointer { screen: to_screen, restore_position: position }
    &&& from_node != local && to_node != local ==> mouse_events_to(effects, to_node) == seq![enter]
}

/// Every crossing tells each computer what `tells_each_computer` says: in
/// particular, coming home from a peer sends that peer exactly one `Leave`,
/// after its `ReleaseAll`.
pub proof fn law_crossing_tells_each_computer<P, W>(
    v: CoreView<P>,
    from_node: NodeId,
    to_node: NodeId,
    to_screen: ScreenId,
    position: P,
    anchor: P,
)
    ensures
        tells_each_computer(
            v.local_node,
            from_node,
            to_node,
            to_screen,
            position,
            anchor,
            cross_effects::<P, W>(v, from_node, to_node, to_screen, position, anchor),
        ),
{
    reveal_with_fuel(mouse_events_to, 4);
    let effects = cross_effects::<P, W>(v, from_node, to_node, to_screen, position, anchor);
    let local = v.local_node;
    let enter = RemoteMouseEvent::<P, W>::Enter { screen: to_screen, position };
    if effects.len() == 3 {
        assert(effects.drop_last().drop_last().drop_last() =~= Seq::<Effect<P, W>>::empty());
    } else if effects.len() == 2 {
        assert(effects.drop_last().drop_last() =~= Seq::<Effect<P, W>>::empty());
    } else if effects.len() == 1 {
        assert(effects.drop_last() =~= Seq::<Effect<P, W>>::empty());
    }
    if from_node == local && to_node != local {
        assert(mouse_events_to(effects, to_node) == seq![enter]);
    } else if from_node != local && to_node == local {
        assert(mouse_events_to(effects, from_node) == seq![
            RemoteMouseEvent::<P, W>::ReleaseAll,
            RemoteMouseEvent::<P, W>::Leave,
        ]);
    } else if from_node != local && from_node == to_node {
        assert(mouse_events_to(effects, from_node) == seq![enter]);
    } else if from_node != local {
        assert(mouse_events_to(effects, from_node) == seq![
            RemoteMouseEvent::<P, W>::ReleaseAll,
            RemoteMouseEvent::<P, W>::Leave,
        ]);
        assert(mouse_events_to(effects, to_node) == seq![enter]);
    }
}

/// Crossing from a local screen to the peer and back returns control home:
/// the session is local again, holds no buttons and has nothing to restore.
pub proof fn law_crossing_out_and_back_is_local<P>(
    v: CoreView<P>,
    peer: NodeId,
    local_screen: ScreenId,
    remote_screen: ScreenId,
    restore: P,
    out_ms: u64,
    back_ms: u64,
)
    requires
        peer != v.local_node,
    ensures
        ({
            let out = spec_cross(v, v.local_node, peer, local_screen, restore, out_ms);
            let back = spec_cross(out, peer, v.local_node, remote_screen, restore, back_ms);
            &&& routed_to(out, peer)
            &&& out.local_restore == Some((local_screen, restore))
            &&& back.state == ControlState::Local
            &&& back.pressed.is_empty()
            &&& back.local_restore is None
            &&& back.last_peer_activity_ms is None
        }),
{
}

/// Every event sent to a peer carries a fresh sequence number: the numbers a
/// crossing uses are consecutive from the session's next number, none is zero,
/// and the session continues after the last one.
pub proof fn law_sequence_numbers_are_fresh(n: u64)
    requires
        n >= 1,
    ensures
        next_after(n) >= 1,
        next_after(n) != n,
        n < u64::MAX ==> next_after(n) == n + 1,
{
}

/// A timeout, a dropped link or a handoff moves an outgoing session to
/// recovery; recovery only ends through `complete_recovery`, which gives the
/// pointer back at the remembered local position.
pub proof fn law_recovery_releases_the_pointer<P, W>(v: CoreView<P>, peer: NodeId)
    requires
        routed_to(v, peer),
        v.local_restore is Some,
    ensures
        recovering_view(v, peer).state == (ControlState::Recovering { peer }),
        recovery_effects::<P, W>(v, peer, true).last() == (Effect::<P, W>::ReleasePointer {
            screen: v.local_restore.unwrap().0,
            restore_position: v.local_restore.unwrap().1,
        }),
        recovery_effects::<P, W>(v, peer, true)[0] == (Effect::<P, W>::PeerTimedOut { peer }),
        recovery_effects::<P, W>(v, peer, false).len() == 1,
{
}

pub const LOCAL_TAKEOVER_ACK_TIMEOUT_MS: u64 = 1500;

/// A request to take control back from the peer, waiting for the peer's
/// acknowledgement: it is bound to the peer's session and gives up after a
/// timeout.
#[derive(Debug, Clone, Copy, PartialEq, Eq)]
pub struct TakeoverRequest {
    pub pending: Option<(u64, u64)>,
}

impl TakeoverRequest {
    pub fn new() -> (request: TakeoverRequest)
        ensures
            request.pending is None,
    {
        TakeoverRequest { pending: None }
    }

    /// A takeover of the session `owner_session_id` was requested at `now_ms`.
    pub fn mark_requested(&mut self, owner_session_id: u64, now_ms: u64)
        ensures
            final(self).pending == Some((owner_session_id, now_ms)),
    {
        self.pending = Some((owner_session_id, now_ms));
    }

    /// An acknowledgement counts only for the session the request was made to;
    /// it ends the request.
    pub fn accept_ack(&mut self, owner_session_id: u64) -> (accepted: bool)
        ensures
            accepted == (old(self).pending matches Some((s, _)) && s == owner_session_id),
            accepted ==> final(self).pending is None,
            !accepted ==> final(self).pending == old(self).pending,
    {
        match self.pending {
            Some((pending, _)) => {
                if pending == owner_session_id {
                    self.pending = None;
                    true
                } else {
                    false
                }
            },
            None => false,
        }
    }

    /// The session whose acknowledgement is overdue at `now_ms`, if any.
    pub fn timed_out(&self, now_ms: u64) -> (overdue: Option<u64>)
        ensures
            overdue == match self.pending {
                Some((session, requested_at)) => if (if now_ms >= requested_at {
                    now_ms - requested_at
                } else {
                    0
                }) >= LOCAL_TAKEOVER_ACK_TIMEOUT_MS {
                    Some(session)
                } else {
                    None::<u64>
                },
                None => None::<u64>,
            },
    {
        match self.pending {
            Some((session, requested_at)) => {
                let waited = if now_ms >= requested_at {
                    now_ms - requested_at
                } else {
                    0
                };
                if waited >= LOCAL_TAKEOVER_ACK_TIMEOUT_MS {
                    Some(session)
                } else {
                    None
                }
            },
            None => None,
        }
    }
}

} // verus!
