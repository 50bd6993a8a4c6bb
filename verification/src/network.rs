//! Decisions of the peer link that do not depend on the transport: heartbeat
//! freshness, the mouse send interval, coalescing of outgoing moves, ordering of
//! incoming moves, reconnect back-off, and session IDs.
use std::collections::VecDeque;
use vstd::prelude::*;

verus! {

#[derive(Clone, Copy, Debug, PartialEq, Eq, Structural)]
pub enum HeartbeatMode {
    Reliable,
    Datagram,
}

impl HeartbeatMode {
    /// The heartbeat mode for a peer link: datagrams where the link supports
    /// them.
    pub fn for_peer(supports_heartbeat_datagrams: bool) -> (mode: HeartbeatMode)
        ensures
            mode == if supports_heartbeat_datagrams {
                HeartbeatMode::Datagram
            } else {
                HeartbeatMode::Reliable
            },
    {
        if supports_heartbeat_datagrams {
            HeartbeatMode::Datagram
        } else {
            HeartbeatMode::Reliable
        }
    }

    /// Milliseconds between heartbeats: six independent probes fit the 1.5 s
    /// recovery window.
    pub fn interval_ms(self) -> (ms: u64)
        ensures
            ms == if self == HeartbeatMode::Datagram {
                250u64
            } else {
                500u64
            },
    {
        if self == HeartbeatMode::Datagram {
            250
        } else {
            500
        }
    }

    pub fn name(self) -> (name: &'static str)
        ensures
            name@ == match self {
                HeartbeatMode::Reliable => "reliable"@,
                HeartbeatMode::Datagram => "datagram"@,
            },
    {
        match self {
            HeartbeatMode::Reliable => "reliable",
            HeartbeatMode::Datagram => "datagram",
        }
    }
}

/// Remembers the newest heartbeat so that a delayed, duplicated or foreign one
/// cannot refresh the link's liveness.
#[derive(Debug, Clone, Copy, PartialEq, Eq)]
pub struct HeartbeatTracker {
    pub latest: Option<(u64, u64)>,
}

impl Default for HeartbeatTracker {
    fn default() -> (tracker: HeartbeatTracker)
        ensures
            tracker.latest is None,
    {
        HeartbeatTracker { latest: None }
    }
}

/// Whether a heartbeat is fresh after `latest`: it belongs to the session
/// already seen and is strictly newer (any heartbeat is fresh at first).
pub open spec fn heartbeat_is_fresh(latest: Option<(u64, u64)>, session: u64, ms: u64) -> bool {
    match latest {
        None => true,
        Some((previous_session, previous_ms)) => session == previous_session && ms
            > previous_ms,
    }
}

impl HeartbeatTracker {
    /// Accepts a fresh heartbeat and remembers it; refuses any other.
    pub fn accept(&mut self, session: u64, monotonic_ms: u64) -> (fresh: bool)
        ensures
            fresh == heartbeat_is_fresh(old(self).latest, session, monotonic_ms),
            fresh ==> final(self).latest == Some((session, monotonic_ms)),
            !fresh ==> final(self).latest == old(self).latest,
    {
        match self.latest {
            Some((previous_session, previous_ms)) => {
                if session != previous_session || monotonic_ms <= previous_ms {
                    return false;
                }
            },
            None => {},
        }
        self.latest = Some((session, monotonic_ms));
        true
    }
}

/// Once a heartbeat was accepted, the tracker only ever accepts heartbeats of
/// the same session, each newer than the last.
pub proof fn law_heartbeats_only_move_forward(
    latest: (u64, u64),
    session: u64,
    ms: u64,
)
    ensures
        heartbeat_is_fresh(Some(latest), session, ms) ==> session == latest.0 && ms > latest.1,
        !heartbeat_is_fresh(Some(latest), latest.0, latest.1),
{
}

/// The mouse send interval for a measured round-trip time (in nanoseconds):
/// 4 ms up to 25 ms, 6 ms up to 75 ms, 8 ms up to 150 ms, 12 ms beyond.
pub fn adaptive_mouse_interval(rtt_nanos: u128) -> (interval_ms: u64)
    ensures
        interval_ms == if rtt_nanos <= 25_000_000 {
            4u64
        } else if rtt_nanos <= 75_000_000 {
            6u64
        } else if rtt_nanos <= 150_000_000 {
            8u64
        } else {
            12u64
        },
{
    if rtt_nanos <= 25_000_000 {
        4
    } else if rtt_nanos <= 75_000_000 {
        6
    } else if rtt_nanos <= 150_000_000 {
        8
    } else {
        12
    }
}

/// A slower link never gets a shorter send interval.
pub proof fn law_interval_grows_with_rtt(a: u128, b: u128)
    requires
        a <= b,
    ensures
        (if a <= 25_000_000 {
            4u64
        } else if a <= 75_000_000 {
            6u64
        } else if a <= 150_000_000 {
            8u64
        } else {
            12u64
        }) <= (if b <= 25_000_000 {
            4u64
        } else if b <= 75_000_000 {
            6u64
        } else if b <= 150_000_000 {
            8u64
        } else {
            12u64
        }),
{
}

/// Keeps only the latest outgoing absolute move, counting the ones it replaced.
pub struct MoveCoalescer<M> {
    pending: Option<M>,
    coalesced: u64,
}

impl<M> MoveCoalescer<M> {
    pub closed spec fn pending_move(&self) -> Option<M> {
        self.pending
    }

    pub closed spec fn coalesced_count(&self) -> u64 {
        self.coalesced
    }

    pub fn new() -> (coalescer: Self)
        ensures
            coalescer.pending_move() is None,
            coalescer.coalesced_count() == 0,
    {
        MoveCoalescer { pending: None, coalesced: 0 }
    }

    /// Holds `message`, replacing (and counting, saturating) a move not yet
    /// sent.
    pub fn push(&mut self, message: M)
        ensures
            final(self).pending_move() == Some(message),
            final(self).coalesced_count() == if old(self).pending_move() is Some {
                if old(self).coalesced_count() == u64::MAX {
                    u64::MAX
                } else {
                    (old(self).coalesced_count() + 1) as u64
                }
            } else {
                old(self).coalesced_count()
            },
    {
        let had_pending = self.pending.is_some();
        self.pending = Some(message);
        if had_pending {
            self.coalesced = self.coalesced.saturating_add(1);
        }
    }

    /// The move to send, if any; it is no longer held.
    pub fn take(&mut self) -> (message: Option<M>)
        ensures
            message == old(self).pending_move(),
            final(self).pending_move() is None,
            final(self).coalesced_count() == old(self).coalesced_count(),
    {
        let message = self.pending.take();
        message
    }

    /// The number of replaced moves since the last call.
    pub fn take_coalesced(&mut self) -> (count: u64)
        ensures
            count == old(self).coalesced_count(),
            final(self).coalesced_count() == 0,
            final(self).pending_move() == old(self).pending_move(),
    {
        let count = self.coalesced;
        self.coalesced = 0;
        count
    }
}

/// The counters an incoming-move buffer reports.
#[derive(Debug, Clone, Copy, PartialEq, Eq)]
pub struct IncomingMoveCounts {
    pub received: u64,
    pub stale: u64,
    pub superseded: u64,
}

/// A short buffer of incoming movement datagrams, in order of their sequence
/// numbers. A datagram that is not newer than everything already buffered or
/// forwarded is stale and dropped, so a late packet never reverses newer motion;
/// when the buffer is full the oldest move is superseded.
pub struct IncomingMoveBuffer<M> {
    pending: VecDeque<(u64, M)>,
    last_forwarded_sequence: u64,
    received: u64,
    stale: u64,
    superseded: u64,
    capacity: usize,
}

/// The sequence numbers of buffered moves.
pub open spec fn sequences<M>(pending: Seq<(u64, M)>) -> Seq<u64> {
    Seq::new(pending.len(), |i: int| pending[i].0)
}

impl<M> IncomingMoveBuffer<M> {
    pub closed spec fn buffered(&self) -> Seq<(u64, M)> {
        self.pending@
    }

    pub closed spec fn last_forwarded(&self) -> u64 {
        self.last_forwarded_sequence
    }

    pub closed spec fn limit(&self) -> nat {
        self.capacity as nat
    }

    pub closed spec fn counts(&self) -> IncomingMoveCounts {
        IncomingMoveCounts {
            received: self.received,
            stale: self.stale,
            superseded: self.superseded,
        }
    }

    /// Buffered moves are strictly ordered, all newer than the last forwarded
    /// one, and never more than the capacity.
    pub closed spec fn well_formed(&self) -> bool {
        &&& 1 <= self.capacity
        &&& self.pending@.len() <= self.capacity
        &&& forall|i: int, j: int|
            0 <= i < j < self.pending@.len() ==> self.pending@[i].0 < self.pending@[j].0
        &&& forall|i: int|
            0 <= i < self.pending@.len() ==> self.last_forwarded_sequence < self.pending@[i].0
    }

    pub fn new(capacity: usize) -> (buffer: Self)
        requires
            capacity >= 1,
        ensures
            buffer.well_formed(),
            buffer.buffered().len() == 0,
            buffer.last_forwarded() == 0,
            buffer.limit() == capacity,
            buffer.counts() == (IncomingMoveCounts { received: 0, stale: 0, superseded: 0 }),
    {
        IncomingMoveBuffer {
            pending: VecDeque::new(),
            last_forwarded_sequence: 0,
            received: 0,
            stale: 0,
            superseded: 0,
            capacity,
        }
    }

    /// Receives the movement datagram with `sequence`. Returns whether it was
    /// buffered (false: it was stale and dropped).
    pub fn push(&mut self, sequence: u64, message: M) -> (buffered: bool)
        requires
            old(self).well_formed(),
        ensures
            final(self).well_formed(),
            final(self).limit() == old(self).limit(),
            final(self).last_forwarded() == old(self).last_forwarded(),
            final(self).counts().received == sat_inc(old(self).counts().received),
            buffered == (sequence > old(self).last_forwarded() && (old(self).buffered().len()
                == 0 || sequence > old(self).buffered().last().0)),
            !buffered ==> final(self).buffered() == old(self).buffered() && final(self).counts().stale
                == sat_inc(old(self).counts().stale) && final(self).counts().superseded == old(self).counts().superseded,
            buffered && old(self).buffered().len() < old(self).limit() ==> final(self).buffered()
                == old(self).buffered().push((sequence, message)) && final(self).counts().superseded
                == old(self).counts().superseded,
            buffered && old(self).buffered().len() == old(self).limit() ==> final(self).buffered()
                == old(self).buffered().drop_first().push((sequence, message)) && final(self).counts().superseded == sat_inc(old(self).counts().superseded),
            buffered ==> final(self).counts().stale == old(self).counts().stale,
    {
        self.received = self.received.saturating_add(1);
        let newest: u64 = if self.pending.len() == 0 {
            0
        } else {
            self.pending[self.pending.len() - 1].0
        };
        if sequence <= self.last_forwarded_sequence || sequence <= newest {
            self.stale = self.stale.saturating_add(1);
            return false;
        }
        let ghost before = self.pending@;
        if self.pending.len() == self.capacity {
            let _ = self.pending.pop_front();
            self.superseded = self.superseded.saturating_add(1);
            assert(self.pending@ =~= before.drop_first());
        }
        self.pending.push_back((sequence, message));
        true
    }

    /// The oldest buffered move, which becomes the last forwarded one.
    pub fn take(&mut self) -> (next: Option<(u64, M)>)
        requires
            old(self).well_formed(),
        ensures
            final(self).well_formed(),
            final(self).limit() == old(self).limit(),
            final(self).counts() == old(self).counts(),
            old(self).buffered().len() == 0 ==> next is None && final(self).buffered() == old(self).buffered() && final(self).last_forwarded() == old(self).last_forwarded(),
            old(self).buffered().len() > 0 ==> next == Some(old(self).buffered()[0]) && final(self).buffered() == old(self).buffered().drop_first() && final(self).last_forwarded()
                == old(self).buffered()[0].0 && final(self).last_forwarded() > old(self).last_forwarded(),
    {
        if self.pending.len() == 0 {
            return None;
        }
        let ghost before = self.pending@;
        match self.pending.pop_front() {
            Some(first) => {
                assert(self.pending@ =~= before.drop_first());
                self.last_forwarded_sequence = first.0;
                Some(first)
            },
            None => None,
        }
    }

    /// The counters since the last call; they restart from zero.
    pub fn take_counts(&mut self) -> (counts: IncomingMoveCounts)
        requires
            old(self).well_formed(),
        ensures
            final(self).well_formed(),
            counts == old(self).counts(),
            final(self).counts() == (IncomingMoveCounts { received: 0, stale: 0, superseded: 0 }),
            final(self).buffered() == old(self).buffered(),
            final(self).last_forwarded() == old(self).last_forwarded(),
            final(self).limit() == old(self).limit(),
    {
        let counts = IncomingMoveCounts {
            received: self.received,
            stale: self.stale,
            superseded: self.superseded,
        };
        self.received = 0;
        self.stale = 0;
        self.superseded = 0;
        counts
    }
}

/// One more, saturating at `u64::MAX`.
pub open spec fn sat_inc(n: u64) -> u64 {
    if n == u64::MAX {
        u64::MAX
    } else {
        (n + 1) as u64
    }
}

/// Forwarded moves only move forward: whatever is taken next is newer than
/// everything forwarded before, and a move that is not newer than the last one
/// forwarded is never buffered.
pub proof fn law_forwarded_moves_never_go_back<M>(buffer: IncomingMoveBuffer<M>, sequence: u64)
    requires
        buffer.well_formed(),
    ensures
        forall|i: int|
            0 <= i < buffer.buffered().len() ==> buffer.buffered()[i].0 > buffer.last_forwarded(),
        sequence <= buffer.last_forwarded() ==> !(sequence > buffer.last_forwarded() && (
        buffer.buffered().len() == 0 || sequence > buffer.buffered().last().0)),
{
    reveal_well_formed(buffer);
}

proof fn reveal_well_formed<M>(buffer: IncomingMoveBuffer<M>)
    requires
        buffer.well_formed(),
    ensures
        forall|i: int|
            0 <= i < buffer.buffered().len() ==> buffer.buffered()[i].0 > buffer.last_forwarded(),
{
}

pub const RECONNECT_INITIAL_DELAY_MS: u64 = 1000;
pub const RECONNECT_MAX_DELAY_MS: u64 = 5000;

/// Doubling delays between reconnect attempts, capped at five seconds.
#[derive(Debug, Clone, Copy, PartialEq, Eq)]
pub struct ReconnectBackoff {
    pub next_ms: u64,
}

impl Default for ReconnectBackoff {
    fn default() -> (backoff: ReconnectBackoff)
        ensures
            backoff.next_ms == RECONNECT_INITIAL_DELAY_MS,
    {
        ReconnectBackoff { next_ms: RECONNECT_INITIAL_DELAY_MS }
    }
}

impl ReconnectBackoff {
    /// The delay before the next attempt; the one after it is twice as long
    /// (saturating), at most five seconds.
    pub fn next_delay(&mut self) -> (delay_ms: u64)
        ensures
            delay_ms == old(self).next_ms,
            final(self).next_ms == if 2 * old(self).next_ms as int >= RECONNECT_MAX_DELAY_MS {
                RECONNECT_MAX_DELAY_MS
            } else {
                (2 * old(self).next_ms) as u64
            },
    {
        let delay = self.next_ms;
        self.next_ms = if self.next_ms >= RECONNECT_MAX_DELAY_MS / 2 + RECONNECT_MAX_DELAY_MS % 2 {
            RECONNECT_MAX_DELAY_MS
        } else {
            self.next_ms * 2
        };
        delay
    }

    /// Starts over from one second.
    pub fn reset(&mut self)
        ensures
            final(self).next_ms == RECONNECT_INITIAL_DELAY_MS,
    {
        self.next_ms = RECONNECT_INITIAL_DELAY_MS;
    }
}

/// After the first attempt every delay lies between one and five seconds.
pub proof fn law_backoff_is_bounded(next_ms: u64)
    requires
        RECONNECT_INITIAL_DELAY_MS <= next_ms <= RECONNECT_MAX_DELAY_MS,
    ensures
        ({
            let following = if 2 * next_ms as int >= RECONNECT_MAX_DELAY_MS {
                RECONNECT_MAX_DELAY_MS
            } else {
                (2 * next_ms) as u64
            };
            RECONNECT_INITIAL_DELAY_MS <= following <= RECONNECT_MAX_DELAY_MS && following
                >= next_ms
        }),
{
}

/// A session ID from the wall clock (nanoseconds since the Unix epoch) and the
/// node ID: the low 64 bits of `timestamp ^ node ^ (node >> 64)`, never zero.
pub fn new_session_id(node: u128, timestamp_nanos: u128) -> (id: u64)
    ensures
        id == if (timestamp_nanos ^ node ^ (node >> 64u128)) as u64 == 0 {
            1u64
        } else {
            (timestamp_nanos ^ node ^ (node >> 64u128)) as u64
        },
        id != 0,
{
    let mixed = timestamp_nanos ^ node ^ (node >> 64u128);
    let low = (mixed & 0xffff_ffff_ffff_ffffu128) as u64;
    assert(low == mixed as u64) by (bit_vector)
        requires
            low == (mixed & 0xffff_ffff_ffff_ffffu128) as u64,
    ;
    if low == 0 {
        1
    } else {
        low
    }
}

} // verus!
