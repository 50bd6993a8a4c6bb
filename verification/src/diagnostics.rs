//! Timing metadata of the connection loops, for diagnostics only: never input
//! events, clipboard contents or credentials. Times are milliseconds of one
//! monotonic clock; observations change no deadline.
use crate::text::{decimal, spec_decimal};
use vstd::prelude::*;

verus! {

/// `now - then`, or 0 when `then` is later.
pub open spec fn elapsed(now: u64, then: u64) -> u64 {
    if now >= then {
        (now - then) as u64
    } else {
        0
    }
}

/// How long ago `then` was, or `none`.
pub open spec fn age_text(now: u64, then: Option<u64>) -> Seq<char> {
    match then {
        Some(t) => spec_decimal(elapsed(now, t) as nat),
        None => "none"@,
    }
}

/// An optional number as the standard library's `Debug` writes it.
pub open spec fn option_text(value: Option<u64>) -> Seq<char> {
    match value {
        Some(n) => "Some("@ + spec_decimal(n as nat) + ")"@,
        None => "None"@,
    }
}

fn age(now: u64, then: Option<u64>) -> (text: String)
    ensures
        text@ == age_text(now, then),
{
    match then {
        Some(t) => decimal(now.saturating_sub(t)),
        None => "none".to_owned(),
    }
}

fn option(value: Option<u64>) -> (text: String)
    ensures
        text@ == option_text(value),
{
    match value {
        Some(n) => {
            let mut text = "Some(".to_owned();
            text.append(decimal(n).as_str());
            text.append(")");
            text
        },
        None => "None".to_owned(),
    }
}

fn push(text: &mut String, piece: &str)
    ensures
        final(text)@ == old(text)@ + piece@,
{
    text.append(piece);
}

/// The progress of one loop: when it last polled, the longest gap between
/// polls, and the heartbeats it handled.
#[derive(Debug, Clone, Copy, PartialEq, Eq, Default)]
pub struct LoopProgress {
    pub last_poll: Option<u64>,
    pub max_gap_ms: u64,
    pub heartbeats: u64,
    pub last_heartbeat: Option<u64>,
}

pub open spec fn loop_summary(p: LoopProgress, label: Seq<char>, now: u64) -> Seq<char> {
    label + "_poll_age_ms="@ + age_text(now, p.last_poll) + " "@ + label + "_max_gap_ms="@
        + spec_decimal(p.max_gap_ms as nat) + " "@ + label + "_heartbeats="@ + spec_decimal(
        p.heartbeats as nat,
    ) + " "@ + label + "_heartbeat_age_ms="@ + age_text(now, p.last_heartbeat)
}

impl LoopProgress {
    pub fn new() -> (progress: LoopProgress)
        ensures
            progress == (LoopProgress {
                last_poll: None,
                max_gap_ms: 0,
                heartbeats: 0,
                last_heartbeat: None,
            }),
    {
        LoopProgress { last_poll: None, max_gap_ms: 0, heartbeats: 0, last_heartbeat: None }
    }

    /// The loop polled at `now`.
    pub fn poll(&mut self, now: u64)
        ensures
            final(self).last_poll == Some(now),
            final(self).max_gap_ms == match old(self).last_poll {
                Some(previous) => if elapsed(now, previous) > old(self).max_gap_ms {
                    elapsed(now, previous)
                } else {
                    old(self).max_gap_ms
                },
                None => old(self).max_gap_ms,
            },
            final(self).heartbeats == old(self).heartbeats,
            final(self).last_heartbeat == old(self).last_heartbeat,
    {
        if let Some(previous) = self.last_poll {
            let gap = now.saturating_sub(previous);
            if gap > self.max_gap_ms {
                self.max_gap_ms = gap;
            }
        }
        self.last_poll = Some(now);
    }

    /// The loop handled a heartbeat at `now`.
    pub fn heartbeat(&mut self, now: u64)
        ensures
            final(self).heartbeats == if old(self).heartbeats == u64::MAX {
                u64::MAX
            } else {
                (old(self).heartbeats + 1) as u64
            },
            final(self).last_heartbeat == Some(now),
            final(self).last_poll == old(self).last_poll,
            final(self).max_gap_ms == old(self).max_gap_ms,
    {
        self.heartbeats = self.heartbeats.saturating_add(1);
        self.last_heartbeat = Some(now);
    }

    pub fn summary(&self, label: &str, now: u64) -> (text: String)
        ensures
            text@ == loop_summary(*self, label@, now),
    {
        let mut text = label.to_owned();
        push(&mut text, "_poll_age_ms=");
        push(&mut text, age(now, self.last_poll).as_str());
        push(&mut text, " ");
        push(&mut text, label);
        push(&mut text, "_max_gap_ms=");
        push(&mut text, decimal(self.max_gap_ms).as_str());
        push(&mut text, " ");
        push(&mut text, label);
        push(&mut text, "_heartbeats=");
        push(&mut text, decimal(self.heartbeats).as_str());
        push(&mut text, " ");
        push(&mut text, label);
        push(&mut text, "_heartbeat_age_ms=");
        push(&mut text, age(now, self.last_heartbeat).as_str());
        text
    }
}

/// What the network loop was sending.
#[derive(Debug, Clone, Copy, PartialEq, Eq, Structural)]
pub enum SendKind {
    Heartbeat,
    Control,
}

pub open spec fn send_kind_text(kind: SendKind) -> Seq<char> {
    match kind {
        SendKind::Heartbeat => "heartbeat"@,
        SendKind::Control => "control"@,
    }
}

impl SendKind {
    pub fn name(self) -> (name: &'static str)
        ensures
            name@ == send_kind_text(self),
    {
        match self {
            SendKind::Heartbeat => "heartbeat",
            SendKind::Control => "control",
        }
    }
}

/// The progress of the network loop: what it received and when, and the
/// send it is blocked in, if any.
#[derive(Debug, Clone, Copy, PartialEq, Eq, Default)]
pub struct NetworkProgress {
    pub receive: LoopProgress,
    pub queued_heartbeats: u64,
    pub last_queued_heartbeat: Option<u64>,
    pub send_started: Option<(SendKind, u64)>,
    pub last_message: Option<u64>,
    pub last_movement: Option<u64>,
    pub heartbeat_max_gap_ms: u64,
    pub peer_monotonic_ms: Option<u64>,
    pub transport_at_heartbeat: Option<(u64, u64)>,
}

pub open spec fn first_of(pair: Option<(u64, u64)>) -> Option<u64> {
    match pair {
        Some((a, _)) => Some(a),
        None => None,
    }
}

pub open spec fn second_of(pair: Option<(u64, u64)>) -> Option<u64> {
    match pair {
        Some((_, b)) => Some(b),
        None => None,
    }
}

pub open spec fn network_summary(p: NetworkProgress, now: u64) -> Seq<char> {
    let (pending, started) = match p.send_started {
        Some((kind, at)) => (send_kind_text(kind), Some(at)),
        None => ("none"@, None),
    };
    loop_summary(p.receive, "network"@, now) + " heartbeat_queued="@ + spec_decimal(
        p.queued_heartbeats as nat,
    ) + " heartbeat_queued_age_ms="@ + age_text(now, p.last_queued_heartbeat)
        + " heartbeat_max_gap_ms="@ + spec_decimal(p.heartbeat_max_gap_ms as nat)
        + " peer_monotonic_ms="@ + option_text(p.peer_monotonic_ms) + " reliable_rx_age_ms="@
        + age_text(now, p.last_message) + " movement_rx_age_ms="@ + age_text(now, p.last_movement)
        + " pending_send="@ + pending + " pending_send_age_ms="@ + age_text(now, started)
        + " udp_rx_at_last_heartbeat="@ + option_text(first_of(p.transport_at_heartbeat))
        + " ack_rx_at_last_heartbeat="@ + option_text(second_of(p.transport_at_heartbeat))
}

impl NetworkProgress {
    pub fn new() -> (progress: NetworkProgress)
        ensures
            progress == (NetworkProgress {
                receive: LoopProgress {
                    last_poll: None,
                    max_gap_ms: 0,
                    heartbeats: 0,
                    last_heartbeat: None,
                },
                queued_heartbeats: 0,
                last_queued_heartbeat: None,
                send_started: None,
                last_message: None,
                last_movement: None,
                heartbeat_max_gap_ms: 0,
                peer_monotonic_ms: None,
                transport_at_heartbeat: None,
            }),
    {
        NetworkProgress {
            receive: LoopProgress::new(),
            queued_heartbeats: 0,
            last_queued_heartbeat: None,
            send_started: None,
            last_message: None,
            last_movement: None,
            heartbeat_max_gap_ms: 0,
            peer_monotonic_ms: None,
            transport_at_heartbeat: None,
        }
    }

    pub fn begin_send(&mut self, kind: SendKind, now: u64)
        ensures
            *final(self) == (NetworkProgress { send_started: Some((kind, now)), ..*old(self) }),
    {
        self.send_started = Some((kind, now));
    }

    /// The send that began last is done; a heartbeat counts as queued.
    pub fn finish_send(&mut self, now: u64)
        ensures
            old(self).send_started matches Some((SendKind::Heartbeat, _)) ==> {
                &&& final(self).queued_heartbeats == if old(self).queued_heartbeats == u64::MAX {
                    u64::MAX
                } else {
                    (old(self).queued_heartbeats + 1) as u64
                }
                &&& final(self).last_queued_heartbeat == Some(now)
            },
            !(old(self).send_started matches Some((SendKind::Heartbeat, _))) ==> {
                &&& final(self).queued_heartbeats == old(self).queued_heartbeats
                &&& final(self).last_queued_heartbeat == old(self).last_queued_heartbeat
            },
            *final(self) == (NetworkProgress {
                send_started: None,
                queued_heartbeats: final(self).queued_heartbeats,
                last_queued_heartbeat: final(self).last_queued_heartbeat,
                ..*old(self)
            }),
    {
        if let Some((SendKind::Heartbeat, _)) = self.send_started {
            self.queued_heartbeats = self.queued_heartbeats.saturating_add(1);
            self.last_queued_heartbeat = Some(now);
        }
        self.send_started = None;
    }

    /// A reliable message arrived at `now`, carrying the peer's monotonic
    /// clock when it was a heartbeat.
    pub fn message(&mut self, heartbeat_ms: Option<u64>, now: u64)
        ensures
            final(self).last_message == Some(now),
            heartbeat_ms is None ==> *final(self) == (NetworkProgress {
                last_message: Some(now),
                ..*old(self)
            }),
            heartbeat_ms matches Some(ms) ==> *final(self) == heartbeat_after(
                NetworkProgress { last_message: Some(now), ..*old(self) },
                ms,
                now,
            ),
    {
        self.last_message = Some(now);
        if let Some(monotonic_ms) = heartbeat_ms {
            self.heartbeat(monotonic_ms, now);
        }
    }

    /// A heartbeat carrying the peer's monotonic clock arrived at `now`.
    pub fn heartbeat(&mut self, monotonic_ms: u64, now: u64)
        ensures
            *final(self) == heartbeat_after(*old(self), monotonic_ms, now),
    {
        if let Some(previous) = self.receive.last_heartbeat {
            let gap = now.saturating_sub(previous);
            if gap > self.heartbeat_max_gap_ms {
                self.heartbeat_max_gap_ms = gap;
            }
        }
        self.peer_monotonic_ms = Some(monotonic_ms);
        self.receive.heartbeat(now);
    }

    /// Movement arrived at `now`.
    pub fn movement(&mut self, now: u64)
        ensures
            *final(self) == (NetworkProgress { last_movement: Some(now), ..*old(self) }),
    {
        self.last_movement = Some(now);
    }

    pub fn summary(&self, now: u64) -> (text: String)
        ensures
            text@ == network_summary(*self, now),
    {
        let mut text = self.receive.summary("network", now);
        push(&mut text, " heartbeat_queued=");
        push(&mut text, decimal(self.queued_heartbeats).as_str());
        push(&mut text, " heartbeat_queued_age_ms=");
        push(&mut text, age(now, self.last_queued_heartbeat).as_str());
        push(&mut text, " heartbeat_max_gap_ms=");
        push(&mut text, decimal(self.heartbeat_max_gap_ms).as_str());
        push(&mut text, " peer_monotonic_ms=");
        push(&mut text, option(self.peer_monotonic_ms).as_str());
        push(&mut text, " reliable_rx_age_ms=");
        push(&mut text, age(now, self.last_message).as_str());
        push(&mut text, " movement_rx_age_ms=");
        push(&mut text, age(now, self.last_movement).as_str());
        push(&mut text, " pending_send=");
        let (pending, started) = match self.send_started {
            Some((kind, at)) => (kind.name(), Some(at)),
            None => ("none", None),
        };
        push(&mut text, pending);
        push(&mut text, " pending_send_age_ms=");
        push(&mut text, age(now, started).as_str());
        push(&mut text, " udp_rx_at_last_heartbeat=");
        let udp = match self.transport_at_heartbeat {
            Some((udp, _)) => Some(udp),
            None => None,
        };
        push(&mut text, option(udp).as_str());
        push(&mut text, " ack_rx_at_last_heartbeat=");
        let ack = match self.transport_at_heartbeat {
            Some((_, ack)) => Some(ack),
            None => None,
        };
        push(&mut text, option(ack).as_str());
        text
    }
}

/// The progress after a heartbeat carrying `monotonic_ms` arrived at `now`.
pub open spec fn heartbeat_after(p: NetworkProgress, monotonic_ms: u64, now: u64) -> NetworkProgress {
    let gap_max = match p.receive.last_heartbeat {
        Some(previous) => if elapsed(now, previous) > p.heartbeat_max_gap_ms {
            elapsed(now, previous)
        } else {
            p.heartbeat_max_gap_ms
        },
        None => p.heartbeat_max_gap_ms,
    };
    NetworkProgress {
        heartbeat_max_gap_ms: gap_max,
        peer_monotonic_ms: Some(monotonic_ms),
        receive: LoopProgress {
            heartbeats: if p.receive.heartbeats == u64::MAX {
                u64::MAX
            } else {
                (p.receive.heartbeats + 1) as u64
            },
            last_heartbeat: Some(now),
            ..p.receive
        },
        ..p
    }
}

} // verus!
