use edgemouse::network::{
    adaptive_mouse_interval, new_session_id, HeartbeatMode, HeartbeatTracker, IncomingMoveBuffer,
    MoveCoalescer, ReconnectBackoff,
};
use std::time::Duration;

#[test]
fn delayed_duplicate_or_foreign_heartbeats_cannot_refresh_liveness() {
    let mut tracker = HeartbeatTracker::default();
    assert!(tracker.accept(7, 0));
    assert!(tracker.accept(7, 750)); // Intermediate probes may be lost.
    assert!(!tracker.accept(7, 500)); // Reordered datagram / delayed stream.
    assert!(!tracker.accept(7, 750));
    assert!(!tracker.accept(8, 1000));
    assert!(tracker.accept(7, 1000));
}

fn interval(rtt: Duration) -> Duration {
    Duration::from_millis(adaptive_mouse_interval(rtt.as_nanos()))
}

#[test]
fn mouse_send_interval_adapts_to_rtt() {
    assert_eq!(
        interval(Duration::from_millis(10)),
        Duration::from_millis(4)
    );
    assert_eq!(
        interval(Duration::from_millis(50)),
        Duration::from_millis(6)
    );
    assert_eq!(
        interval(Duration::from_millis(100)),
        Duration::from_millis(8)
    );
    assert_eq!(
        interval(Duration::from_millis(200)),
        Duration::from_millis(12)
    );
}

#[test]
fn interval_boundaries_are_inclusive() {
    assert_eq!(interval(Duration::from_millis(25)), Duration::from_millis(4));
    assert_eq!(interval(Duration::from_nanos(25_000_001)), Duration::from_millis(6));
    assert_eq!(interval(Duration::from_millis(150)), Duration::from_millis(8));
}

#[test]
fn reconnect_backoff_is_bounded_and_resettable() {
    let mut backoff = ReconnectBackoff::default();
    let mut next = || Duration::from_millis(backoff.next_delay());
    assert_eq!(next(), Duration::from_secs(1));
    assert_eq!(next(), Duration::from_secs(2));
    assert_eq!(next(), Duration::from_secs(4));
    assert_eq!(next(), Duration::from_secs(5));
    assert_eq!(next(), Duration::from_secs(5));
    backoff.reset();
    assert_eq!(Duration::from_millis(backoff.next_delay()), Duration::from_secs(1));
}

#[test]
fn heartbeat_modes_have_intervals_and_names() {
    assert_eq!(HeartbeatMode::for_peer(true), HeartbeatMode::Datagram);
    assert_eq!(HeartbeatMode::for_peer(false), HeartbeatMode::Reliable);
    assert_eq!(HeartbeatMode::Datagram.interval_ms(), 250);
    assert_eq!(HeartbeatMode::Reliable.interval_ms(), 500);
    assert_eq!(HeartbeatMode::Datagram.name(), "datagram");
}

#[test]
fn coalescer_keeps_only_the_latest_absolute_move() {
    let mut coalescer = MoveCoalescer::new();
    coalescer.push((1_u64, 10.0_f64));
    coalescer.push((2_u64, 20.0_f64));

    assert_eq!(coalescer.take(), Some((2, 20.0)));
    assert_eq!(coalescer.take_coalesced(), 1);
    assert_eq!(coalescer.take_coalesced(), 0);
    assert_eq!(coalescer.take(), None);
}

#[test]
fn incoming_coalescer_never_lets_a_late_packet_reverse_newer_motion() {
    for capacity in [1_usize, 32] {
        let mut buffer = IncomingMoveBuffer::new(capacity);
        assert!(buffer.push(10, 120.0_f64));
        assert!(buffer.push(11, 110.0));
        assert!(!buffer.push(9, 130.0));
        if capacity > 1 {
            assert_eq!(buffer.take(), Some((10, 120.0)));
        }
        assert_eq!(buffer.take(), Some((11, 110.0)));

        assert!(!buffer.push(10, 120.0));
        assert!(buffer.take().is_none());
        let counts = buffer.take_counts();
        assert_eq!(counts.received, 4);
        assert_eq!(counts.stale, 2);
        assert_eq!(counts.superseded, u64::from(capacity == 1));
        let reset = buffer.take_counts();
        assert_eq!(reset.received, 0);
        assert_eq!(reset.stale, 0);
        assert_eq!(reset.superseded, 0);
    }
}

#[test]
fn incoming_buffer_keeps_a_short_ordered_history() {
    let capacity = 32_usize;
    let mut buffer = IncomingMoveBuffer::new(capacity);
    for sequence in 1..=u64::try_from(capacity + 2).unwrap() {
        buffer.push(sequence, sequence * 10);
    }
    let first = buffer.take().expect("the buffer should contain movement");
    assert_eq!(first, (3, 30));
    assert_eq!(buffer.take_counts().superseded, 2);
}

#[test]
fn session_ids_mix_the_clock_and_the_node_and_are_never_zero() {
    assert_eq!(new_session_id(0, 0), 1);
    assert_eq!(new_session_id(0, 5), 5);
    assert_eq!(new_session_id(1 << 64, 0), 1);
    assert_eq!(new_session_id(3, 3), 1);
    assert_eq!(new_session_id(0xff, 0x0f), 0xf0);
}
