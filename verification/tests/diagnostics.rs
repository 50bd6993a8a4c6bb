use edgemouse::diagnostics::{LoopProgress, NetworkProgress, SendKind};

const START: u64 = 10_000;

#[test]
fn datagram_heartbeat_does_not_hide_a_stalled_reliable_stream() {
    let start = START;
    let mut network = NetworkProgress::default();
    network.message(None, start);
    let now = start + 1600;
    network.heartbeat(1750, now);
    let summary = network.summary(now);
    assert!(summary.contains("network_heartbeat_age_ms=0"));
    assert!(summary.contains("reliable_rx_age_ms=1600"));
}

#[test]
fn fresh_movements_do_not_hide_a_stale_heartbeat_or_a_blocked_write() {
    let start = START;
    let mut network = NetworkProgress::default();
    network.message(Some(500), start);
    network.begin_send(SendKind::Heartbeat, start);
    let now = start + 1600;
    network.movement(now);
    let summary = network.summary(now);
    assert!(summary.contains("network_heartbeat_age_ms=1600"));
    assert!(summary.contains("movement_rx_age_ms=0"));
    assert!(summary.contains("pending_send=heartbeat pending_send_age_ms=1600"));
    assert!(summary.contains("heartbeat_queued=0"));
    network.finish_send(now);
    assert!(network.summary(now).contains("heartbeat_queued=1"));
}

#[test]
fn distinguish_network_reception_from_stalled_input_processing() {
    let start = START;
    let mut network = NetworkProgress::default();
    let mut input = LoopProgress::default();
    input.poll(start);
    input.heartbeat(start);
    let now = start + 1600;
    network.message(Some(2000), now);
    assert!(network.summary(now).contains("network_heartbeat_age_ms=0"));
    assert!(input
        .summary("input", now)
        .contains("input_heartbeat_age_ms=1600"));
    input.poll(now);
    assert!(input.summary("input", now).contains("input_max_gap_ms=1600"));
}

#[test]
fn a_fresh_network_summary_names_every_field() {
    let network = NetworkProgress::new();
    assert_eq!(
        network.summary(5),
        "network_poll_age_ms=none network_max_gap_ms=0 network_heartbeats=0 network_heartbeat_age_ms=none heartbeat_queued=0 heartbeat_queued_age_ms=none heartbeat_max_gap_ms=0 peer_monotonic_ms=None reliable_rx_age_ms=none movement_rx_age_ms=none pending_send=none pending_send_age_ms=none udp_rx_at_last_heartbeat=None ack_rx_at_last_heartbeat=None"
    );
    let mut network = NetworkProgress::new();
    network.transport_at_heartbeat = Some((7, 9));
    network.heartbeat(42, 3);
    network.begin_send(SendKind::Control, 1);
    let summary = network.summary(5);
    assert!(summary.contains("peer_monotonic_ms=Some(42)"));
    assert!(summary.contains("pending_send=control pending_send_age_ms=4"));
    assert!(summary.contains("udp_rx_at_last_heartbeat=Some(7) ack_rx_at_last_heartbeat=Some(9)"));
    network.finish_send(5);
    assert!(network.summary(5).contains("heartbeat_queued=0"));
}

#[test]
fn an_earlier_clock_reading_counts_as_no_time() {
    let mut input = LoopProgress::new();
    input.poll(100);
    input.poll(40);
    assert_eq!(input.max_gap_ms, 0);
    assert!(input.summary("input", 10).contains("input_poll_age_ms=0"));
}
