use edgemouse::control::{
    complete_layout_update, decode_request, decode_response, encode_layout_request, encode_request,
    encode_response, encode_scroll_request, is_no_response, is_no_response_kind,
    missed_agent_snapshot, AgentStatusCache, Command, ConnectionPhase, ConnectionTelemetry, IoErrorKind, LinkMetrics,
    RunningStatus, ScrollSettings, REQUEST_LENGTH,
};
use edgemouse::geometry::Edge;
use std::io;

fn sample_status() -> RunningStatus {
    RunningStatus {
        process_id: 42,
        version: "test-version".to_owned(),
        connection: ConnectionTelemetry {
            phase: ConnectionPhase::Connected,
            peer_name: Some("test-peer".to_owned()),
            connected_since_unix_ms: Some(1_000),
            metrics_updated_unix_ms: Some(2_000),
            reconnect_count: 3,
            rtt_ms_bits: Some(18.5f32.to_bits()),
            jitter_ms_bits: Some(2.25f32.to_bits()),
            send_interval_ms: Some(4),
            sent_moves: 10,
            skipped_moves: 1,
            coalesced_moves: 2,
            received_moves: 20,
            stale_moves: 3,
            superseded_moves: 4,
        },
    }
}

#[test]
fn request_and_response_reject_malformed_messages() {
    assert_eq!(decode_request(b"short"), None);
    let mut request = encode_request(Command::Status);
    request[0] ^= 0xff;
    assert_eq!(decode_request(&request), None);

    let status_request = decode_request(&encode_request(Command::Status)).unwrap();
    assert_eq!(status_request.command, Command::Status);
    assert_eq!(status_request.scroll, None);
    assert_eq!(status_request.peer_on, None);
    let scroll = ScrollSettings {
        reverse_horizontal: true,
        reverse_vertical: false,
    };
    let scroll_request = decode_request(&encode_scroll_request(scroll)).unwrap();
    assert_eq!(scroll_request.command, Command::SetScroll);
    assert_eq!(scroll_request.scroll, Some(scroll));
    assert_eq!(scroll_request.peer_on, None);
    let mut invalid_scroll = encode_scroll_request(scroll);
    invalid_scroll[REQUEST_LENGTH] |= 0b100;
    assert_eq!(decode_request(&invalid_scroll), None);
    let layout_request = decode_request(&encode_layout_request(Edge::Top)).unwrap();
    assert_eq!(layout_request.command, Command::SetLayout);
    assert_eq!(layout_request.scroll, None);
    assert_eq!(layout_request.peer_on, Some(Edge::Top));
    let mut invalid_layout = encode_layout_request(Edge::Left);
    invalid_layout[REQUEST_LENGTH] = 4;
    assert_eq!(decode_request(&invalid_layout), None);

    let status = sample_status();
    let response = encode_response(Command::Status, &status);
    assert_eq!(decode_response(&response, Command::Status).unwrap(), status);
    assert!(decode_response(&response, Command::Stop).is_err());
    assert!(decode_response(&response[..response.len() - 1], Command::Status).is_err());
}

#[test]
fn a_closed_local_udp_port_means_the_agent_is_not_running() {
    for kind in [
        io::ErrorKind::WouldBlock,
        io::ErrorKind::TimedOut,
        io::ErrorKind::ConnectionRefused,
        io::ErrorKind::ConnectionReset,
    ] {
        assert!(is_no_response(&io::Error::from(kind)));
    }
    assert!(!is_no_response(&io::Error::from(
        io::ErrorKind::PermissionDenied
    )));
}

#[test]
fn no_response_kinds_are_exactly_the_four_quiet_failures() {
    assert!(is_no_response_kind(IoErrorKind::WouldBlock));
    assert!(is_no_response_kind(IoErrorKind::ConnectionReset));
    assert!(!is_no_response_kind(IoErrorKind::Other));
}

#[test]
fn legacy_status_responses_remain_readable() {
    let mut response = Vec::new();
    response.extend_from_slice(b"EDGMACK1");
    response.push(1);
    response.extend_from_slice(&42_u32.to_be_bytes());
    response.push(5);
    response.extend_from_slice(b"0.1.0");

    let status = decode_response(&response, Command::Status).unwrap();
    assert_eq!(status.process_id, 42);
    assert_eq!(status.version, "0.1.0");
    assert_eq!(status.connection, ConnectionTelemetry::default());
}

#[test]
fn response_faults_are_reported_with_their_messages() {
    let status = sample_status();
    let response = encode_response(Command::Status, &status);
    let wrong = decode_response(&response, Command::Stop).unwrap_err();
    assert_eq!(
        wrong.message(),
        "EdgeMouse sent a response for the wrong control command"
    );
    let truncated = decode_response(&response[..response.len() - 1], Command::Status).unwrap_err();
    assert_eq!(truncated.message(), "EdgeMouse sent truncated telemetry data");
    let mut trailing = response.clone();
    trailing.push(0);
    assert_eq!(
        decode_response(&trailing, Command::Status)
            .unwrap_err()
            .message(),
        "EdgeMouse sent trailing control response data"
    );
    let mut future = response.clone();
    future[14 + status.version.len()] = 7;
    assert_eq!(
        decode_response(&future, Command::Status)
            .unwrap_err()
            .message(),
        "EdgeMouse sent unsupported telemetry version 7"
    );
    let mut not_finite = status.clone();
    not_finite.connection.rtt_ms_bits = Some(f32::NAN.to_bits());
    let response = encode_response(Command::Status, &not_finite);
    assert_eq!(
        decode_response(&response, Command::Status)
            .unwrap_err()
            .message(),
        "EdgeMouse sent invalid connection metrics"
    );
    assert_eq!(
        decode_response(b"EDGMACK", Command::Status)
            .unwrap_err()
            .message(),
        "EdgeMouse sent an invalid control response"
    );
}

#[test]
fn long_texts_are_cut_to_their_fields() {
    let mut status = sample_status();
    status.version = "v".repeat(80);
    let response = encode_response(Command::Stop, &status);
    let decoded = decode_response(&response, Command::Stop).unwrap();
    assert_eq!(decoded.version, "v".repeat(63));
}

#[test]
fn runtime_telemetry_tracks_connection_and_link_quality() {
    assert_eq!(ScrollSettings::default().reverse_horizontal, false);
    let mut telemetry = ConnectionTelemetry::default();
    telemetry.begin_connecting(false);
    assert_eq!(telemetry.phase, ConnectionPhase::Connecting);
    telemetry.connected("macbook", 1_000);
    telemetry.update_link(
        LinkMetrics {
            rtt_ms_bits: Some(19.25f32.to_bits()),
            jitter_ms_bits: Some(2.5f32.to_bits()),
            send_interval_ms: 4,
            sent_moves: 10,
            skipped_moves: 1,
            coalesced_moves: 2,
            received_moves: 20,
            stale_moves: 3,
            superseded_moves: 4,
        },
        2_000,
    );
    assert_eq!(telemetry.phase, ConnectionPhase::Connected);
    assert_eq!(telemetry.peer_name.as_deref(), Some("macbook"));
    assert_eq!(telemetry.rtt_ms_bits.map(f32::from_bits), Some(19.25));
    assert_eq!(telemetry.jitter_ms_bits.map(f32::from_bits), Some(2.5));
    assert_eq!(telemetry.metrics_updated_unix_ms, Some(2_000));

    telemetry.disconnected();
    assert_eq!(telemetry.phase, ConnectionPhase::Reconnecting);
    assert_eq!(telemetry.reconnect_count, 1);
    assert_eq!(telemetry.rtt_ms_bits, None);
    assert_eq!(telemetry.sent_moves, 0);
    telemetry.disconnected();
    assert_eq!(telemetry.reconnect_count, 1);
}

#[test]
fn send_interval_saturates_at_the_largest_u32() {
    let mut telemetry = ConnectionTelemetry::default();
    telemetry.update_link(
        LinkMetrics {
            rtt_ms_bits: None,
            jitter_ms_bits: None,
            send_interval_ms: u64::MAX,
            sent_moves: 0,
            skipped_moves: 0,
            coalesced_moves: 0,
            received_moves: 0,
            stale_moves: 0,
            superseded_moves: 0,
        },
        5,
    );
    assert_eq!(telemetry.send_interval_ms, Some(u32::MAX));
}

#[test]
fn phases_have_names_and_codes() {
    assert_eq!(ConnectionPhase::Reconnecting.as_str(), "reconnecting");
    assert_eq!(ConnectionPhase::from_byte(2), Some(ConnectionPhase::Connected));
    assert_eq!(ConnectionPhase::from_byte(4), None);
    assert_eq!(Command::from_byte(4), Some(Command::SetLayout));
    assert_eq!(Command::from_byte(0), None);
}

#[test]
fn pending_layout_is_cleared_only_by_its_own_edge() {
    assert_eq!(
        complete_layout_update(Some(Edge::Bottom), Edge::Right),
        Some(Edge::Bottom)
    );
    assert_eq!(complete_layout_update(Some(Edge::Bottom), Edge::Bottom), None);
    assert_eq!(complete_layout_update(None, Edge::Bottom), None);
}

fn cached_status() -> RunningStatus {
    RunningStatus {
        process_id: 42,
        version: "test-version".to_owned(),
        connection: ConnectionTelemetry::default(),
    }
}

#[test]
fn transient_agent_status_misses_keep_the_last_known_running_state() {
    let mut cache = AgentStatusCache {
        last_status: Some(cached_status()),
        consecutive_misses: 0,
    };

    let first = missed_agent_snapshot(&mut cache, None, "app-version");
    let second = missed_agent_snapshot(
        &mut cache,
        Some("temporary failure".to_owned()),
        "app-version",
    );

    assert!(first.running);
    assert!(!first.status_fresh);
    assert_eq!(first.process_id, Some(42));
    assert!(second.running);
    assert!(!second.status_fresh);
    assert!(second
        .error
        .is_some_and(|error| error.contains("temporary failure")));
}

#[test]
fn repeated_agent_status_misses_eventually_report_the_service_stopped() {
    let mut cache = AgentStatusCache {
        last_status: Some(cached_status()),
        consecutive_misses: 2,
    };

    let snapshot = missed_agent_snapshot(&mut cache, None, "app-version");

    assert!(!snapshot.running);
    assert!(!snapshot.status_fresh);
    assert_eq!(snapshot.process_id, None);
}

#[test]
fn a_stale_snapshot_names_why_and_a_stopped_one_keeps_the_query_error() {
    let mut cache = AgentStatusCache::new();
    cache.record_answer(cached_status());
    let stale = missed_agent_snapshot(&mut cache, None, "app-version");
    assert_eq!(stale.version, "test-version");
    assert_eq!(
        stale.error.as_deref(),
        Some("本机状态通道暂时没有响应；正在自动确认后台服务状态")
    );
    assert_eq!(cache.consecutive_misses, 1);

    let mut empty = AgentStatusCache::new();
    let stopped = missed_agent_snapshot(&mut empty, Some("refused".to_owned()), "app-version");
    assert!(!stopped.running);
    assert!(stopped.connection.is_none());
    assert_eq!(stopped.version, "app-version");
    assert_eq!(stopped.error.as_deref(), Some("refused"));

    let mut saturated = AgentStatusCache { last_status: None, consecutive_misses: u8::MAX };
    let _ = missed_agent_snapshot(&mut saturated, None, "app-version");
    assert_eq!(saturated.consecutive_misses, u8::MAX);
}
