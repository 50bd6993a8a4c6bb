use edgemouse::input::{
    Effect, KeyCode, KeyState, KeyboardEvent, RemoteMouseEvent, RoutedEvent, RoutedKeyboardEvent,
};
use edgemouse::link::{
    check_connected_peer, check_incoming_start, check_reclaim_request, check_takeover_wait,
    heartbeat_end, message_ends_connection, on_incoming_silence, on_link_lost, on_peer_heartbeat,
    on_peer_keyboard, on_peer_mouse, on_reclaim_ack, on_reclaim_request, on_reliable_receive,
    reclaim_incoming,
    releases_keys_first, AckVerdict, ConnectionEnd, PeerMessage, ReceiveVerdict, Reconnection,
};
use edgemouse::network::HeartbeatTracker;
use edgemouse::platform::{
    KeyInjection, KeyInjections, KeyboardInjectionBackend, PermissionState, PlatformError,
};
use edgemouse::receiver::{
    InjectorRequest, InjectorRequests, MouseInjectionBackend, RemoteReceiver, RemoteTransition,
};
use edgemouse::session::{ControlCore, ControlState, TakeoverRequest};
use edgemouse::topology::{NodeId, ScreenId};

type Message = PeerMessage<(f64, f64), f64>;

#[test]
fn messages_that_end_the_connection() {
    assert_eq!(
        message_ends_connection(&Message::Hello),
        Some(Err("peer sent a duplicate Hello message".to_owned()))
    );
    assert_eq!(
        message_ends_connection(&Message::Goodbye),
        Some(Ok(ConnectionEnd::Disconnected("peer shut down".to_owned())))
    );
    assert_eq!(
        message_ends_connection(&Message::ReliableDatagram),
        Some(Err(
            "peer sent a movement datagram on the reliable stream".to_owned()
        ))
    );
    assert_eq!(
        message_ends_connection(&Message::Disconnected { reason: "reset".to_owned() }),
        Some(Ok(ConnectionEnd::Disconnected("reset".to_owned())))
    );
    assert_eq!(message_ends_connection(&Message::Heartbeat { session_id: 4, monotonic_ms: 10 }), None);
}

#[test]
fn entering_leaving_and_releasing_release_held_keys_first() {
    let enter: RemoteMouseEvent<(f64, f64), f64> = RemoteMouseEvent::Enter {
        screen: ScreenId(1),
        position: (0.0, 0.0),
    };
    assert!(releases_keys_first(&enter));
    assert!(releases_keys_first::<(f64, f64), f64>(&RemoteMouseEvent::Leave));
    assert!(releases_keys_first::<(f64, f64), f64>(&RemoteMouseEvent::ReleaseAll));
    assert!(!releases_keys_first::<(f64, f64), f64>(&RemoteMouseEvent::MoveAbsolute {
        screen: ScreenId(1),
        position: (1.0, 1.0),
    }));
}

#[test]
fn a_reclaim_request_is_checked_in_order() {
    let peer = NodeId(2);
    let remote = ControlState::Remote { peer };
    assert_eq!(
        check_reclaim_request(5, 6, false, remote, peer).unwrap_err(),
        "peer requested control from a stale local session"
    );
    assert_eq!(
        check_reclaim_request(6, 6, true, remote, peer).unwrap_err(),
        "peer requested control during simultaneous incoming control"
    );
    assert_eq!(
        check_reclaim_request(6, 6, false, ControlState::Local, peer).unwrap_err(),
        "peer requested control when no outgoing session was active"
    );
    assert!(check_reclaim_request(6, 6, false, remote, peer).is_ok());
}

#[test]
fn an_acknowledgement_only_counts_for_the_pending_request() {
    let mut takeover = TakeoverRequest::new();
    assert_eq!(on_reclaim_ack(&mut takeover, 9, Some(9)), AckVerdict::Ignore);
    takeover.mark_requested(9, 100);
    assert_eq!(on_reclaim_ack(&mut takeover, 8, Some(9)), AckVerdict::Ignore);
    assert_eq!(takeover.pending, Some((9, 100)));
    assert_eq!(on_reclaim_ack(&mut takeover, 9, Some(9)), AckVerdict::Reclaim);
    assert_eq!(takeover.pending, None);
    takeover.mark_requested(9, 100);
    assert_eq!(
        on_reclaim_ack(&mut takeover, 9, None),
        AckVerdict::Fail("peer acknowledged a control session that is not active".to_owned())
    );
}

#[test]
fn an_unanswered_takeover_ends_the_connection() {
    let mut takeover = TakeoverRequest::new();
    takeover.mark_requested(9, 1_000);
    assert_eq!(check_takeover_wait(&mut takeover, Some(9), 2_499), None);
    assert_eq!(
        check_takeover_wait(&mut takeover, Some(9), 2_500),
        Some(ConnectionEnd::Disconnected(
            "local physical mouse reclaim was not acknowledged".to_owned()
        ))
    );
    assert_eq!(check_takeover_wait(&mut takeover, None, 2_500), None);
    assert_eq!(takeover.pending, None);
}

#[test]
fn a_reported_peer_timeout_ends_the_connection() {
    let quiet: Vec<Effect<(f64, f64), f64>> = vec![Effect::ReleasePointer {
        screen: ScreenId(1),
        restore_position: (1.0, 1.0),
    }];
    assert_eq!(heartbeat_end(&quiet), None);
    let timed_out: Vec<Effect<(f64, f64), f64>> = vec![
        Effect::PeerTimedOut { peer: NodeId(2) },
        Effect::ReleasePointer { screen: ScreenId(1), restore_position: (1.0, 1.0) },
    ];
    assert_eq!(
        heartbeat_end(&timed_out),
        Some(ConnectionEnd::Disconnected("trusted peer heartbeat timed out".to_owned()))
    );
}

#[test]
fn only_a_local_session_accepts_the_peer_and_only_the_configured_peer_connects() {
    assert!(check_incoming_start(ControlState::Local).is_ok());
    assert!(check_incoming_start(ControlState::Remote { peer: NodeId(2) }).is_err());
    assert!(check_connected_peer(NodeId(2), NodeId(2)).is_ok());
    assert_eq!(
        check_connected_peer(NodeId(3), NodeId(2)).unwrap_err(),
        "connected peer identity does not match configuration"
    );
}

#[test]
fn only_fresh_heartbeats_reach_the_connection_loop() {
    let mut tracker = HeartbeatTracker::default();
    let beat = |ms| Message::Heartbeat { session_id: 4, monotonic_ms: ms };
    assert_eq!(on_reliable_receive(&mut tracker, &beat(10)), ReceiveVerdict::Forward);
    assert_eq!(on_reliable_receive(&mut tracker, &beat(10)), ReceiveVerdict::Skip);
    assert_eq!(on_reliable_receive(&mut tracker, &beat(9)), ReceiveVerdict::Skip);
    assert_eq!(on_reliable_receive(&mut tracker, &beat(11)), ReceiveVerdict::Forward);
    assert_eq!(
        on_reliable_receive(&mut tracker, &Message::Heartbeat { session_id: 5, monotonic_ms: 99 }),
        ReceiveVerdict::Skip
    );
    assert_eq!(
        on_reliable_receive(&mut tracker, &Message::Goodbye),
        ReceiveVerdict::Disconnect("peer shut down".to_owned())
    );
    assert_eq!(
        on_reliable_receive(&mut tracker, &Message::ReliableDatagram),
        ReceiveVerdict::Disconnect(
            "peer sent a movement datagram on the reliable stream".to_owned()
        )
    );
    assert_eq!(
        on_reliable_receive(&mut tracker, &Message::ControlReclaim { owner_session_id: 4 }),
        ReceiveVerdict::Forward
    );
}

#[test]
fn a_heartbeat_keeps_both_directions_alive() {
    let local = NodeId(1);
    let peer = NodeId(2);
    let mut core: ControlCore<(f64, f64)> = ControlCore::new(local, 1_000, false).unwrap();
    core.cross::<f64>(local, peer, ScreenId(1), ScreenId(2), (0.0, 0.0), (9.0, 0.0), (9.0, 0.0), 0);
    let mut remote: RemoteReceiver<(f64, f64), f64> = RemoteReceiver::new(1_000);
    remote.active_session = Some(7);
    remote.last_activity_ms = Some(0);
    on_peer_heartbeat(&mut core, &mut remote, peer, 7, 900);
    assert_eq!(remote.last_activity_ms, Some(900));
    assert!(core.poll_timeout::<f64>(1_800).is_empty());
    assert!(!core.poll_timeout::<f64>(1_900).is_empty());
    on_peer_heartbeat(&mut core, &mut remote, peer, 8, 950);
    assert_eq!(remote.last_activity_ms, Some(900));
}

#[derive(Default)]
struct MouseLog {
    log: Vec<InjectorRequest<(f64, f64), f64>>,
}

impl MouseInjectionBackend<(f64, f64), f64> for MouseLog {
    // Only the verifier reads the record; `log` keeps it at run time.
    fn requests(&self) -> InjectorRequests<(f64, f64), f64> {
        unreachable!()
    }

    fn permission_state(&self) -> PermissionState {
        PermissionState::NotRequired
    }

    fn inject(&mut self, event: RemoteMouseEvent<(f64, f64), f64>) -> Result<(), PlatformError> {
        self.log.push(InjectorRequest::Inject(event));
        Ok(())
    }

    fn release_all(&mut self) -> Result<(), PlatformError> {
        self.log.push(InjectorRequest::ReleaseAll);
        Ok(())
    }
}

#[derive(Default)]
struct KeyLog {
    log: Vec<KeyInjection>,
}

impl KeyboardInjectionBackend for KeyLog {
    fn requests(&self) -> KeyInjections {
        unreachable!()
    }

    fn permission_state(&self) -> PermissionState {
        PermissionState::NotRequired
    }

    fn inject(&mut self, event: KeyboardEvent) -> Result<(), PlatformError> {
        self.log.push(KeyInjection::Inject(event));
        Ok(())
    }

    fn release_all(&mut self) -> Result<(), PlatformError> {
        self.log.push(KeyInjection::ReleaseAll);
        Ok(())
    }
}

#[test]
fn a_peer_entry_releases_held_keys_then_injects_and_follows_with_a_ready_datagram() {
    let mut remote: RemoteReceiver<(f64, f64), f64> = RemoteReceiver::new(1_000);
    let mut mouse = MouseLog::default();
    let mut keys = KeyLog::default();
    let enter = RoutedEvent {
        sequence: 1,
        event: RemoteMouseEvent::Enter { screen: ScreenId(1), position: (3.0, 4.0) },
    };
    let (first, second) = on_peer_mouse(&mut remote, 7, enter, &mut mouse, &mut keys, 10).unwrap();
    assert_eq!(first, RemoteTransition::Started { position: (3.0, 4.0) });
    assert_eq!(second, RemoteTransition::NoChange);
    assert_eq!(keys.log, vec![KeyInjection::ReleaseAll]);
    assert_eq!(
        mouse.log,
        vec![InjectorRequest::ReleaseAll, InjectorRequest::Inject(enter.event)]
    );

    let wheel = RoutedEvent {
        sequence: 2,
        event: RemoteMouseEvent::Wheel { horizontal: 0.0, vertical: 1.0 },
    };
    on_peer_mouse(&mut remote, 7, wheel, &mut mouse, &mut keys, 11).unwrap();
    assert_eq!(keys.log.len(), 1);
    assert_eq!(mouse.log.last(), Some(&InjectorRequest::Inject(wheel.event)));
}

#[test]
fn peer_keys_are_injected_in_order_and_a_lost_link_releases_everything() {
    let mut remote: RemoteReceiver<(f64, f64), f64> = RemoteReceiver::new(1_000);
    let mut mouse = MouseLog::default();
    let mut keys = KeyLog::default();
    let key = RoutedKeyboardEvent {
        sequence: 2,
        event: KeyboardEvent { key: KeyCode::space(), state: KeyState::Pressed, repeat: false },
    };
    assert!(on_peer_keyboard(&mut remote, 7, key, &mut mouse, &mut keys, 5).is_err());
    assert!(keys.log.is_empty());
    let enter = RoutedEvent {
        sequence: 1,
        event: RemoteMouseEvent::Enter { screen: ScreenId(1), position: (3.0, 4.0) },
    };
    on_peer_mouse(&mut remote, 7, enter, &mut mouse, &mut keys, 10).unwrap();
    assert_eq!(
        on_peer_keyboard(&mut remote, 7, key, &mut mouse, &mut keys, 11).unwrap(),
        RemoteTransition::NoChange
    );
    assert_eq!(keys.log, vec![KeyInjection::ReleaseAll, KeyInjection::Inject(key.event)]);
    assert_eq!(on_link_lost(&mut remote, &mut mouse, &mut keys), Some((3.0, 4.0)));
    assert_eq!(keys.log.last(), Some(&KeyInjection::ReleaseAll));
    assert_eq!(mouse.log.last(), Some(&InjectorRequest::ReleaseAll));
    assert!(!remote.is_active());
}

#[test]
fn a_silent_peer_loses_control_of_this_computer() {
    let mut remote: RemoteReceiver<(f64, f64), f64> = RemoteReceiver::new(100);
    let mut mouse = MouseLog::default();
    let mut keys = KeyLog::default();
    let enter = RoutedEvent {
        sequence: 1,
        event: RemoteMouseEvent::Enter { screen: ScreenId(1), position: (3.0, 4.0) },
    };
    on_peer_mouse(&mut remote, 7, enter, &mut mouse, &mut keys, 10).unwrap();
    assert_eq!(on_incoming_silence(&mut remote, &mut mouse, &mut keys, 109).unwrap(), None);
    assert_eq!(keys.log.len(), 1);
    assert_eq!(
        on_incoming_silence(&mut remote, &mut mouse, &mut keys, 110).unwrap(),
        Some((
            (3.0, 4.0),
            ConnectionEnd::Disconnected("incoming remote control timed out".to_owned())
        ))
    );
    assert_eq!(keys.log, vec![KeyInjection::ReleaseAll, KeyInjection::ReleaseAll]);
    assert_eq!(mouse.log.last(), Some(&InjectorRequest::ReleaseAll));
    assert!(!remote.is_active());
}

#[test]
fn reclaiming_releases_keys_and_buttons_and_resumes_at_the_last_position() {
    let mut remote: RemoteReceiver<(f64, f64), f64> = RemoteReceiver::new(100);
    let mut mouse = MouseLog::default();
    let mut keys = KeyLog::default();
    assert_eq!(
        reclaim_incoming(&mut remote, &mut mouse, &mut keys),
        Err("incoming control had no pointer position to reclaim".to_owned())
    );
    let enter = RoutedEvent {
        sequence: 1,
        event: RemoteMouseEvent::Enter { screen: ScreenId(1), position: (8.0, 9.0) },
    };
    on_peer_mouse(&mut remote, 7, enter, &mut mouse, &mut keys, 10).unwrap();
    assert_eq!(reclaim_incoming(&mut remote, &mut mouse, &mut keys), Ok((8.0, 9.0)));
    assert_eq!(keys.log.last(), Some(&KeyInjection::ReleaseAll));
    assert_eq!(mouse.log.last(), Some(&InjectorRequest::ReleaseAll));
    assert!(!remote.is_active());
}

#[test]
fn an_honoured_reclaim_hands_control_back_without_reporting_a_failure() {
    let local = NodeId(1);
    let peer = NodeId(2);
    let mut core: ControlCore<(f64, f64)> = ControlCore::new(local, 1_000, false).unwrap();
    assert_eq!(
        on_reclaim_request::<(f64, f64), f64>(&mut core, 5, 5, false, peer).unwrap_err(),
        "peer requested control when no outgoing session was active"
    );
    core.cross::<f64>(local, peer, ScreenId(1), ScreenId(2), (0.0, 0.0), (9.0, 1.0), (9.0, 1.0), 0);
    let effects = on_reclaim_request::<(f64, f64), f64>(&mut core, 5, 5, false, peer).unwrap();
    assert_eq!(
        effects,
        vec![Effect::ReleasePointer { screen: ScreenId(1), restore_position: (9.0, 1.0) }]
    );
    assert_eq!(core.state(), ControlState::Recovering { peer });
}

#[test]
fn reconnecting_waits_longer_each_time_until_a_connection_succeeds() {
    let mut state = Reconnection::new();
    assert!(!state.reconnecting);
    assert_eq!(state.attempt_failed(), 1_000);
    assert!(state.reconnecting);
    assert_eq!(
        state.connection_ended(&ConnectionEnd::Disconnected("peer shut down".to_owned())),
        Some(2_000)
    );
    assert_eq!(state.attempt_failed(), 4_000);
    assert_eq!(state.attempt_failed(), 5_000);
    assert_eq!(state.attempt_failed(), 5_000);
    assert_eq!(
        state.connected(NodeId(3), NodeId(2)),
        Err("connected peer identity does not match configuration".to_owned())
    );
    assert_eq!(state.backoff.next_ms, 5_000);
    assert_eq!(state.connected(NodeId(2), NodeId(2)), Ok(()));
    assert_eq!(state.backoff.next_ms, 1_000);
    assert_eq!(state.connection_ended(&ConnectionEnd::Stopped), None);
}
