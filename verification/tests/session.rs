use edgemouse::input::{
    ButtonState, Effect, InputDisposition, KeyCode, KeyState, KeyboardEvent, MouseButton,
    RemoteMouseEvent, RoutedEvent, RoutedKeyboardEvent,
};
use edgemouse::session::{
    check_local_screen, ControlCore, ControlState, PointerInput, SessionError,
};
use edgemouse::topology::{NodeId, ScreenId, TopologyError};

const LOCAL: NodeId = NodeId(10);
const REMOTE: NodeId = NodeId(20);
const LOCAL_SCREEN: ScreenId = ScreenId(1);
const REMOTE_SCREEN: ScreenId = ScreenId(2);

type Point = (f64, f64);

fn control() -> ControlCore<Point> {
    ControlCore::new(LOCAL, 1_500, true).unwrap()
}

fn enter_remote(c: &mut ControlCore<Point>, now_ms: u64) -> Vec<Effect<Point, f64>> {
    c.cross::<f64>(
        LOCAL,
        REMOTE,
        LOCAL_SCREEN,
        REMOTE_SCREEN,
        (0.0, 50.0),
        (99.0, 50.0),
        (99.0, 50.0),
        now_ms,
    )
    .effects
}

#[test]
fn crossing_the_edge_captures_and_enters_remote() {
    let mut c = control();
    let effects = enter_remote(&mut c, 100);
    assert_eq!(c.state(), ControlState::Remote { peer: REMOTE });
    assert_eq!(
        effects,
        vec![
            Effect::CapturePointer { anchor: (99.0, 50.0) },
            Effect::Send {
                peer: REMOTE,
                event: RoutedEvent {
                    sequence: 1,
                    event: RemoteMouseEvent::Enter {
                        screen: REMOTE_SCREEN,
                        position: (0.0, 50.0),
                    },
                },
            },
        ]
    );
}

#[test]
fn keyboard_follows_remote_mouse_control() {
    let mut c = control();
    let event = KeyboardEvent {
        key: KeyCode::a(),
        state: KeyState::Pressed,
        repeat: false,
    };
    let local = c.handle_keyboard::<f64>(event);
    assert_eq!(local.disposition, InputDisposition::PassThrough);
    enter_remote(&mut c, 100);
    let remote = c.handle_keyboard::<f64>(event);
    assert_eq!(remote.disposition, InputDisposition::Suppress);
    assert_eq!(
        remote.effects,
        vec![Effect::SendKeyboard {
            peer: REMOTE,
            event: RoutedKeyboardEvent { sequence: 2, event },
        }]
    );
}

#[test]
fn returning_home_releases_the_peer_and_the_pointer() {
    let mut c = control();
    enter_remote(&mut c, 100);
    let back = c.cross::<f64>(
        REMOTE,
        LOCAL,
        REMOTE_SCREEN,
        LOCAL_SCREEN,
        (98.0, 40.0),
        (1.0, 40.0),
        (1.0, 40.0),
        200,
    );
    assert_eq!(c.state(), ControlState::Local);
    assert_eq!(back.disposition, InputDisposition::Suppress);
    assert_eq!(
        back.effects.last(),
        Some(&Effect::ReleasePointer {
            screen: LOCAL_SCREEN,
            restore_position: (98.0, 40.0),
        })
    );
    assert!(matches!(
        back.effects[0],
        Effect::Send {
            peer: REMOTE,
            event: RoutedEvent {
                sequence: 2,
                event: RemoteMouseEvent::ReleaseAll,
            },
        }
    ));
}

#[test]
fn dragging_blocks_a_screen_transition() {
    let mut c = control();
    c.handle_input::<f64>(
        PointerInput::Button { button: MouseButton::Primary, state: ButtonState::Pressed },
        0,
    );
    // Moving 20 pixels right from (99, 50) reaches the edge toward the peer.
    let result = c.handle_input::<f64>(
        PointerInput::Crossing {
            from_node: LOCAL,
            to_node: REMOTE,
            from_screen: LOCAL_SCREEN,
            to_screen: REMOTE_SCREEN,
            position: (0.0, 50.0),
            anchor: (99.0, 50.0),
            restore: (99.0, 50.0),
            stay: (99.0, 50.0),
        },
        10,
    );

    assert_eq!(result.disposition, InputDisposition::PassThrough);
    assert!(result.effects.is_empty());
    assert_eq!(c.state(), ControlState::Local);
}

#[test]
fn releasing_the_button_lets_the_pointer_cross_again() {
    let mut c = control();
    c.handle_button::<f64>(MouseButton::Primary, ButtonState::Pressed);
    assert!(c.blocks_transition());
    c.handle_button::<f64>(MouseButton::Primary, ButtonState::Released);
    assert!(!c.blocks_transition());
    let result = c.handle_input::<f64>(
        PointerInput::Crossing {
            from_node: LOCAL,
            to_node: REMOTE,
            from_screen: LOCAL_SCREEN,
            to_screen: REMOTE_SCREEN,
            position: (0.0, 50.0),
            anchor: (99.0, 50.0),
            restore: (99.0, 50.0),
            stay: (99.0, 50.0),
        },
        10,
    );
    assert_eq!(result.disposition, InputDisposition::Suppress);
    assert_eq!(c.state(), ControlState::Remote { peer: REMOTE });
}

#[test]
fn a_refused_crossing_under_remote_control_keeps_moving_on_the_peer() {
    let mut c = control();
    enter_remote(&mut c, 100);
    c.handle_input::<f64>(
        PointerInput::Button { button: MouseButton::Primary, state: ButtonState::Pressed },
        110,
    );
    let result = c.handle_input::<f64>(
        PointerInput::Crossing {
            from_node: REMOTE,
            to_node: LOCAL,
            from_screen: REMOTE_SCREEN,
            to_screen: LOCAL_SCREEN,
            position: (99.0, 50.0),
            anchor: (0.0, 50.0),
            restore: (99.0, 50.0),
            stay: (0.0, 50.0),
        },
        120,
    );
    assert_eq!(result.disposition, InputDisposition::Suppress);
    assert_eq!(
        result.effects,
        vec![Effect::Send {
            peer: REMOTE,
            event: RoutedEvent {
                sequence: 3,
                event: RemoteMouseEvent::MoveAbsolute { screen: REMOTE_SCREEN, position: (0.0, 50.0) },
            },
        }]
    );
    assert_eq!(c.state(), ControlState::Remote { peer: REMOTE });
}

#[test]
fn timeout_restores_local_control() {
    let mut c = control();
    enter_remote(&mut c, 100);
    assert!(c.poll_timeout::<f64>(1_599).is_empty());
    let effects = c.poll_timeout::<f64>(1_600);
    assert_eq!(c.state(), ControlState::Recovering { peer: REMOTE });
    assert_eq!(
        effects,
        vec![
            Effect::PeerTimedOut { peer: REMOTE },
            Effect::ReleasePointer {
                screen: LOCAL_SCREEN,
                restore_position: (99.0, 50.0),
            },
        ]
    );
    assert!(c.is_recovering());
    assert_eq!(c.complete_recovery(), Ok((LOCAL_SCREEN, (99.0, 50.0))));
    assert_eq!(c.state(), ControlState::Local);
    assert_eq!(c.complete_recovery(), Err(SessionError::NotRecovering));
}

#[test]
fn peer_activity_postpones_the_timeout() {
    let mut c = control();
    enter_remote(&mut c, 100);
    c.note_peer_activity(REMOTE, 1_000);
    assert!(c.poll_timeout::<f64>(1_600).is_empty());
    c.note_peer_activity(NodeId(99), 2_000);
    assert!(!c.poll_timeout::<f64>(2_500).is_empty());
}

#[test]
fn peer_requested_yield_restores_without_reporting_a_timeout() {
    let mut c = control();
    enter_remote(&mut c, 100);
    let effects = c.yield_remote_control::<f64>(REMOTE);
    assert_eq!(
        effects,
        vec![Effect::ReleasePointer {
            screen: LOCAL_SCREEN,
            restore_position: (99.0, 50.0),
        }]
    );
    assert!(c.disconnect_peer::<f64>(REMOTE).is_empty());
}

#[test]
fn refuses_to_synchronize_an_outgoing_remote_session() {
    let mut c = control();
    assert!(c.check_synchronize().is_ok());
    enter_remote(&mut c, 100);
    assert_eq!(
        c.check_synchronize(),
        Err(SessionError::CannotSynchronizeWhileRemote)
    );
}

#[test]
fn remote_buttons_and_wheel_go_to_the_peer_in_order() {
    let mut c = control();
    enter_remote(&mut c, 100);
    let button = c.handle_button::<f64>(MouseButton::Secondary, ButtonState::Pressed);
    let wheel = c.handle_wheel(0.0_f64, -1.0_f64);
    let motion = c.route_motion::<f64>(REMOTE_SCREEN, (5.0, 5.0));
    let sequence = |effects: &Vec<Effect<Point, f64>>| match effects[0] {
        Effect::Send { event, .. } => event.sequence,
        _ => 0,
    };
    assert_eq!(sequence(&button.effects), 2);
    assert_eq!(sequence(&wheel.effects), 3);
    assert_eq!(sequence(&motion.effects), 4);
}

#[test]
fn invalid_timeouts_are_refused_and_errors_have_messages() {
    assert!(matches!(
        ControlCore::<Point>::new(LOCAL, 0, true),
        Err(SessionError::InvalidTimeout)
    ));
    assert_eq!(
        SessionError::InitialScreenNotLocal(ScreenId(3)).message(),
        "initial screen 3 is not local"
    );
    assert_eq!(
        SessionError::Topology(TopologyError::MissingScreen(ScreenId(7))).message(),
        "missing screen 7"
    );
    assert_eq!(
        SessionError::Topology(TopologyError::OccupiedEdge(
            ScreenId(1),
            edgemouse::geometry::Edge::Left
        ))
        .message(),
        "screen 1 edge Left already has a portal"
    );
}

#[test]
fn local_takeover_ack_is_session_bound_and_times_out_safely() {
    let mut request = edgemouse::session::TakeoverRequest::new();
    request.mark_requested(77, 100);

    assert!(!request.accept_ack(78));
    assert_eq!(request.timed_out(1_599), None);
    assert_eq!(request.timed_out(1_600), Some(77));
    assert!(request.accept_ack(77));
    assert_eq!(request.timed_out(u64::MAX), None);
}

fn sent_numbers(effects: &[Effect<Point, f64>]) -> Vec<u64> {
    effects
        .iter()
        .filter_map(|effect| match effect {
            Effect::Send { event, .. } => Some(event.sequence),
            Effect::SendKeyboard { event, .. } => Some(event.sequence),
            _ => None,
        })
        .collect()
}

#[test]
fn a_run_of_calls_numbers_its_events_one_two_three() {
    let mut c = control();
    let mut sent = Vec::new();
    sent.extend(sent_numbers(&enter_remote(&mut c, 100)));
    sent.extend(sent_numbers(&c.route_motion::<f64>(REMOTE_SCREEN, (5.0, 5.0)).effects));
    sent.extend(sent_numbers(
        &c.handle_button::<f64>(MouseButton::Primary, ButtonState::Pressed).effects,
    ));
    sent.extend(sent_numbers(
        &c.handle_button::<f64>(MouseButton::Primary, ButtonState::Released).effects,
    ));
    sent.extend(sent_numbers(
        &c.handle_keyboard::<f64>(KeyboardEvent { key: KeyCode::a(), state: KeyState::Pressed, repeat: false })
            .effects,
    ));
    sent.extend(sent_numbers(&c.handle_wheel::<f64>(0.0, 1.0).effects));
    sent.extend(sent_numbers(
        &c.cross::<f64>(
            REMOTE,
            LOCAL,
            REMOTE_SCREEN,
            LOCAL_SCREEN,
            (99.0, 50.0),
            (0.0, 50.0),
            (99.0, 50.0),
            200,
        )
        .effects,
    ));
    assert_eq!(sent, vec![1, 2, 3, 4, 5, 6, 7, 8]);
}

#[test]
fn input_passes_through_untouched_while_control_recovers() {
    let mut c = control();
    enter_remote(&mut c, 100);
    assert!(!c.poll_timeout::<f64>(1_600).is_empty());
    assert!(c.is_recovering());
    let result = c.handle_input::<f64>(
        PointerInput::Button { button: MouseButton::Primary, state: ButtonState::Pressed },
        1_700,
    );
    assert_eq!(result.disposition, InputDisposition::PassThrough);
    assert!(result.effects.is_empty());
    assert!(!c.blocks_transition());
}

#[test]
fn input_is_dispatched_to_the_peer_under_remote_control() {
    let mut c = control();
    enter_remote(&mut c, 100);
    let result = c.handle_input::<f64>(PointerInput::Wheel { horizontal: 0.0, vertical: -2.0 }, 150);
    assert_eq!(result.disposition, InputDisposition::Suppress);
    assert_eq!(
        result.effects,
        vec![Effect::Send {
            peer: REMOTE,
            event: RoutedEvent {
                sequence: 2,
                event: RemoteMouseEvent::Wheel { horizontal: 0.0, vertical: -2.0 },
            },
        }]
    );
    let back = c.handle_input::<f64>(
        PointerInput::Crossing {
            from_node: REMOTE,
            to_node: LOCAL,
            from_screen: REMOTE_SCREEN,
            to_screen: LOCAL_SCREEN,
            position: (99.0, 50.0),
            anchor: (0.0, 50.0),
            restore: (99.0, 50.0),
            stay: (0.0, 50.0),
        },
        200,
    );
    assert_eq!(back.effects.len(), 3);
    assert_eq!(c.state(), ControlState::Local);
}

#[test]
fn the_local_pointer_needs_a_local_screen_that_contains_it() {
    assert_eq!(
        check_local_screen(None, LOCAL, LOCAL_SCREEN, true, true),
        Err(SessionError::Topology(TopologyError::MissingScreen(LOCAL_SCREEN)))
    );
    assert_eq!(
        check_local_screen(Some(REMOTE), LOCAL, REMOTE_SCREEN, true, true),
        Err(SessionError::InitialScreenNotLocal(REMOTE_SCREEN))
    );
    assert_eq!(
        check_local_screen(Some(REMOTE), LOCAL, REMOTE_SCREEN, true, false),
        Err(SessionError::SynchronizedScreenNotLocal(REMOTE_SCREEN))
    );
    assert_eq!(
        check_local_screen(Some(LOCAL), LOCAL, LOCAL_SCREEN, false, true),
        Err(SessionError::InitialPointerOutside(LOCAL_SCREEN))
    );
    assert_eq!(
        check_local_screen(Some(LOCAL), LOCAL, LOCAL_SCREEN, false, false),
        Err(SessionError::SynchronizedPointerOutside(LOCAL_SCREEN))
    );
    assert_eq!(check_local_screen(Some(LOCAL), LOCAL, LOCAL_SCREEN, true, true), Ok(()));
}

#[test]
fn returns_local_after_moving_inward_and_back() {
    let mut c = control();
    c.handle_input::<f64>(
        PointerInput::Crossing {
            from_node: LOCAL,
            to_node: REMOTE,
            from_screen: LOCAL_SCREEN,
            to_screen: REMOTE_SCREEN,
            position: (0.0, 50.0),
            anchor: (99.0, 50.0),
            restore: (99.0, 50.0),
            stay: (99.0, 50.0),
        },
        100,
    );
    c.handle_input::<f64>(
        PointerInput::Motion { screen: REMOTE_SCREEN, position: (10.0, 50.0) },
        110,
    );
    assert_eq!(c.state(), ControlState::Remote { peer: REMOTE });
    let returned = c.handle_input::<f64>(
        PointerInput::Crossing {
            from_node: REMOTE,
            to_node: LOCAL,
            from_screen: REMOTE_SCREEN,
            to_screen: LOCAL_SCREEN,
            position: (79.0, 50.0),
            anchor: (0.0, 50.0),
            restore: (0.0, 50.0),
            stay: (0.0, 50.0),
        },
        120,
    );
    assert_eq!(c.state(), ControlState::Local);
    assert!(matches!(
        returned.effects.last(),
        Some(Effect::ReleasePointer { .. })
    ));
}

#[test]
fn synchronizes_pointer_after_incoming_remote_control() {
    let mut c = control();
    c.handle_input::<f64>(
        PointerInput::Button { button: MouseButton::Primary, state: ButtonState::Pressed },
        50,
    );
    assert!(c.blocks_transition());
    assert!(c.check_synchronize().is_ok());
    c.synchronized();
    assert_eq!(c.state(), ControlState::Local);
    assert!(!c.is_recovering());
    assert!(!c.blocks_transition());
}
