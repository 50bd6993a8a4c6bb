use edgemouse::input::{
    ButtonState, KeyCode, KeyState, KeyboardEvent, MouseButton, RemoteMouseEvent, RoutedEvent,
    RoutedKeyboardEvent,
};
use edgemouse::platform::{
    KeyInjection, KeyInjections, KeyboardInjectionBackend, PermissionState, PlatformError,
};
use edgemouse::receiver::{
    InjectorRequest, InjectorRequests, MouseInjectionBackend, ReceiverError, RemoteReceiver,
    RemoteTransition,
};
use edgemouse::topology::ScreenId;

type Point = (f64, f64);
type Event = RemoteMouseEvent<Point, f64>;

#[derive(Default)]
struct FakeInjector {
    events: Vec<Event>,
    releases: usize,
    log: Vec<InjectorRequest<Point, f64>>,
}

impl MouseInjectionBackend<Point, f64> for FakeInjector {
    // The record of requests is read only by the verifier; `log` keeps the
    // same record at run time.
    fn requests(&self) -> InjectorRequests<Point, f64> {
        unreachable!()
    }

    fn permission_state(&self) -> PermissionState {
        PermissionState::NotRequired
    }

    fn inject(&mut self, event: Event) -> Result<(), PlatformError> {
        self.events.push(event);
        self.log.push(InjectorRequest::Inject(event));
        Ok(())
    }

    fn release_all(&mut self) -> Result<(), PlatformError> {
        self.releases += 1;
        self.log.push(InjectorRequest::ReleaseAll);
        Ok(())
    }
}

#[derive(Default)]
struct FakeKeyboardInjector {
    events: Vec<KeyboardEvent>,
    log: Vec<KeyInjection>,
}

impl KeyboardInjectionBackend for FakeKeyboardInjector {
    fn requests(&self) -> KeyInjections {
        unreachable!()
    }

    fn permission_state(&self) -> PermissionState {
        PermissionState::NotRequired
    }

    fn inject(&mut self, event: KeyboardEvent) -> Result<(), PlatformError> {
        self.events.push(event);
        self.log.push(KeyInjection::Inject(event));
        Ok(())
    }

    fn release_all(&mut self) -> Result<(), PlatformError> {
        self.log.push(KeyInjection::ReleaseAll);
        Ok(())
    }
}

fn remote_receiver(timeout_ms: u64) -> RemoteReceiver<Point, f64> {
    RemoteReceiver::new(timeout_ms)
}

fn enter(sequence: u64, position: Point) -> RoutedEvent<Point, f64> {
    RoutedEvent {
        sequence,
        event: RemoteMouseEvent::Enter {
            screen: ScreenId(7),
            position,
        },
    }
}

#[test]
fn remote_receiver_requires_enter_and_deduplicates_sequences() {
    let mut receiver = remote_receiver(1_500);
    let mut injector = FakeInjector::default();
    let button = RoutedEvent {
        sequence: 2,
        event: RemoteMouseEvent::Button {
            button: MouseButton::Primary,
            state: ButtonState::Pressed,
        },
    };
    assert_eq!(
        receiver.handle(9, button, &mut injector, 10),
        Err(ReceiverError::MouseBeforeEnter)
    );
    assert_eq!(
        receiver.handle(9, enter(1, (5.0, 5.0)), &mut injector, 20).unwrap(),
        RemoteTransition::Started { position: (5.0, 5.0) }
    );
    receiver.handle(9, enter(1, (5.0, 5.0)), &mut injector, 21).unwrap();
    assert_eq!(injector.events.len(), 1);
    assert_eq!(
        receiver.handle(0, enter(1, (5.0, 5.0)), &mut injector, 22),
        Err(ReceiverError::ZeroMouseIds)
    );
}

#[test]
fn remote_timeout_releases_buttons() {
    let mut receiver = remote_receiver(100);
    let mut injector = FakeInjector::default();
    receiver.handle(9, enter(1, (5.0, 5.0)), &mut injector, 10).unwrap();
    assert_eq!(receiver.poll_timeout(&mut injector, 109).unwrap(), None);
    assert_eq!(
        receiver.poll_timeout(&mut injector, 111).unwrap(),
        Some((5.0, 5.0))
    );
    assert!(injector.releases >= 2);
    assert!(!receiver.is_active());
}

#[test]
fn keyboard_requires_an_active_mouse_handoff_and_shares_ordering() {
    let mut receiver = remote_receiver(1_500);
    let mut mouse = FakeInjector::default();
    let mut keyboard = FakeKeyboardInjector::default();
    let key = RoutedKeyboardEvent {
        sequence: 2,
        event: KeyboardEvent {
            key: KeyCode::a(),
            state: KeyState::Pressed,
            repeat: false,
        },
    };
    assert!(receiver.handle_keyboard(9, key, &mut keyboard, 5).is_err());
    receiver.handle(9, enter(1, (5.0, 5.0)), &mut mouse, 10).unwrap();
    receiver.handle_keyboard(9, key, &mut keyboard, 20).unwrap();
    receiver.handle_keyboard(9, key, &mut keyboard, 21).unwrap();
    assert_eq!(keyboard.events, vec![key.event]);
    assert_eq!(receiver.last_sequence, 2);
    assert_eq!(receiver.last_reliable_sequence, 2);
}

#[test]
fn datagram_waits_for_its_reliable_control_watermark() {
    let mut receiver = remote_receiver(1_500);
    let mut injector = FakeInjector::default();
    let movement = RoutedEvent {
        sequence: 4,
        event: RemoteMouseEvent::MoveAbsolute {
            screen: ScreenId(7),
            position: (30.0, 40.0),
        },
    };
    assert_eq!(
        receiver.handle_datagram(9, 3, movement, &mut injector, 5).unwrap(),
        RemoteTransition::NoChange
    );
    assert!(injector.events.is_empty());

    receiver.handle(9, enter(1, (5.0, 5.0)), &mut injector, 10).unwrap();
    receiver.handle_datagram(9, 3, movement, &mut injector, 15).unwrap();
    assert_eq!(injector.events.len(), 1);

    let press = RoutedEvent {
        sequence: 3,
        event: RemoteMouseEvent::Button {
            button: MouseButton::Primary,
            state: ButtonState::Pressed,
        },
    };
    receiver.handle(9, press, &mut injector, 20).unwrap();
    assert_eq!(injector.events.len(), 2);
    assert_eq!(
        receiver.take_ready_datagram(&mut injector, 21).unwrap(),
        RemoteTransition::FirstMotion
    );
    assert_eq!(
        injector.events,
        vec![enter(1, (5.0, 5.0)).event, press.event, movement.event]
    );
}

#[test]
fn malformed_datagrams_are_refused() {
    let mut receiver = remote_receiver(1_500);
    let mut injector = FakeInjector::default();
    let movement = RoutedEvent {
        sequence: 4,
        event: RemoteMouseEvent::MoveAbsolute {
            screen: ScreenId(7),
            position: (30.0, 40.0),
        },
    };
    assert_eq!(
        receiver.handle_datagram(9, 4, movement, &mut injector, 5),
        Err(ReceiverError::InvalidWatermark)
    );
    let leave = RoutedEvent {
        sequence: 4,
        event: RemoteMouseEvent::Leave,
    };
    assert_eq!(
        receiver.handle_datagram(9, 1, leave, &mut injector, 5),
        Err(ReceiverError::DatagramNotMovement)
    );
}

#[test]
fn remote_leave_returns_the_last_injected_position() {
    let mut receiver = remote_receiver(1_500);
    let mut injector = FakeInjector::default();
    receiver.handle(9, enter(1, (1.0, 5.0)), &mut injector, 10).unwrap();
    let movement = RoutedEvent {
        sequence: 2,
        event: RemoteMouseEvent::MoveAbsolute {
            screen: ScreenId(7),
            position: (30.0, 40.0),
        },
    };
    assert_eq!(
        receiver.handle(9, movement, &mut injector, 20).unwrap(),
        RemoteTransition::FirstMotion
    );
    let leave = RoutedEvent {
        sequence: 3,
        event: RemoteMouseEvent::Leave,
    };
    assert_eq!(
        receiver.handle(9, leave, &mut injector, 30).unwrap(),
        RemoteTransition::Ended { position: (30.0, 40.0) }
    );
    assert!(!receiver.is_active());
    assert_eq!(receiver.reset(&mut injector), None);
}

#[test]
fn the_injector_is_asked_for_exactly_what_the_peer_sent() {
    let mut receiver = remote_receiver(100);
    let mut injector = FakeInjector::default();
    let mut keyboard = FakeKeyboardInjector::default();
    receiver.handle(9, enter(1, (5.0, 5.0)), &mut injector, 10).unwrap();
    let press = RoutedEvent {
        sequence: 2,
        event: RemoteMouseEvent::Button {
            button: MouseButton::Primary,
            state: ButtonState::Pressed,
        },
    };
    receiver.handle(9, press, &mut injector, 11).unwrap();
    // A stale event is dropped without asking the injector for anything.
    receiver.handle(9, press, &mut injector, 12).unwrap();
    let key = RoutedKeyboardEvent {
        sequence: 3,
        event: KeyboardEvent {
            key: KeyCode::escape(),
            state: KeyState::Pressed,
            repeat: false,
        },
    };
    receiver.handle_keyboard(9, key, &mut keyboard, 13).unwrap();
    assert_eq!(receiver.poll_timeout(&mut injector, 500).unwrap(), Some((5.0, 5.0)));
    assert_eq!(
        injector.log,
        vec![
            InjectorRequest::ReleaseAll,
            InjectorRequest::Inject(enter(1, (5.0, 5.0)).event),
            InjectorRequest::Inject(press.event),
            InjectorRequest::ReleaseAll,
        ]
    );
    assert_eq!(keyboard.log, vec![KeyInjection::Inject(key.event)]);
    receiver.reset(&mut injector);
    assert_eq!(injector.log.last(), Some(&InjectorRequest::ReleaseAll));
}

struct RefusingInjector {
    log: Vec<InjectorRequest<Point, f64>>,
}

impl MouseInjectionBackend<Point, f64> for RefusingInjector {
    fn requests(&self) -> InjectorRequests<Point, f64> {
        unreachable!()
    }

    fn permission_state(&self) -> PermissionState {
        PermissionState::Denied
    }

    fn inject(&mut self, event: Event) -> Result<(), PlatformError> {
        self.log.push(InjectorRequest::Inject(event));
        Err(PlatformError::new("injection refused".to_owned()))
    }

    fn release_all(&mut self) -> Result<(), PlatformError> {
        self.log.push(InjectorRequest::ReleaseAll);
        Err(PlatformError::new("release refused".to_owned()))
    }
}

#[test]
fn a_platform_refusal_leaves_the_receiver_as_it_was() {
    let mut receiver = remote_receiver(1_500);
    let mut injector = RefusingInjector { log: Vec::new() };
    let before = receiver;
    match receiver.handle(9, enter(1, (5.0, 5.0)), &mut injector, 10) {
        Err(ReceiverError::Platform(error)) => assert_eq!(error.message(), "release refused"),
        other => panic!("unexpected {other:?}"),
    }
    assert_eq!(receiver, before);
    assert_eq!(injector.log, vec![InjectorRequest::ReleaseAll]);
}
