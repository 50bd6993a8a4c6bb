use edgemouse::input::{KeyCode, KeyState, KeyboardEvent, MouseButton};
use edgemouse::keyboard::{
    has_mac_emergency_modifiers, is_mac_language_key, mac_button_number, mac_key_code,
    mac_key_state, mac_language_key_pressed, mac_modifier_flag, mac_modifier_flags,
    mac_virtual_key, may_restore, mouse_button_from_number, reconcile_mac_modifier_flags,
    remote_mac_key_code, route_mac_keyboard_event, CurrentFocus, KeyboardRoutingState,
    MacKeyboardInjector, EVENT_FLAGS_CHANGED, EVENT_KEY_DOWN, EVENT_KEY_UP, FLAG_ALTERNATE,
    FLAG_COMMAND, FLAG_CONTROL, FLAG_NUMERIC_PAD, FLAG_SECONDARY_FN, FLAG_SHIFT,
};
use std::collections::BTreeSet;

fn key(usage: u16) -> KeyCode {
    KeyCode::from_usage(usage).unwrap()
}

#[test]
fn maps_standard_and_extended_buttons() {
    assert_eq!(mouse_button_from_number(2), MouseButton::Middle);
    assert_eq!(mouse_button_from_number(3), MouseButton::Back);
    assert_eq!(mouse_button_from_number(4), MouseButton::Forward);
    assert_eq!(mouse_button_from_number(9), MouseButton::Other(9));
}

#[test]
fn maps_common_windows_keys_to_mac_virtual_keys() {
    assert_eq!(mac_virtual_key(KeyCode::a()), Some(0));
    assert_eq!(mac_virtual_key(key(0x28)), Some(36));
    assert_eq!(mac_virtual_key(KeyCode::left_meta()), Some(55));
    assert_eq!(mac_virtual_key(KeyCode::right_alt()), Some(61));
    assert_eq!(mac_virtual_key(key(0x50)), Some(123));
}

#[test]
fn maps_common_mac_virtual_keys_to_hid_usages() {
    assert_eq!(mac_key_code(0), Some(KeyCode::a()));
    assert_eq!(mac_key_code(36), Some(key(0x28)));
    assert_eq!(mac_key_code(55), Some(KeyCode::left_meta()));
    assert_eq!(mac_key_code(61), Some(KeyCode::right_alt()));
    assert_eq!(mac_key_code(123), Some(key(0x50)));
    assert_eq!(mac_key_code(u16::MAX), None);
}

#[test]
fn swaps_command_and_control_for_windows_shortcut_semantics() {
    assert_eq!(remote_mac_key_code(KeyCode::left_meta()), KeyCode::left_control());
    assert_eq!(remote_mac_key_code(KeyCode::right_meta()), KeyCode::right_control());
    assert_eq!(remote_mac_key_code(KeyCode::left_control()), KeyCode::left_meta());
    assert_eq!(remote_mac_key_code(KeyCode::right_control()), KeyCode::right_meta());
    assert_eq!(remote_mac_key_code(KeyCode::left_alt()), KeyCode::left_alt());
    assert_eq!(remote_mac_key_code(KeyCode::a()), KeyCode::a());
}

#[test]
fn mac_keys_held_before_handoff_remain_local_until_released() {
    let mut routing = KeyboardRoutingState::default();
    assert_eq!(
        route_mac_keyboard_event(&mut routing, KeyCode::left_meta(), KeyState::Pressed),
        (false, false, false)
    );
    let local_pressed = std::mem::take(&mut routing.local_pressed);
    routing.passthrough_pressed.extend(local_pressed);
    routing.remote = true;
    assert_eq!(
        route_mac_keyboard_event(&mut routing, KeyCode::left_meta(), KeyState::Released),
        (false, false, false)
    );
    assert!(routing.passthrough_pressed.is_empty());
}

#[test]
fn mac_remote_keys_stay_suppressed_until_physically_released() {
    let mut routing = KeyboardRoutingState {
        remote: true,
        ..KeyboardRoutingState::default()
    };
    assert_eq!(
        route_mac_keyboard_event(&mut routing, KeyCode::a(), KeyState::Pressed),
        (true, true, false)
    );
    assert_eq!(
        route_mac_keyboard_event(&mut routing, KeyCode::a(), KeyState::Pressed),
        (true, true, true)
    );
    routing.remote = false;
    assert_eq!(
        route_mac_keyboard_event(&mut routing, KeyCode::a(), KeyState::Released),
        (false, true, false)
    );
    assert!(routing.captured_pressed.is_empty());
}

#[test]
fn flags_changed_distinguishes_left_and_right_modifier_releases() {
    let mut routing = KeyboardRoutingState::default();
    routing.local_pressed.insert(KeyCode::left_shift().usage());
    routing.local_pressed.insert(KeyCode::right_shift().usage());
    assert_eq!(
        mac_key_state(EVENT_FLAGS_CHANGED, KeyCode::right_shift(), FLAG_SHIFT, &routing),
        Some(KeyState::Released)
    );
    routing.local_pressed.remove(&KeyCode::right_shift().usage());
    assert_eq!(
        mac_key_state(EVENT_FLAGS_CHANGED, KeyCode::right_shift(), FLAG_SHIFT, &routing),
        Some(KeyState::Pressed)
    );
}

#[test]
fn ordinary_key_events_recover_a_missed_modifier_transition() {
    let mut routing = KeyboardRoutingState {
        remote: true,
        ..KeyboardRoutingState::default()
    };
    assert_eq!(
        reconcile_mac_modifier_flags(&mut routing, FLAG_COMMAND),
        vec![KeyboardEvent {
            key: KeyCode::left_control(),
            state: KeyState::Pressed,
            repeat: false,
        }]
    );
    assert!(routing.captured_pressed.contains(&KeyCode::left_meta().usage()));
    assert!(reconcile_mac_modifier_flags(&mut routing, FLAG_COMMAND).is_empty());
    assert_eq!(
        reconcile_mac_modifier_flags(&mut routing, 0),
        vec![KeyboardEvent {
            key: KeyCode::left_control(),
            state: KeyState::Released,
            repeat: false,
        }]
    );
    assert!(routing.captured_pressed.is_empty());
}

#[test]
fn modifier_recovery_covers_option_and_physical_control() {
    let mut routing = KeyboardRoutingState {
        remote: true,
        ..KeyboardRoutingState::default()
    };
    assert_eq!(
        reconcile_mac_modifier_flags(&mut routing, FLAG_ALTERNATE | FLAG_CONTROL),
        vec![
            KeyboardEvent {
                key: KeyCode::left_meta(),
                state: KeyState::Pressed,
                repeat: false,
            },
            KeyboardEvent {
                key: KeyCode::left_alt(),
                state: KeyState::Pressed,
                repeat: false,
            },
        ]
    );
}

#[test]
fn mac_language_keys_trigger_only_on_press() {
    let mut routing = KeyboardRoutingState::default();
    assert!(is_mac_language_key(63));
    assert!(is_mac_language_key(102));
    assert!(is_mac_language_key(104));
    assert!(!is_mac_language_key(57));
    assert!(mac_language_key_pressed(EVENT_FLAGS_CHANGED, 63, FLAG_SECONDARY_FN, &routing));
    routing.function_key_down = true;
    assert!(!mac_language_key_pressed(EVENT_FLAGS_CHANGED, 63, FLAG_SECONDARY_FN, &routing));
    assert!(!mac_language_key_pressed(EVENT_FLAGS_CHANGED, 63, 0, &routing));
    assert!(mac_language_key_pressed(EVENT_KEY_DOWN, 102, 0, &routing));
    assert!(!mac_language_key_pressed(EVENT_KEY_UP, 102, 0, &routing));
}

#[test]
fn modifier_flags_follow_pressed_keys() {
    let pressed = BTreeSet::from([
        KeyCode::left_shift().usage(),
        KeyCode::left_meta().usage(),
        key(0x59).usage(),
    ]);
    assert_eq!(
        mac_modifier_flags(&pressed),
        FLAG_SHIFT | FLAG_COMMAND | FLAG_NUMERIC_PAD
    );
}

#[test]
fn handback_reasserts_only_the_original_responder_in_the_same_window() {
    for current in [CurrentFocus::SameInput, CurrentFocus::MissingOrWindow] {
        assert!(may_restore(true, true, current));
        assert!(!may_restore(false, true, current));
        assert!(!may_restore(true, false, current));
    }
}

#[test]
fn handback_never_steals_another_input_or_guesses_after_an_ax_failure() {
    for current in [CurrentFocus::Other, CurrentFocus::Unavailable] {
        assert!(!may_restore(true, true, current));
    }
}

#[test]
fn button_numbers_round_trip_through_core_graphics() {
    for number in [0_i64, 1, 2, 3, 4, 9, 255] {
        assert_eq!(i64::from(mac_button_number(mouse_button_from_number(number))), number);
    }
    assert_eq!(mouse_button_from_number(-3), MouseButton::Other(0));
    assert_eq!(mouse_button_from_number(1000), MouseButton::Other(255));
}

#[test]
fn every_mapped_virtual_key_maps_back() {
    for virtual_key in 0..=u16::from(u8::MAX) {
        if let Some(code) = mac_key_code(virtual_key) {
            assert_eq!(mac_virtual_key(code), Some(virtual_key));
        }
    }
}

#[test]
fn modifier_flags_and_emergency_chord() {
    assert_eq!(mac_modifier_flag(KeyCode::right_alt()), Some(FLAG_ALTERNATE));
    assert_eq!(mac_modifier_flag(KeyCode::a()), None);
    let chord = BTreeSet::from([0xe3_u16, 0xe2, 0xe5]);
    assert!(has_mac_emergency_modifiers(&chord));
    let partial = BTreeSet::from([0xe3_u16, 0xe2]);
    assert!(!has_mac_emergency_modifiers(&partial));
}

#[test]
fn injector_tracks_held_keys_and_flags() {
    let mut injector = MacKeyboardInjector::new();
    let pressed = KeyboardEvent { key: KeyCode::left_shift(), state: KeyState::Pressed, repeat: false };
    assert_eq!(injector.prepare(pressed).unwrap(), (56, FLAG_SHIFT));
    let a = KeyboardEvent { key: KeyCode::a(), state: KeyState::Pressed, repeat: false };
    assert_eq!(injector.prepare(a).unwrap(), (0, FLAG_SHIFT));
    assert_eq!(injector.held_keys(), vec![KeyCode::a(), KeyCode::left_shift()]);
    let unmapped = KeyboardEvent { key: key(0x65), state: KeyState::Pressed, repeat: false };
    let error = injector.prepare(unmapped).unwrap_err();
    assert_eq!(error.message(), "macOS has no mapping for keyboard usage 0x0065");
    injector.clear();
    assert!(injector.held_keys().is_empty());
}

#[test]
fn every_key_code_carries_a_usage_that_leads_back_to_it() {
    let mut keys = 0;
    for usage in 0..=u16::MAX {
        if let Some(key) = KeyCode::from_usage(usage) {
            keys += 1;
            assert_eq!(key.usage(), usage);
            assert_eq!(KeyCode::from_usage(key.usage()), Some(key));
        }
    }
    assert_eq!(keys, (0x65 - 0x04 + 1) + (0x6f - 0x67 + 1) + 8);
    for key in [KeyCode::a(), KeyCode::escape(), KeyCode::left_meta(), KeyCode::right_meta()] {
        assert_eq!(KeyCode::from_usage(key.usage()), Some(key));
    }
}
