//! Platform-neutral input events and the effects a session asks adapters to apply.
use crate::topology::{NodeId, ScreenId};
use vstd::prelude::*;

verus! {

#[derive(Debug, Clone, Copy, PartialEq, Eq, PartialOrd, Ord, Hash, Structural)]
pub enum MouseButton {
    Primary,
    Secondary,
    Middle,
    Back,
    Forward,
    Other(u8),
}

#[derive(Debug, Clone, Copy, PartialEq, Eq, Structural)]
pub enum ButtonState {
    Pressed,
    Released,
}

/// A distinct number for every mouse button, used to keep sets of held buttons.
pub open spec fn spec_button_code(button: MouseButton) -> u16 {
    match button {
        MouseButton::Primary => 0,
        MouseButton::Secondary => 1,
        MouseButton::Middle => 2,
        MouseButton::Back => 3,
        MouseButton::Forward => 4,
        MouseButton::Other(n) => (256 + n) as u16,
    }
}

#[verifier::when_used_as_spec(spec_button_code)]
pub fn button_code(button: MouseButton) -> (code: u16)
    ensures
        code == spec_button_code(button),
{
    match button {
        MouseButton::Primary => 0,
        MouseButton::Secondary => 1,
        MouseButton::Middle => 2,
        MouseButton::Back => 3,
        MouseButton::Forward => 4,
        MouseButton::Other(n) => 256 + n as u16,
    }
}

/// Distinct buttons have distinct codes.
pub proof fn law_button_code_injective(a: MouseButton, b: MouseButton)
    ensures
        spec_button_code(a) == spec_button_code(b) ==> a == b,
{
}

/// A platform-neutral USB HID keyboard usage. Keeping the wire representation
/// physical makes shortcuts and punctuation independent from the sender's
/// active text input method.
#[derive(Debug, Clone, Copy, PartialEq, Eq, PartialOrd, Ord, Hash, Structural)]
pub struct KeyCode(u16);

/// The HID usages that EdgeMouse accepts as keys.
pub open spec fn is_supported_usage(usage: u16) -> bool {
    (0x04 <= usage <= 0x65) || (0x67 <= usage <= 0x6f) || (0xe0 <= usage <= 0xe7)
}

/// The HID usages of the eight modifier keys.
pub open spec fn is_modifier_usage(usage: u16) -> bool {
    0xe0 <= usage <= 0xe7
}

impl KeyCode {
    /// Every key code carries a supported usage.
    #[verifier::type_invariant]
    spec fn carries_supported_usage(self) -> bool {
        is_supported_usage(self.0)
    }

    pub fn a() -> (key: KeyCode)
        ensures
            key.spec_usage() == 0x04,
    {
        KeyCode(0x04)
    }

    pub fn escape() -> (key: KeyCode)
        ensures
            key.spec_usage() == 0x29,
    {
        KeyCode(0x29)
    }

    pub fn space() -> (key: KeyCode)
        ensures
            key.spec_usage() == 0x2c,
    {
        KeyCode(0x2c)
    }

    pub fn caps_lock() -> (key: KeyCode)
        ensures
            key.spec_usage() == 0x39,
    {
        KeyCode(0x39)
    }

    pub fn left_control() -> (key: KeyCode)
        ensures
            key.spec_usage() == 0xe0,
    {
        KeyCode(0xe0)
    }

    pub fn left_shift() -> (key: KeyCode)
        ensures
            key.spec_usage() == 0xe1,
    {
        KeyCode(0xe1)
    }

    pub fn left_alt() -> (key: KeyCode)
        ensures
            key.spec_usage() == 0xe2,
    {
        KeyCode(0xe2)
    }

    pub fn left_meta() -> (key: KeyCode)
        ensures
            key.spec_usage() == 0xe3,
    {
        KeyCode(0xe3)
    }

    pub fn right_control() -> (key: KeyCode)
        ensures
            key.spec_usage() == 0xe4,
    {
        KeyCode(0xe4)
    }

    pub fn right_shift() -> (key: KeyCode)
        ensures
            key.spec_usage() == 0xe5,
    {
        KeyCode(0xe5)
    }

    pub fn right_alt() -> (key: KeyCode)
        ensures
            key.spec_usage() == 0xe6,
    {
        KeyCode(0xe6)
    }

    pub fn right_meta() -> (key: KeyCode)
        ensures
            key.spec_usage() == 0xe7,
    {
        KeyCode(0xe7)
    }

    /// The usage number that this key code carries.
    pub closed spec fn spec_usage(self) -> u16 {
        self.0
    }

    /// The key code carrying `usage`.
    pub open spec fn with_usage(usage: u16) -> KeyCode {
        choose|k: KeyCode| k.spec_usage() == usage
    }

    /// Every usage is carried by exactly one key code.
    pub proof fn lemma_usage_determines_key(a: KeyCode, b: KeyCode)
        ensures
            a.spec_usage() == b.spec_usage() ==> a == b,
            KeyCode::with_usage(a.spec_usage()) == a,
    {
        let k = KeyCode(a.spec_usage());
        assert(k.spec_usage() == a.spec_usage());
    }

    pub fn from_usage(usage: u16) -> (key: Option<KeyCode>)
        ensures
            key is Some <==> is_supported_usage(usage),
            key matches Some(k) ==> k.spec_usage() == usage,
            key == (if is_supported_usage(usage) {
                Some(KeyCode::with_usage(usage))
            } else {
                None
            }),
    {
        proof {
            let k = KeyCode(usage);
            assert(k.spec_usage() == usage);
            KeyCode::lemma_usage_determines_key(k, KeyCode::with_usage(usage));
        }
        if (0x04 <= usage && usage <= 0x65) || (0x67 <= usage && usage <= 0x6f) || (0xe0 <= usage
            && usage <= 0xe7) {
            Some(KeyCode(usage))
        } else {
            None
        }
    }

    /// The key's usage. Every key code carries a supported usage, and that
    /// usage leads back to the key: `from_usage(k.usage())` is `Some(k)`.
    #[verifier::when_used_as_spec(spec_usage)]
    pub fn usage(self) -> (usage: u16)
        ensures
            usage == self.spec_usage(),
            is_supported_usage(usage),
            KeyCode::with_usage(usage) == self,
    {
        proof {
            use_type_invariant(&self);
            KeyCode::lemma_usage_determines_key(self, self);
        }
        self.0
    }

    pub fn is_modifier(self) -> (modifier: bool)
        ensures
            modifier == is_modifier_usage(self.spec_usage()),
    {
        0xe0 <= self.0 && self.0 <= 0xe7
    }
}

#[derive(Debug, Clone, Copy, PartialEq, Eq, Structural)]
pub enum KeyState {
    Pressed,
    Released,
}

#[derive(Debug, Clone, Copy, PartialEq, Eq, Structural)]
pub struct KeyboardEvent {
    pub key: KeyCode,
    pub state: KeyState,
    pub repeat: bool,
}

#[derive(Debug, Clone, Copy, PartialEq, Eq, Structural)]
pub struct RoutedKeyboardEvent {
    pub sequence: u64,
    pub event: KeyboardEvent,
}

/// A mouse event sent to the peer that currently owns the pointer. `P` is a
/// pointer position and `W` a wheel delta, both supplied by the platform side.
#[derive(Debug, Clone, Copy, PartialEq)]
pub enum RemoteMouseEvent<P, W> {
    Enter { screen: ScreenId, position: P },
    MoveAbsolute { screen: ScreenId, position: P },
    Button { button: MouseButton, state: ButtonState },
    Wheel { horizontal: W, vertical: W },
    Leave,
    ReleaseAll,
}

#[derive(Debug, Clone, Copy, PartialEq)]
pub struct RoutedEvent<P, W> {
    pub sequence: u64,
    pub event: RemoteMouseEvent<P, W>,
}

#[derive(Debug, Clone, Copy, PartialEq, Eq, Structural)]
pub enum InputDisposition {
    PassThrough,
    Suppress,
}

#[derive(Debug, Clone, PartialEq)]
pub enum Effect<P, W> {
    CapturePointer { anchor: P },
    ReleasePointer { screen: ScreenId, restore_position: P },
    Send { peer: NodeId, event: RoutedEvent<P, W> },
    SendKeyboard { peer: NodeId, event: RoutedKeyboardEvent },
    PeerTimedOut { peer: NodeId },
}

#[derive(Debug, Clone, PartialEq)]
pub struct InputResult<P, W> {
    pub disposition: InputDisposition,
    pub effects: Vec<Effect<P, W>>,
}

impl<P, W> InputResult<P, W> {
    pub fn pass_through() -> (result: Self)
        ensures
            result.disposition == InputDisposition::PassThrough,
            result.effects@.len() == 0,
    {
        InputResult { disposition: InputDisposition::PassThrough, effects: Vec::new() }
    }

    pub fn suppress(effects: Vec<Effect<P, W>>) -> (result: Self)
        ensures
            result.disposition == InputDisposition::Suppress,
            result.effects@ == effects@,
    {
        InputResult { disposition: InputDisposition::Suppress, effects }
    }
}

} // verus!
