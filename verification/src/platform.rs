//! The contracts between the session and the operating-system input adapters.
use crate::input::KeyboardEvent;
use vstd::prelude::*;

verus! {

#[derive(Debug, Clone, Copy, PartialEq, Eq, Structural)]
pub enum PermissionState {
    Granted,
    Denied,
    NotRequired,
    Unknown,
}

/// An error reported by a platform adapter.
#[derive(Debug, Clone, PartialEq, Eq)]
pub struct PlatformError {
    message: String,
}

impl PlatformError {
    pub fn new(message: String) -> (error: PlatformError)
        ensures
            error.spec_message() == message@,
    {
        PlatformError { message }
    }

    /// The text of the error.
    pub closed spec fn spec_message(&self) -> Seq<char> {
        self.message@
    }

    pub fn message(&self) -> (text: &str)
        ensures
            text@ == self.spec_message(),
    {
        self.message.as_str()
    }
}

/// OS keyboard capture. Implementations fail open if their non-blocking queue
/// cannot keep up, so EdgeMouse can never permanently trap local input.
pub trait KeyboardCaptureBackend {
    fn permission_state(&self) -> PermissionState;

    fn set_remote(&mut self, remote: bool) -> Result<(), PlatformError>;

    fn try_next_event(&mut self) -> Result<Option<KeyboardEvent>, PlatformError>;

    /// Whether the emergency release chord was seen since the last call; a
    /// backend without such a chord never reports one.
    fn take_emergency_release(&self) -> (released: bool)
        default_ensures
            !released,
    {
        false
    }
}

/// A request handed to a keyboard injector.
#[derive(Debug, Clone, Copy, PartialEq, Eq)]
pub enum KeyInjection {
    /// Inject this key event.
    Inject(KeyboardEvent),
    /// Release every key the injector holds down.
    ReleaseAll,
}

/// What a keyboard injector was asked to do, oldest first.
pub type KeyInjections = Seq<KeyInjection>;

/// OS keyboard injection. `requests` is the injector's record of what it was
/// asked to do, oldest first; every implementation keeps it: each call of
/// `inject` or `release_all` adds its request, whether or not the platform
/// then carried it out.
pub trait KeyboardInjectionBackend {
    spec fn requests(&self) -> KeyInjections;

    fn permission_state(&self) -> PermissionState;

    fn inject(&mut self, event: KeyboardEvent) -> (injected: Result<(), PlatformError>)
        ensures
            final(self).requests() == old(self).requests().push(KeyInjection::Inject(event)),
    ;

    fn release_all(&mut self) -> (released: Result<(), PlatformError>)
        ensures
            final(self).requests() == old(self).requests().push(KeyInjection::ReleaseAll),
    ;
}

/// What the agent reports about the platform it runs on.
#[derive(Debug, Clone, Copy, PartialEq, Eq)]
pub struct PlatformStatus {
    pub operating_system: &'static str,
    pub capture_api: &'static str,
    pub injection_api: &'static str,
    pub permission_granted: Option<bool>,
}

/// The status on macOS, given whether the accessibility permission is granted.
pub fn status(accessibility_trusted: bool) -> (status: PlatformStatus)
    ensures
        status.operating_system@ == "macOS"@,
        status.capture_api@ == "CGEventTap (implemented)"@,
        status.injection_api@ == "CGEventPost (implemented)"@,
        status.permission_granted == Some(accessibility_trusted),
{
    PlatformStatus {
        operating_system: "macOS",
        capture_api: "CGEventTap (implemented)",
        injection_api: "CGEventPost (implemented)",
        permission_granted: Some(accessibility_trusted),
    }
}

/// The status on Windows, where no permission is needed.
pub fn windows_status() -> (status: PlatformStatus)
    ensures
        status.operating_system@ == "Windows"@,
        status.capture_api@ == "Raw Input movement with WH_MOUSE_LL safety suppression"@,
        status.injection_api@ == "SendInput (implemented)"@,
        status.permission_granted is None,
{
    PlatformStatus {
        operating_system: "Windows",
        capture_api: "Raw Input movement with WH_MOUSE_LL safety suppression",
        injection_api: "SendInput (implemented)",
        permission_granted: None,
    }
}

/// The status on a platform without input adapters.
pub fn unsupported_status(operating_system: &'static str) -> (status: PlatformStatus)
    ensures
        status.operating_system@ == operating_system@,
        status.capture_api@ == "unsupported"@,
        status.injection_api@ == "unsupported"@,
        status.permission_granted is None,
{
    PlatformStatus {
        operating_system,
        capture_api: "unsupported",
        injection_api: "unsupported",
        permission_granted: None,
    }
}

} // verus!
