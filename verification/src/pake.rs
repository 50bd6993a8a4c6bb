//! One side of a SPAKE2 key agreement, run through the `spake2` crate. A
//! session is only made by starting an agreement, so the side it reports is
//! the side of the state it holds.
use spake2::{Ed25519Group, Identity as SpakeIdentity, Password, Spake2};
use vstd::prelude::*;

verus! {

/// The `spake2` crate's state of one side, `Spake2<Ed25519Group>`. The
/// library never looks inside it: it is made when an agreement starts and
/// consumed when the agreement finishes, and the crate's type is generic over
/// a group trait of its own, so it is held as an opaque value.
#[verifier::external_body]
pub struct PakeState {
    state: Spake2<Ed25519Group>,
}

/// Why the SPAKE2 crate refused the other side's message.
#[derive(Debug, Clone, Copy, PartialEq, Eq, Structural)]
pub enum SpakeFault {
    BadSide,
    CorruptMessage,
    WrongLength,
}

/// The text the SPAKE2 crate gives each of its errors.
pub open spec fn spake_fault_text(fault: SpakeFault) -> Seq<char> {
    match fault {
        SpakeFault::BadSide => "bad side"@,
        SpakeFault::CorruptMessage => "corrupt message"@,
        SpakeFault::WrongLength => "invalid length"@,
    }
}

pub fn spake_fault_message(fault: SpakeFault) -> (text: &'static str)
    ensures
        text@ == spake_fault_text(fault),
{
    match fault {
        SpakeFault::BadSide => "bad side",
        SpakeFault::CorruptMessage => "corrupt message",
        SpakeFault::WrongLength => "invalid length",
    }
}

/// One side of a SPAKE2 key agreement in progress. Its fields are private:
/// only `spake_start_joiner` and `spake_start_host` make one, each with the
/// side of the state it starts.
pub struct PakeSession {
    host: bool,
    state: PakeState,
}

impl PakeSession {
    /// Whether this is the host's side, side B of the agreement.
    pub closed spec fn is_host(&self) -> bool {
        self.host
    }
}

/// The first byte of the messages each side sends: `A` (0x41) for the
/// joiner, `B` (0x42) for the host.
pub open spec fn side_byte(host: bool) -> u8 {
    if host {
        0x42u8
    } else {
        0x41u8
    }
}

/// `Spake2::<Ed25519Group>::start_a` with the code as password: the joiner's
/// state, side A, and its message, which is the side byte `A` and a 32-byte
/// curve point, the compressed form of a point that therefore decompresses
/// again. The point rests on a random scalar drawn through `OsRng`, so nothing
/// more is stated of it; `OsRng` panics if the system's generator fails.
#[verifier::external_body]
pub(crate) fn spake_start_joiner(code: &str, id_a: &[u8], id_b: &[u8]) -> (started: (
    PakeSession,
    Vec<u8>,
))
    ensures
        started.0.is_host() == false,
        started.1@.len() == 33,
        started.1@[0] == side_byte(false),
        spake_element_decodes(started.1@.subrange(1, 33)),
{
    let (state, message) = Spake2::<Ed25519Group>::start_a(
        &Password::new(code.as_bytes()),
        &SpakeIdentity::new(id_a),
        &SpakeIdentity::new(id_b),
    );
    (PakeSession { host: false, state: PakeState { state } }, message)
}

/// `Spake2::<Ed25519Group>::start_b` with the code as password: the host's
/// state, side B, and its message, which is the side byte `B` and a 32-byte
/// curve point, the compressed form of a point that therefore decompresses
/// again. As for the joiner, the point rests on a random scalar drawn through
/// `OsRng`, which panics if the system's generator fails.
#[verifier::external_body]
pub(crate) fn spake_start_host(code: &str, id_a: &[u8], id_b: &[u8]) -> (started: (
    PakeSession,
    Vec<u8>,
))
    ensures
        started.0.is_host() == true,
        started.1@.len() == 33,
        started.1@[0] == side_byte(true),
        spake_element_decodes(started.1@.subrange(1, 33)),
{
    let (state, message) = Spake2::<Ed25519Group>::start_b(
        &Password::new(code.as_bytes()),
        &SpakeIdentity::new(id_a),
        &SpakeIdentity::new(id_b),
    );
    (PakeSession { host: true, state: PakeState { state } }, message)
}

/// Whether 32 bytes are the compressed form of a point of the Ed25519 curve:
/// what `Ed25519Group::bytes_to_element` (a decompression) accepts.
pub uninterp spec fn spake_element_decodes(bytes: Seq<u8>) -> bool;

/// `Spake2::finish` on the other side's message: a message that is not 33
/// bytes is refused as `WrongLength`; one whose first byte is not the other
/// side's (`B` for a joiner's state, `A` for a host's) is refused as
/// `BadSide`; otherwise it is accepted exactly when its last 32 bytes
/// decompress to a curve point (else `CorruptMessage`), which depends on
/// those bytes alone. An accepted message yields the 32-byte SHA-256 session
/// key; its value depends on the session's random scalar and is not stated.
#[verifier::external_body]
pub(crate) fn spake_finish(session: PakeSession, message: &[u8]) -> (key: Result<
    Vec<u8>,
    SpakeFault,
>)
    ensures
        message@.len() != 33 ==> key matches Err(SpakeFault::WrongLength),
        message@.len() == 33 && message@[0] != side_byte(!session.is_host()) ==> key matches Err(
            SpakeFault::BadSide,
        ),
        message@.len() == 33 && message@[0] == side_byte(!session.is_host()) ==> (key is Ok
            <==> spake_element_decodes(message@.subrange(1, 33))),
        message@.len() == 33 && message@[0] == side_byte(!session.is_host())
            && !spake_element_decodes(message@.subrange(1, 33)) ==> key matches Err(
            SpakeFault::CorruptMessage,
        ),
        key matches Ok(k) ==> k@.len() == 32,
{
    match session.state.state.finish(message) {
        Ok(key) => Ok(key),
        Err(spake2::Error::BadSide) => Err(SpakeFault::BadSide),
        Err(spake2::Error::CorruptMessage) => Err(SpakeFault::CorruptMessage),
        Err(spake2::Error::WrongLength) => Err(SpakeFault::WrongLength),
    }
}

} // verus!
