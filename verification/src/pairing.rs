//! Pairing two computers with a short one-time code: the offer a host
//! announces, the certificate records both sides exchange, and the HMAC tags
//! (keyed by the SPAKE2 session key) that authenticate them.
use crate::discovery::{has_control, is_control};
use crate::text::{concat2, concat3, utf8_text};
use crate::topology::NodeId;
use crate::wire::{
    be128, be16, be32, get_be128, get_be16, get_be32, lemma_be128, lemma_be16, lemma_be32,
    lemma_read_be128, lemma_read_be16, lemma_read_be32, push_be128, push_be16, push_be32,
    push_bytes, read_be128, read_be16, read_be32, starts_with,
};
use ring::hmac;
use ring::rand::SecureRandom;
use std::path::PathBuf;
use vstd::prelude::*;
use vstd::slice::slice_subrange;
use vstd::utf8::*;

verus! {

pub const PAIRING_PORT: u16 = 43893;
pub const PAIRING_NAME_MAX_LEN: usize = 63;
pub const PAIRING_CERTIFICATE_MAX_LEN: usize = 16384;
pub const PAIRING_DISCOVERY_HEADER_LEN: usize = 27;
pub const PAIRING_DISCOVERY_MAX_LEN: usize = 90;
pub const PAIRING_RECORD_HEADER_LEN: usize = 30;
pub const PAIRING_RECORD_MAX_LEN: usize = 16477;
pub const SPAKE_MESSAGE_LEN: usize = 33;
pub const EXCHANGE_MESSAGE_LEN: usize = 57;
pub const HMAC_LEN: usize = 32;
pub const MAX_ATTEMPTS: usize = 3;
pub const ROLE_JOINER: u8 = 65;
pub const ROLE_HOST: u8 = 66;

/// `EDGPAIR1`, the first bytes of an offer.
pub open spec fn offer_magic() -> Seq<u8> {
    seq![69u8, 68u8, 71u8, 80u8, 65u8, 73u8, 82u8, 49u8]
}

/// `EDGPAKE1`, the first bytes of a key-exchange message.
pub open spec fn exchange_magic() -> Seq<u8> {
    seq![69u8, 68u8, 71u8, 80u8, 65u8, 75u8, 69u8, 49u8]
}

/// `EDGCERT1`, the first bytes of a certificate record.
pub open spec fn record_magic() -> Seq<u8> {
    seq![69u8, 68u8, 71u8, 67u8, 69u8, 82u8, 84u8, 49u8]
}

fn offer_magic_bytes() -> (magic: Vec<u8>)
    ensures
        magic@ == offer_magic(),
{
    let magic = vec![69u8, 68, 71, 80, 65, 73, 82, 49];
    assert(magic@ =~= offer_magic());
    magic
}

fn exchange_magic_bytes() -> (magic: Vec<u8>)
    ensures
        magic@ == exchange_magic(),
{
    let magic = vec![69u8, 68, 71, 80, 65, 75, 69, 49];
    assert(magic@ =~= exchange_magic());
    magic
}

fn record_magic_bytes() -> (magic: Vec<u8>)
    ensures
        magic@ == record_magic(),
{
    let magic = vec![69u8, 68, 71, 67, 69, 82, 84, 49];
    assert(magic@ =~= record_magic());
    magic
}

pub open spec fn record_label() -> Seq<u8> {
    encode_utf8("edgemouse-pairing-v1-record"@)
}

pub open spec fn confirm_label() -> Seq<u8> {
    encode_utf8("edgemouse-pairing-v1-confirm"@)
}

pub open spec fn joiner_label() -> Seq<u8> {
    encode_utf8("edgemouse-pairing-v1-joiner"@)
}

pub open spec fn host_label() -> Seq<u8> {
    encode_utf8("edgemouse-pairing-v1-host"@)
}

#[verifier::external_type_specification]
#[verifier::external_body]
pub struct ExPathBuf(PathBuf);

/// `PathBuf::clone`: a copy of the path. Nothing is stated of it: a path's
/// contents are opaque here and only carried through.
pub assume_specification[ <PathBuf as Clone>::clone ](path: &PathBuf) -> PathBuf;

/// What this computer brings to a pairing. The discovery timeout is in
/// milliseconds.
#[derive(Debug, Clone)]
pub struct PairingConfig {
    pub local_name: String,
    pub local_certificate: Vec<u8>,
    pub local_node: NodeId,
    pub peer_certificate_path: PathBuf,
    pub timeout_ms: u64,
}

/// The outcome of a pairing.
#[derive(Debug, Clone)]
pub struct PairingResult {
    pub peer_name: String,
    pub peer_node: NodeId,
    pub certificate_path: PathBuf,
    pub certificate_installed: bool,
}

/// A pairing failure, with its message.
#[derive(Debug, Clone, PartialEq, Eq)]
pub struct PairingError {
    message: String,
}

impl PairingError {
    pub fn new(message: String) -> (error: PairingError)
        ensures
            error.spec_message() == message@,
    {
        PairingError { message }
    }

    /// An input/output failure: `context: detail`.
    pub fn io(context: &str, detail: &str) -> (error: PairingError)
        ensures
            error.spec_message() == context@ + ": "@ + detail@,
    {
        PairingError { message: concat3(context, ": ", detail) }
    }

    pub closed spec fn spec_message(&self) -> Seq<char> {
        self.message@
    }

    pub fn message(&self) -> (text: &str)
        ensures
            text@ == self.spec_message(),
    {
        self.message.as_str()
    }
}

fn error(message: &str) -> (error: PairingError)
    ensures
        error.spec_message() == message@,
{
    PairingError::new(message.to_owned())
}

/// What is wrong with a device name, if anything.
pub open spec fn pairing_name_fault(name: Seq<char>) -> Option<Seq<char>> {
    if name.len() == 0 {
        Some("pairing device name cannot be empty"@)
    } else if encode_utf8(name).len() > PAIRING_NAME_MAX_LEN {
        Some("pairing device name cannot exceed 63 UTF-8 bytes"@)
    } else if exists|i: int| 0 <= i < name.len() && is_control(#[trigger] name[i]) {
        Some("pairing device name cannot contain control characters"@)
    } else {
        None
    }
}

pub fn validate_name(name: &str) -> (checked: Result<(), PairingError>)
    ensures
        match pairing_name_fault(name@) {
            None => checked is Ok,
            Some(m) => checked matches Err(e) && e.spec_message() == m,
        },
{
    if name.is_empty() {
        return Err(error("pairing device name cannot be empty"));
    }
    if name.as_bytes().len() > PAIRING_NAME_MAX_LEN {
        return Err(error("pairing device name cannot exceed 63 UTF-8 bytes"));
    }
    if has_control(name) {
        return Err(error("pairing device name cannot contain control characters"));
    }
    Ok(())
}

/// What is wrong with a pairing configuration, if anything.
pub open spec fn config_fault(
    name: Seq<char>,
    certificate: Seq<u8>,
    node: u128,
    timeout_ms: u64,
) -> Option<Seq<char>> {
    if pairing_name_fault(name) is Some {
        pairing_name_fault(name)
    } else if certificate.len() == 0 || certificate.len() > PAIRING_CERTIFICATE_MAX_LEN {
        Some("local certificate must contain 1 to 16384 bytes"@)
    } else if node == 0 {
        Some("local node ID cannot be zero"@)
    } else if timeout_ms == 0 {
        Some("pairing discovery timeout must be greater than zero"@)
    } else {
        None
    }
}

pub fn validate_config(config: &PairingConfig) -> (checked: Result<(), PairingError>)
    ensures
        match config_fault(
            config.local_name@,
            config.local_certificate@,
            config.local_node.0,
            config.timeout_ms,
        ) {
            None => checked is Ok,
            Some(m) => checked matches Err(e) && e.spec_message() == m,
        },
{
    validate_name(config.local_name.as_str())?;
    if config.local_certificate.len() == 0 || config.local_certificate.len()
        > PAIRING_CERTIFICATE_MAX_LEN {
        return Err(error("local certificate must contain 1 to 16384 bytes"));
    }
    if config.local_node.0 == 0 {
        return Err(error("local node ID cannot be zero"));
    }
    if config.timeout_ms == 0 {
        return Err(error("pairing discovery timeout must be greater than zero"));
    }
    Ok(())
}

/// The characters of a typed code without its separators (`-` and spaces).
pub open spec fn code_digits(code: Seq<char>) -> Seq<char>
    decreases code.len(),
{
    if code.len() == 0 {
        code
    } else if code.last() == '-' || code.last() == ' ' {
        code_digits(code.drop_last())
    } else {
        code_digits(code.drop_last()).push(code.last())
    }
}

/// Whether a text is exactly eight ASCII digits.
pub open spec fn is_code(digits: Seq<char>) -> bool {
    digits.len() == 8 && forall|i: int| 0 <= i < 8 ==> '0' <= #[trigger] digits[i] <= '9'
}

/// Reads a typed pairing code such as `1234-5678` or `1234 5678`: without its
/// separators it must be exactly eight ASCII digits.
pub fn normalize_code(value: &str) -> (code: Result<String, PairingError>)
    ensures
        is_code(code_digits(value@)) ==> (code matches Ok(c) && c@ == code_digits(value@)),
        !is_code(code_digits(value@)) ==> (code matches Err(e) && e.spec_message()
            == "pairing code must contain exactly 8 digits (for example 1234-5678)"@),
{
    let chars = crate::text::text_chars(value);
    let mut kept: Vec<char> = Vec::new();
    let mut i: usize = 0;
    while i < chars.len()
        invariant
            chars@ == value@,
            i <= chars@.len(),
            kept@ == code_digits(chars@.subrange(0, i as int)),
        decreases chars@.len() - i,
    {
        let c = chars[i];
        assert(chars@.subrange(0, i + 1).drop_last() =~= chars@.subrange(0, i as int));
        if c != '-' && c != ' ' {
            kept.push(c);
        }
        i = i + 1;
    }
    assert(chars@.subrange(0, chars@.len() as int) =~= chars@);
    if kept.len() != 8 {
        return Err(error("pairing code must contain exactly 8 digits (for example 1234-5678)"));
    }
    let mut digits: Vec<u8> = Vec::new();
    let mut j: usize = 0;
    while j < 8
        invariant
            kept@ == code_digits(value@),
            kept@.len() == 8,
            j <= 8,
            digits@ == Seq::new(j as nat, |k: int| kept@[k] as u8),
            forall|k: int| 0 <= k < j ==> '0' <= #[trigger] kept@[k] <= '9',
        decreases 8 - j,
    {
        let c = kept[j];
        if c < '0' || c > '9' {
            return Err(
                error("pairing code must contain exactly 8 digits (for example 1234-5678)"),
            );
        }
        digits.push(c as u8);
        j = j + 1;
        assert(digits@ =~= Seq::new(j as nat, |k: int| kept@[k] as u8));
    }
    assert forall|k: int| 0 <= k < 8 implies digits@[k] < 128 && (digits@[k] as char)
        == kept@[k] by {
        let c = kept@[k];
        assert('0' <= c <= '9');
        assert(digits@[k] == c as u8);
    }
    let text = crate::text::ascii_text(&digits);
    assert(text@ =~= code_digits(value@));
    Ok(text)
}

/// A code shown to the user: `1234-5678`.
pub fn format_code(code: &str) -> (shown: String)
    requires
        is_code(code@),
    ensures
        shown@ == code@.subrange(0, 4) + "-"@ + code@.subrange(4, 8),
{
    let chars = crate::text::text_chars(code);
    let mut bytes: Vec<u8> = Vec::new();
    let mut i: usize = 0;
    while i < 8
        invariant
            chars@ == code@,
            is_code(code@),
            i <= 8,
            bytes@.len() == if i <= 4 {
                i as int
            } else {
                i + 1
            },
            forall|j: int| 0 <= j < bytes@.len() ==> bytes@[j] < 128,
            forall|j: int|
                0 <= j < bytes@.len() ==> (bytes@[j] as char) == (code@.subrange(0, 4) + "-"@
                    + code@.subrange(4, 8))[j],
        decreases 8 - i,
    {
        proof {
            reveal_strlit("-");
        }
        if i == 4 {
            bytes.push(45u8);
        }
        let c = chars[i];
        assert('0' <= c <= '9');
        bytes.push(c as u8);
        i = i + 1;
    }
    proof {
        reveal_strlit("-");
    }
    let shown = crate::text::ascii_text(&bytes);
    assert(shown@ =~= code@.subrange(0, 4) + "-"@ + code@.subrange(4, 8));
    shown
}

/// Fills `dest` from the operating system's secure random generator
/// (`ring::rand::SystemRandom::fill`); false when the generator failed. Only
/// the length is stated: the bytes, and whether the generator fails, are
/// chance.
#[verifier::external_body]
fn fill_random(dest: &mut Vec<u8>) -> (filled: bool)
    ensures
        final(dest)@.len() == old(dest)@.len(),
{
    ring::rand::SystemRandom::new().fill(dest.as_mut_slice()).is_ok()
}

/// The code digits a batch of random bytes yields: each byte under 250 gives
/// the digit `byte % 10` (so every digit is equally likely), until eight are
/// collected.
pub open spec fn digits_from(digits: Seq<u8>, random: Seq<u8>) -> Seq<u8>
    decreases random.len(),
{
    if random.len() == 0 || digits.len() >= 8 {
        digits
    } else if random[0] < 250 {
        digits_from(digits.push((48 + random[0] % 10) as u8), random.drop_first())
    } else {
        digits_from(digits, random.drop_first())
    }
}

/// Appends the digits that `random` yields, stopping at eight.
pub fn append_code_digits(digits: &mut Vec<u8>, random: &[u8])
    requires
        old(digits)@.len() <= 8,
    ensures
        final(digits)@ == digits_from(old(digits)@, random@),
        final(digits)@.len() <= 8,
{
    let mut i: usize = 0;
    assert(random@.subrange(0, random@.len() as int) =~= random@);
    while i < random.len()
        invariant
            i <= random@.len(),
            digits@.len() <= 8,
            digits_from(old(digits)@, random@) == digits_from(
                digits@,
                random@.subrange(i as int, random@.len() as int),
            ),
        decreases random@.len() - i,
    {
        let ghost rest = random@.subrange(i as int, random@.len() as int);
        assert(rest.drop_first() =~= random@.subrange(i + 1, random@.len() as int));
        if digits.len() >= 8 {
            assert(digits_from(digits@, rest) == digits@);
            assert(digits_from(digits@, random@.subrange(random@.len() as int, random@.len() as int))
                == digits@);
            i = random.len();
        } else {
            let byte = random[i];
            if byte < 250 {
                digits.push(48 + byte % 10);
            }
            i = i + 1;
        }
    }
    assert(random@.subrange(random@.len() as int, random@.len() as int).len() == 0);
}

/// Whether every byte is an ASCII digit.
pub open spec fn all_ascii_digits(bytes: Seq<u8>) -> bool {
    forall|i: int| 0 <= i < bytes.len() ==> 48 <= #[trigger] bytes[i] <= 57
}

proof fn lemma_digits_from(digits: Seq<u8>, random: Seq<u8>)
    requires
        all_ascii_digits(digits),
    ensures
        all_ascii_digits(digits_from(digits, random)),
        digits_from(digits, random).len() >= digits.len(),
    decreases random.len(),
{
    if random.len() > 0 && digits.len() < 8 {
        if random[0] < 250 {
            let next = digits.push((48 + random[0] % 10) as u8);
            assert(all_ascii_digits(next));
            lemma_digits_from(next, random.drop_first());
        } else {
            lemma_digits_from(digits, random.drop_first());
        }
    }
}

/// Draws a fresh eight-digit code from the secure random generator, eight
/// random bytes at a time. Fails when the generator fails, or after 64 draws
/// without eight usable bytes.
pub fn generate_code() -> (code: Result<String, PairingError>)
    ensures
        code matches Ok(c) ==> is_code(c@),
        code matches Err(e) ==> e.spec_message() == "operating system random generator failed"@,
{
    let mut digits: Vec<u8> = Vec::new();
    let mut draws: usize = 0;
    while digits.len() < 8
        invariant
            digits@.len() <= 8,
            all_ascii_digits(digits@),
        decreases 64 - draws,
    {
        if draws >= 64 {
            return Err(error("operating system random generator failed"));
        }
        let mut random: Vec<u8> = vec![0u8; 8];
        if !fill_random(&mut random) {
            return Err(error("operating system random generator failed"));
        }
        proof {
            lemma_digits_from(digits@, random@);
        }
        append_code_digits(&mut digits, random.as_slice());
        draws = draws + 1;
    }
    let text = crate::text::ascii_text(&digits);
    proof {
        assert forall|i: int| 0 <= i < 8 implies '0' <= #[trigger] text@[i] <= '9' by {
            assert(48 <= digits@[i] <= 57);
        }
    }
    Ok(text)
}

/// Sixteen fresh random bytes (a one-time offer ID).
pub fn random_id() -> (id: Result<[u8; 16], PairingError>)
    ensures
        id matches Ok(a) ==> a@.len() == 16,
        id matches Err(e) ==> e.spec_message() == "operating system random generator failed"@,
{
    let mut random: Vec<u8> = vec![0u8; 16];
    if !fill_random(&mut random) {
        return Err(error("operating system random generator failed"));
    }
    let mut id = [0u8; 16];
    let mut i: usize = 0;
    while i < 16
        invariant
            random@.len() == 16,
            i <= 16,
        decreases 16 - i,
    {
        id[i] = random[i];
        i = i + 1;
    }
    Ok(id)
}

/// The one-time offer a pairing host announces.
#[derive(Debug, Clone, PartialEq, Eq)]
pub struct PairingOffer {
    pub id: [u8; 16],
    pub tcp_port: u16,
    pub name: String,
}

pub struct OfferView {
    pub id: Seq<u8>,
    pub tcp_port: u16,
    pub name: Seq<char>,
}

impl View for PairingOffer {
    type V = OfferView;

    open spec fn view(&self) -> OfferView {
        OfferView { id: self.id@, tcp_port: self.tcp_port, name: self.name@ }
    }
}

/// What is wrong with an offer to be announced, if anything.
pub open spec fn offer_fault(offer: OfferView) -> Option<Seq<char>> {
    if pairing_name_fault(offer.name) is Some {
        pairing_name_fault(offer.name)
    } else if offer.tcp_port == 0 {
        Some("pairing TCP port cannot be zero"@)
    } else {
        None
    }
}

/// The packet announcing an offer.
pub open spec fn offer_packet(offer: OfferView) -> Seq<u8> {
    let name = encode_utf8(offer.name);
    offer_magic() + offer.id + be16(offer.tcp_port) + seq![name.len() as u8] + name
}

pub fn encode_offer(offer: &PairingOffer) -> (packet: Result<Vec<u8>, PairingError>)
    ensures
        match offer_fault(offer@) {
            None => packet matches Ok(p) && p@ == offer_packet(offer@),
            Some(m) => packet matches Err(e) && e.spec_message() == m,
        },
{
    validate_name(offer.name.as_str())?;
    if offer.tcp_port == 0 {
        return Err(error("pairing TCP port cannot be zero"));
    }
    let name = offer.name.as_str().as_bytes();
    let mut packet = offer_magic_bytes();
    push_bytes(&mut packet, offer.id.as_slice());
    push_be16(&mut packet, offer.tcp_port);
    packet.push(name.len() as u8);
    push_bytes(&mut packet, name);
    assert(packet@ =~= offer_packet(offer@));
    Ok(packet)
}

/// What a received offer says, or the message of the first fault found in it.
pub open spec fn spec_decode_offer(p: Seq<u8>) -> Result<OfferView, Seq<char>> {
    if p.len() < PAIRING_DISCOVERY_HEADER_LEN {
        Err("pairing offer is truncated"@)
    } else if p.subrange(0, 8) != offer_magic() {
        Err("pairing offer has invalid magic"@)
    } else if read_be16(p.subrange(24, 26)) == 0 {
        Err("pairing offer port cannot be zero"@)
    } else if p[26] > PAIRING_NAME_MAX_LEN || p.len() != PAIRING_DISCOVERY_HEADER_LEN + p[26] {
        Err("pairing offer has an invalid device-name length"@)
    } else if !valid_utf8(p.subrange(PAIRING_DISCOVERY_HEADER_LEN as int, p.len() as int)) {
        Err("pairing device name is not valid UTF-8"@)
    } else {
        let name = decode_utf8(p.subrange(PAIRING_DISCOVERY_HEADER_LEN as int, p.len() as int));
        match pairing_name_fault(name) {
            Some(m) => Err(m),
            None => Ok(
                OfferView {
                    id: p.subrange(8, 24),
                    tcp_port: read_be16(p.subrange(24, 26)),
                    name,
                },
            ),
        }
    }
}

fn array16(bytes: &[u8], at: usize) -> (id: [u8; 16])
    requires
        at + 16 <= bytes@.len(),
    ensures
        id@ == bytes@.subrange(at as int, at + 16),
{
    let n = bytes.len();
    let mut id = [0u8; 16];
    let mut i: usize = 0;
    while i < 16
        invariant
            at + 16 <= bytes@.len(),
            n == bytes@.len(),
            i <= 16,
            forall|j: int| 0 <= j < i ==> id@[j] == bytes@[at + j],
        decreases 16 - i,
    {
        id[i] = bytes[at + i];
        i = i + 1;
    }
    assert(id@ =~= bytes@.subrange(at as int, at + 16));
    id
}

pub fn decode_offer(packet: &[u8]) -> (decoded: Result<PairingOffer, PairingError>)
    ensures
        match spec_decode_offer(packet@) {
            Ok(v) => decoded matches Ok(o) && o@ == v,
            Err(m) => decoded matches Err(e) && e.spec_message() == m,
        },
{
    if packet.len() < PAIRING_DISCOVERY_HEADER_LEN {
        return Err(error("pairing offer is truncated"));
    }
    let magic = offer_magic_bytes();
    if !starts_with(packet, magic.as_slice()) {
        return Err(error("pairing offer has invalid magic"));
    }
    let id = array16(packet, 8);
    let tcp_port = get_be16(packet, 24);
    if tcp_port == 0 {
        return Err(error("pairing offer port cannot be zero"));
    }
    let name_length = packet[26] as usize;
    if name_length > PAIRING_NAME_MAX_LEN || packet.len() != PAIRING_DISCOVERY_HEADER_LEN
        + name_length {
        return Err(error("pairing offer has an invalid device-name length"));
    }
    let name = match utf8_text(slice_subrange(packet, PAIRING_DISCOVERY_HEADER_LEN, packet.len())) {
        Some(name) => name,
        None => return Err(error("pairing device name is not valid UTF-8")),
    };
    validate_name(name.as_str())?;
    Ok(PairingOffer { id, tcp_port, name })
}

proof fn lemma_offer_layout(o: OfferView)
    requires
        o.id.len() == 16,
        encode_utf8(o.name).len() <= PAIRING_NAME_MAX_LEN,
    ensures
        ({
            let p = offer_packet(o);
            let name = encode_utf8(o.name);
            &&& p.len() == PAIRING_DISCOVERY_HEADER_LEN + name.len()
            &&& p.subrange(0, 8) == offer_magic()
            &&& p.subrange(8, 24) == o.id
            &&& p.subrange(24, 26) == be16(o.tcp_port)
            &&& p[26] == name.len()
            &&& p.subrange(PAIRING_DISCOVERY_HEADER_LEN as int, p.len() as int) == name
        }),
{
    let p = offer_packet(o);
    lemma_be16(o.tcp_port);
    assert(p.subrange(0, 8) =~= offer_magic());
    assert(p.subrange(8, 24) =~= o.id);
    assert(p.subrange(24, 26) =~= be16(o.tcp_port));
    assert(p.subrange(PAIRING_DISCOVERY_HEADER_LEN as int, p.len() as int) =~= encode_utf8(o.name));
}

/// An offer that may be announced is received as exactly that offer.
pub proof fn law_offer_round_trip(o: OfferView)
    requires
        o.id.len() == 16,
        offer_fault(o) is None,
    ensures
        spec_decode_offer(offer_packet(o)) == Ok::<OfferView, Seq<char>>(o),
{
    lemma_offer_layout(o);
    lemma_be16(o.tcp_port);
    encode_utf8_valid_utf8(o.name);
    encode_utf8_decode_utf8(o.name);
}

/// An accepted offer packet is exactly the packet of what it offers.
pub proof fn law_accepted_offer_is_canonical(p: Seq<u8>)
    requires
        spec_decode_offer(p) is Ok,
    ensures
        offer_fault(spec_decode_offer(p)->Ok_0) is None,
        offer_packet(spec_decode_offer(p)->Ok_0) == p,
{
    {
        let d = spec_decode_offer(p)->Ok_0;
        let name_bytes = p.subrange(PAIRING_DISCOVERY_HEADER_LEN as int, p.len() as int);
        decode_utf8_encode_utf8(name_bytes);
        lemma_read_be16(p.subrange(24, 26));
        lemma_offer_layout(d);
        assert(offer_packet(d) =~= p);
    }
}

/// The bounded frame an offer travels in over TCP: its length, then the packet.
pub fn tcp_offer_frame(offer: &PairingOffer) -> (frame: Result<Vec<u8>, PairingError>)
    ensures
        match offer_fault(offer@) {
            None => frame matches Ok(f) && f@ == be16(offer_packet(offer@).len() as u16)
                + offer_packet(offer@),
            Some(m) => frame matches Err(e) && e.spec_message() == m,
        },
{
    let packet = encode_offer(offer)?;
    assert(packet@.len() <= PAIRING_DISCOVERY_MAX_LEN);
    let mut frame: Vec<u8> = Vec::new();
    push_be16(&mut frame, packet.len() as u16);
    push_bytes(&mut frame, packet.as_slice());
    Ok(frame)
}

/// Whether a received TCP offer length is within the bounds of an offer.
pub fn tcp_offer_length_ok(length: u16) -> (ok: bool)
    ensures
        ok == (PAIRING_DISCOVERY_HEADER_LEN <= length <= PAIRING_DISCOVERY_MAX_LEN),
{
    PAIRING_DISCOVERY_HEADER_LEN as u16 <= length && length <= PAIRING_DISCOVERY_MAX_LEN as u16
}

/// The key-exchange message: magic, the offer ID, the SPAKE2 message.
pub open spec fn exchange_message_bytes(offer_id: Seq<u8>, spake: Seq<u8>) -> Seq<u8> {
    exchange_magic() + offer_id + spake
}

pub fn exchange_message(offer_id: &[u8; 16], spake_message: &[u8]) -> (message: Result<
    Vec<u8>,
    PairingError,
>)
    ensures
        spake_message@.len() == SPAKE_MESSAGE_LEN ==> (message matches Ok(m) && m@
            == exchange_message_bytes(offer_id@, spake_message@)),
        spake_message@.len() != SPAKE_MESSAGE_LEN ==> (message matches Err(e) && e.spec_message()
            == "invalid SPAKE2 message length"@),
{
    if spake_message.len() != SPAKE_MESSAGE_LEN {
        return Err(error("invalid SPAKE2 message length"));
    }
    let mut message = exchange_magic_bytes();
    push_bytes(&mut message, offer_id.as_slice());
    push_bytes(&mut message, spake_message);
    Ok(message)
}

/// Whether a received key-exchange message belongs to the offer `offer_id`.
pub fn exchange_matches(message: &[u8], offer_id: &[u8; 16]) -> (matches: bool)
    ensures
        matches == (message@.len() >= 24 && message@.subrange(0, 8) == exchange_magic()
            && message@.subrange(8, 24) == offer_id@),
{
    if message.len() < 24 {
        return false;
    }
    let magic = exchange_magic_bytes();
    if !starts_with(message, magic.as_slice()) {
        return false;
    }
    let rest = slice_subrange(message, 8, message.len());
    let same = starts_with(rest, offer_id.as_slice());
    assert(rest@.subrange(0, 16) =~= message@.subrange(8, 24));
    same
}

/// The certificate record one side sends.
#[derive(Debug, Clone, PartialEq, Eq)]
pub struct CertificateRecord {
    pub role: u8,
    pub node: NodeId,
    pub name: String,
    pub certificate: Vec<u8>,
}

pub struct RecordView {
    pub role: u8,
    pub node: u128,
    pub name: Seq<char>,
    pub certificate: Seq<u8>,
}

impl View for CertificateRecord {
    type V = RecordView;

    open spec fn view(&self) -> RecordView {
        RecordView {
            role: self.role,
            node: self.node.0,
            name: self.name@,
            certificate: self.certificate@,
        }
    }
}

/// This computer's record in the given role.
pub fn local_record(config: &PairingConfig, role: u8) -> (record: CertificateRecord)
    ensures
        record@ == (RecordView {
            role,
            node: config.local_node.0,
            name: config.local_name@,
            certificate: config.local_certificate@,
        }),
{
    CertificateRecord {
        role,
        node: config.local_node,
        name: config.local_name.clone(),
        certificate: config.local_certificate.clone(),
    }
}

/// What is wrong with a record to be sent, if anything.
pub open spec fn record_fault(r: RecordView) -> Option<Seq<char>> {
    if pairing_name_fault(r.name) is Some {
        pairing_name_fault(r.name)
    } else if r.role != ROLE_JOINER && r.role != ROLE_HOST {
        Some("invalid pairing role"@)
    } else if r.node == 0 {
        Some("certificate record node ID cannot be zero"@)
    } else if r.certificate.len() == 0 || r.certificate.len() > PAIRING_CERTIFICATE_MAX_LEN {
        Some("certificate record must contain 1 to 16384 bytes"@)
    } else {
        None
    }
}

/// The bytes of a record.
pub open spec fn record_payload(r: RecordView) -> Seq<u8> {
    let name = encode_utf8(r.name);
    record_magic().push(r.role) + be128(r.node) + seq![name.len() as u8] + be32(
        r.certificate.len() as u32,
    ) + name + r.certificate
}

pub fn encode_record(record: &CertificateRecord) -> (payload: Result<Vec<u8>, PairingError>)
    ensures
        match record_fault(record@) {
            None => payload matches Ok(p) && p@ == record_payload(record@),
            Some(m) => payload matches Err(e) && e.spec_message() == m,
        },
{
    validate_name(record.name.as_str())?;
    if record.role != ROLE_JOINER && record.role != ROLE_HOST {
        return Err(error("invalid pairing role"));
    }
    if record.node.0 == 0 {
        return Err(error("certificate record node ID cannot be zero"));
    }
    if record.certificate.len() == 0 || record.certificate.len() > PAIRING_CERTIFICATE_MAX_LEN {
        return Err(error("certificate record must contain 1 to 16384 bytes"));
    }
    let name = record.name.as_str().as_bytes();
    let mut payload = record_magic_bytes();
    payload.push(record.role);
    push_be128(&mut payload, record.node.0);
    payload.push(name.len() as u8);
    push_be32(&mut payload, record.certificate.len() as u32);
    push_bytes(&mut payload, name);
    push_bytes(&mut payload, record.certificate.as_slice());
    assert(payload@ =~= record_payload(record@));
    Ok(payload)
}

/// What a received record says, or the message of the first fault found in
/// its bytes. Whether the certificate is valid and yields the announced node
/// is checked afterwards (`check_record_identity`).
pub open spec fn spec_parse_record(p: Seq<u8>, expected_role: u8) -> Result<
    RecordView,
    Seq<char>,
> {
    if p.len() < PAIRING_RECORD_HEADER_LEN {
        Err("certificate record is truncated"@)
    } else if p.subrange(0, 8) != record_magic() {
        Err("certificate record has invalid magic"@)
    } else if p[8] != expected_role {
        Err("certificate record has the wrong role"@)
    } else {
        let name_length = p[25];
        let certificate_length = read_be32(p.subrange(26, 30));
        if name_length > PAIRING_NAME_MAX_LEN || certificate_length == 0 || certificate_length
            > PAIRING_CERTIFICATE_MAX_LEN || p.len() != PAIRING_RECORD_HEADER_LEN + name_length
            + certificate_length {
            Err("certificate record has invalid field lengths"@)
        } else {
            let name_end = PAIRING_RECORD_HEADER_LEN + name_length;
            let name_bytes = p.subrange(PAIRING_RECORD_HEADER_LEN as int, name_end);
            if !valid_utf8(name_bytes) {
                Err("paired device name is not valid UTF-8"@)
            } else {
                match pairing_name_fault(decode_utf8(name_bytes)) {
                    Some(m) => Err(m),
                    None => Ok(
                        RecordView {
                            role: p[8],
                            node: read_be128(p.subrange(9, 25)),
                            name: decode_utf8(name_bytes),
                            certificate: p.subrange(name_end, p.len() as int),
                        },
                    ),
                }
            }
        }
    }
}

pub fn parse_record(payload: &[u8], expected_role: u8) -> (record: Result<
    CertificateRecord,
    PairingError,
>)
    ensures
        match spec_parse_record(payload@, expected_role) {
            Ok(v) => record matches Ok(r) && r@ == v,
            Err(m) => record matches Err(e) && e.spec_message() == m,
        },
{
    if payload.len() < PAIRING_RECORD_HEADER_LEN {
        return Err(error("certificate record is truncated"));
    }
    let magic = record_magic_bytes();
    if !starts_with(payload, magic.as_slice()) {
        return Err(error("certificate record has invalid magic"));
    }
    let role = payload[8];
    if role != expected_role {
        return Err(error("certificate record has the wrong role"));
    }
    let node = get_be128(payload, 9);
    let name_length = payload[25] as usize;
    let certificate_length = get_be32(payload, 26) as usize;
    if name_length > PAIRING_NAME_MAX_LEN || certificate_length == 0 || certificate_length
        > PAIRING_CERTIFICATE_MAX_LEN || payload.len() != PAIRING_RECORD_HEADER_LEN + name_length
        + certificate_length {
        return Err(error("certificate record has invalid field lengths"));
    }
    let name_end = PAIRING_RECORD_HEADER_LEN + name_length;
    let name = match utf8_text(slice_subrange(payload, PAIRING_RECORD_HEADER_LEN, name_end)) {
        Some(name) => name,
        None => return Err(error("paired device name is not valid UTF-8")),
    };
    validate_name(name.as_str())?;
    let certificate = vstd::slice::slice_to_vec(slice_subrange(payload, name_end, payload.len()));
    Ok(CertificateRecord { role, node: NodeId(node), name, certificate })
}

/// Binds a received record to its certificate: `derived` is the node ID the
/// certificate yields, or why it is not a valid certificate. The record must
/// announce that node, and it must not be this computer's own.
pub fn check_record_identity(
    record: CertificateRecord,
    derived: Result<NodeId, String>,
    local_node: NodeId,
) -> (checked: Result<CertificateRecord, PairingError>)
    ensures
        match derived {
            Err(reason) => checked matches Err(e) && e.spec_message()
                == "paired certificate is invalid: "@ + reason@,
            Ok(node) => if record.node.0 != node.0 {
                checked matches Err(e) && e.spec_message()
                    == "paired certificate does not match its announced node ID"@
            } else if record.node.0 == local_node.0 {
                checked matches Err(e) && e.spec_message()
                    == "the other machine presented this machine's own certificate"@
            } else {
                checked matches Ok(r) && r@ == record@
            },
        },
{
    match derived {
        Err(reason) => {
            let message = concat2(
                "paired certificate is invalid: ",
                reason.as_str(),
            );
            Err(PairingError::new(message))
        },
        Ok(node) => {
            if record.node.0 != node.0 {
                return Err(error("paired certificate does not match its announced node ID"));
            }
            if record.node.0 == local_node.0 {
                return Err(error("the other machine presented this machine's own certificate"));
            }
            Ok(record)
        },
    }
}

proof fn lemma_record_layout(r: RecordView)
    requires
        encode_utf8(r.name).len() <= PAIRING_NAME_MAX_LEN,
        r.certificate.len() <= PAIRING_CERTIFICATE_MAX_LEN,
    ensures
        ({
            let p = record_payload(r);
            let name = encode_utf8(r.name);
            &&& p.len() == PAIRING_RECORD_HEADER_LEN + name.len() + r.certificate.len()
            &&& p.subrange(0, 8) == record_magic()
            &&& p[8] == r.role
            &&& p.subrange(9, 25) == be128(r.node)
            &&& p[25] == name.len()
            &&& p.subrange(26, 30) == be32(r.certificate.len() as u32)
            &&& p.subrange(30, 30int + name.len()) == name
            &&& p.subrange(30int + name.len(), p.len() as int) == r.certificate
        }),
{
    let p = record_payload(r);
    let name = encode_utf8(r.name);
    lemma_be128(r.node);
    lemma_be32(r.certificate.len() as u32);
    assert(p.subrange(0, 8) =~= record_magic());
    assert(p.subrange(9, 25) =~= be128(r.node));
    assert(p.subrange(26, 30) =~= be32(r.certificate.len() as u32));
    assert(p.subrange(30, 30int + name.len()) =~= name);
    assert(p.subrange(30int + name.len(), p.len() as int) =~= r.certificate);
}

/// A record that may be sent fits the bounds of a received record.
pub proof fn lemma_record_payload_bounded(r: RecordView)
    requires
        record_fault(r) is None,
    ensures
        PAIRING_RECORD_HEADER_LEN < record_payload(r).len() <= PAIRING_RECORD_MAX_LEN,
{
    lemma_record_layout(r);
}

/// A record that may be sent is read back as exactly that record by the side
/// expecting its role.
pub proof fn law_record_round_trip(r: RecordView)
    requires
        record_fault(r) is None,
    ensures
        spec_parse_record(record_payload(r), r.role) == Ok::<RecordView, Seq<char>>(r),
{
    lemma_record_layout(r);
    lemma_be128(r.node);
    lemma_be32(r.certificate.len() as u32);
    encode_utf8_valid_utf8(r.name);
    encode_utf8_decode_utf8(r.name);
}

/// An accepted record is exactly the bytes of the record it is read as.
pub proof fn law_accepted_record_is_canonical(p: Seq<u8>, role: u8)
    requires
        spec_parse_record(p, role) is Ok,
    ensures
        record_payload(spec_parse_record(p, role)->Ok_0) == p,
{
    {
        let d = spec_parse_record(p, role)->Ok_0;
        let name_length = p[25];
        let name_bytes = p.subrange(30, 30 + name_length);
        decode_utf8_encode_utf8(name_bytes);
        lemma_read_be128(p.subrange(9, 25));
        lemma_read_be32(p.subrange(26, 30));
        lemma_record_layout(d);
        assert(record_payload(d) =~= p);
    }
}

/// The data a record's tag authenticates: the label, the offer, both SPAKE2
/// messages and the record.
pub open spec fn record_auth_data(
    offer_id: Seq<u8>,
    client_spake: Seq<u8>,
    host_spake: Seq<u8>,
    payload: Seq<u8>,
) -> Seq<u8> {
    record_label() + offer_id + client_spake + host_spake + payload
}

pub fn record_authentication_data(
    offer_id: &[u8; 16],
    client_spake: &[u8],
    host_spake: &[u8],
    payload: &[u8],
) -> (data: Vec<u8>)
    ensures
        data@ == record_auth_data(offer_id@, client_spake@, host_spake@, payload@),
{
    let mut data: Vec<u8> = Vec::new();
    push_bytes(&mut data, "edgemouse-pairing-v1-record".as_bytes());
    push_bytes(&mut data, offer_id.as_slice());
    push_bytes(&mut data, client_spake);
    push_bytes(&mut data, host_spake);
    push_bytes(&mut data, payload);
    data
}

/// The data a key confirmation authenticates: the label, the offer, both
/// SPAKE2 messages, both records each after its length, and who confirms.
pub open spec fn confirmation_auth_data(
    offer_id: Seq<u8>,
    client_spake: Seq<u8>,
    host_spake: Seq<u8>,
    host_payload: Seq<u8>,
    client_payload: Seq<u8>,
    confirmer: Seq<u8>,
) -> Seq<u8> {
    confirm_label() + offer_id + client_spake + host_spake + be32(host_payload.len() as u32)
        + host_payload + be32(client_payload.len() as u32) + client_payload + confirmer
}

pub fn confirmation_authentication_data(
    offer_id: &[u8; 16],
    client_spake: &[u8],
    host_spake: &[u8],
    host_payload: &[u8],
    client_payload: &[u8],
    confirmer: &[u8],
) -> (data: Vec<u8>)
    ensures
        data@ == confirmation_auth_data(
            offer_id@,
            client_spake@,
            host_spake@,
            host_payload@,
            client_payload@,
            confirmer@,
        ),
{
    let mut data: Vec<u8> = Vec::new();
    push_bytes(&mut data, "edgemouse-pairing-v1-confirm".as_bytes());
    push_bytes(&mut data, offer_id.as_slice());
    push_bytes(&mut data, client_spake);
    push_bytes(&mut data, host_spake);
    push_be32(&mut data, host_payload.len() as u32);
    push_bytes(&mut data, host_payload);
    push_be32(&mut data, client_payload.len() as u32);
    push_bytes(&mut data, client_payload);
    push_bytes(&mut data, confirmer);
    data
}

/// The HMAC-SHA256 of `data` under `key`.
pub uninterp spec fn hmac_sha256(key: Seq<u8>, data: Seq<u8>) -> Seq<u8>;

/// Inputs short enough for SHA-256 (far below its 2^61-byte limit, where
/// `ring` would panic).
pub open spec fn hmac_input_ok(key: Seq<u8>, data: Seq<u8>) -> bool {
    key.len() < 0x1000_0000_0000_0000 && data.len() < 0x1000_0000_0000_0000
}

/// Record data built from parts that each fit in 32 bits is short enough.
pub(crate) proof fn lemma_record_auth_data_fits(
    key: Seq<u8>,
    offer_id: Seq<u8>,
    client_spake: Seq<u8>,
    host_spake: Seq<u8>,
    payload: Seq<u8>,
)
    requires
        key.len() <= u32::MAX,
        offer_id.len() <= u32::MAX,
        client_spake.len() <= u32::MAX,
        host_spake.len() <= u32::MAX,
        payload.len() <= u32::MAX,
    ensures
        hmac_input_ok(key, record_auth_data(offer_id, client_spake, host_spake, payload)),
{
    reveal_strlit("edgemouse-pairing-v1-record");
    vstd::utf8::is_ascii_chars_encode_utf8("edgemouse-pairing-v1-record"@);
}

/// Confirmation data built from parts that each fit in 32 bits is short enough.
pub(crate) proof fn lemma_confirmation_auth_data_fits(
    key: Seq<u8>,
    offer_id: Seq<u8>,
    client_spake: Seq<u8>,
    host_spake: Seq<u8>,
    host_payload: Seq<u8>,
    client_payload: Seq<u8>,
    confirmer: Seq<u8>,
)
    requires
        key.len() <= u32::MAX,
        offer_id.len() <= u32::MAX,
        client_spake.len() <= u32::MAX,
        host_spake.len() <= u32::MAX,
        host_payload.len() <= u32::MAX,
        client_payload.len() <= u32::MAX,
        confirmer.len() <= u32::MAX,
    ensures
        confirmation_inputs_ok(
            key,
            offer_id,
            client_spake,
            host_spake,
            host_payload,
            client_payload,
            confirmer,
        ),
{
    reveal_strlit("edgemouse-pairing-v1-confirm");
    vstd::utf8::is_ascii_chars_encode_utf8("edgemouse-pairing-v1-confirm"@);
}

/// `ring::hmac::sign` with an HMAC-SHA256 key made by `ring::hmac::Key::new`:
/// the 32-byte tag of `data` under `key`.
#[verifier::external_body]
fn hmac_sign(key: &[u8], data: &[u8]) -> (tag: Vec<u8>)
    requires
        hmac_input_ok(key@, data@),
    ensures
        tag@ == hmac_sha256(key@, data@),
        tag@.len() == HMAC_LEN,
{
    hmac::sign(&hmac::Key::new(hmac::HMAC_SHA256, key), data).as_ref().to_vec()
}

/// `ring::hmac::verify` with an HMAC-SHA256 key made by `ring::hmac::Key::new`:
/// accepts exactly when `tag` is the tag of `data` under `key`.
#[verifier::external_body]
fn hmac_verify(key: &[u8], data: &[u8], tag: &[u8]) -> (valid: bool)
    requires
        hmac_input_ok(key@, data@),
    ensures
        valid == (tag@ == hmac_sha256(key@, data@)),
{
    hmac::verify(&hmac::Key::new(hmac::HMAC_SHA256, key), data, tag).is_ok()
}

/// The tag that authenticates a record.
pub fn record_tag(
    shared_key: &[u8],
    offer_id: &[u8; 16],
    client_spake: &[u8],
    host_spake: &[u8],
    payload: &[u8],
) -> (tag: Vec<u8>)
    requires
        hmac_input_ok(shared_key@, record_auth_data(offer_id@, client_spake@, host_spake@, payload@)),
        payload@.len() <= PAIRING_RECORD_MAX_LEN,
    ensures
        tag@ == hmac_sha256(
            shared_key@,
            record_auth_data(offer_id@, client_spake@, host_spake@, payload@),
        ),
{
    let data = record_authentication_data(offer_id, client_spake, host_spake, payload);
    proof {
        reveal_strlit("edgemouse-pairing-v1-record");
        vstd::utf8::is_ascii_chars_encode_utf8("edgemouse-pairing-v1-record"@);
    }
    hmac_sign(shared_key, data.as_slice())
}

/// The frame of an authenticated record: its length, the record, its tag.
pub fn authenticated_record_frame(
    shared_key: &[u8],
    offer_id: &[u8; 16],
    client_spake: &[u8],
    host_spake: &[u8],
    payload: &[u8],
) -> (frame: Result<Vec<u8>, PairingError>)
    requires
        hmac_input_ok(shared_key@, record_auth_data(offer_id@, client_spake@, host_spake@, payload@)),
    ensures
        payload@.len() <= PAIRING_RECORD_MAX_LEN ==> (frame matches Ok(f) && f@ == be32(
            payload@.len() as u32,
        ) + payload@ + hmac_sha256(
            shared_key@,
            record_auth_data(offer_id@, client_spake@, host_spake@, payload@),
        )),
        payload@.len() > PAIRING_RECORD_MAX_LEN ==> (frame matches Err(e) && e.spec_message()
            == "certificate record is too large"@),
{
    if payload.len() > PAIRING_RECORD_MAX_LEN {
        return Err(error("certificate record is too large"));
    }
    let tag = record_tag(shared_key, offer_id, client_spake, host_spake, payload);
    let mut frame: Vec<u8> = Vec::new();
    push_be32(&mut frame, payload.len() as u32);
    push_bytes(&mut frame, payload);
    push_bytes(&mut frame, tag.as_slice());
    Ok(frame)
}

/// Whether a received record length is within the bounds of a record.
pub fn record_length_ok(length: u32) -> (ok: bool)
    ensures
        ok == (PAIRING_RECORD_HEADER_LEN <= length <= PAIRING_RECORD_MAX_LEN),
{
    PAIRING_RECORD_HEADER_LEN as u32 <= length && length <= PAIRING_RECORD_MAX_LEN as u32
}

/// Checks the tag of a received record, then reads it for `expected_role`.
pub fn authenticate_record(
    shared_key: &[u8],
    offer_id: &[u8; 16],
    client_spake: &[u8],
    host_spake: &[u8],
    payload: &[u8],
    tag: &[u8],
    expected_role: u8,
) -> (record: Result<CertificateRecord, PairingError>)
    requires
        hmac_input_ok(shared_key@, record_auth_data(offer_id@, client_spake@, host_spake@, payload@)),
        payload@.len() <= PAIRING_RECORD_MAX_LEN,
    ensures
        tag@ != hmac_sha256(
            shared_key@,
            record_auth_data(offer_id@, client_spake@, host_spake@, payload@),
        ) ==> (record matches Err(e) && e.spec_message()
            == "pairing authentication failed; verify the short code and restart both pairing commands"@),
        tag@ == hmac_sha256(
            shared_key@,
            record_auth_data(offer_id@, client_spake@, host_spake@, payload@),
        ) ==> match spec_parse_record(payload@, expected_role) {
            Ok(v) => record matches Ok(r) && r@ == v,
            Err(m) => record matches Err(e) && e.spec_message() == m,
        },
{
    let data = record_authentication_data(offer_id, client_spake, host_spake, payload);
    proof {
        reveal_strlit("edgemouse-pairing-v1-record");
        vstd::utf8::is_ascii_chars_encode_utf8("edgemouse-pairing-v1-record"@);
    }
    if !hmac_verify(shared_key, data.as_slice(), tag) {
        return Err(
            error(
                "pairing authentication failed; verify the short code and restart both pairing commands",
            ),
        );
    }
    parse_record(payload, expected_role)
}

/// The key and the confirmation data stay below SHA-256's input limit.
pub open spec fn confirmation_inputs_ok(
    shared_key: Seq<u8>,
    offer_id: Seq<u8>,
    client_spake: Seq<u8>,
    host_spake: Seq<u8>,
    host_payload: Seq<u8>,
    client_payload: Seq<u8>,
    confirmer: Seq<u8>,
) -> bool {
    hmac_input_ok(
        shared_key,
        confirmation_auth_data(
            offer_id,
            client_spake,
            host_spake,
            host_payload,
            client_payload,
            confirmer,
        ),
    )
}

/// The key confirmation `confirmer` sends.
pub fn confirmation_tag(
    shared_key: &[u8],
    offer_id: &[u8; 16],
    client_spake: &[u8],
    host_spake: &[u8],
    host_payload: &[u8],
    client_payload: &[u8],
    confirmer: &[u8],
) -> (tag: Vec<u8>)
    requires
        confirmation_inputs_ok(
            shared_key@,
            offer_id@,
            client_spake@,
            host_spake@,
            host_payload@,
            client_payload@,
            confirmer@,
        ),
    ensures
        tag@ == hmac_sha256(
            shared_key@,
            confirmation_auth_data(
                offer_id@,
                client_spake@,
                host_spake@,
                host_payload@,
                client_payload@,
                confirmer@,
            ),
        ),
{
    let data = confirmation_authentication_data(
        offer_id,
        client_spake,
        host_spake,
        host_payload,
        client_payload,
        confirmer,
    );
    proof {
        reveal_strlit("edgemouse-pairing-v1-confirm");
        vstd::utf8::is_ascii_chars_encode_utf8("edgemouse-pairing-v1-confirm"@);
    }
    hmac_sign(shared_key, data.as_slice())
}

/// Checks the key confirmation received from `confirmer`.
pub fn verify_confirmation(
    shared_key: &[u8],
    offer_id: &[u8; 16],
    client_spake: &[u8],
    host_spake: &[u8],
    host_payload: &[u8],
    client_payload: &[u8],
    confirmer: &[u8],
    received: &[u8],
) -> (verified: Result<(), PairingError>)
    requires
        confirmation_inputs_ok(
            shared_key@,
            offer_id@,
            client_spake@,
            host_spake@,
            host_payload@,
            client_payload@,
            confirmer@,
        ),
    ensures
        received@.len() != HMAC_LEN ==> (verified matches Err(e) && e.spec_message()
            == "pairing confirmation has invalid length"@),
        received@.len() == HMAC_LEN ==> (verified is Ok <==> received@ == hmac_sha256(
            shared_key@,
            confirmation_auth_data(
                offer_id@,
                client_spake@,
                host_spake@,
                host_payload@,
                client_payload@,
                confirmer@,
            ),
        )),
        received@.len() == HMAC_LEN && verified is Err ==> (verified matches Err(e)
            && e.spec_message() == "pairing key confirmation failed; no certificate was saved"@),
{
    if received.len() != HMAC_LEN {
        return Err(error("pairing confirmation has invalid length"));
    }
    let data = confirmation_authentication_data(
        offer_id,
        client_spake,
        host_spake,
        host_payload,
        client_payload,
        confirmer,
    );
    proof {
        reveal_strlit("edgemouse-pairing-v1-confirm");
        vstd::utf8::is_ascii_chars_encode_utf8("edgemouse-pairing-v1-confirm"@);
    }
    if !hmac_verify(shared_key, data.as_slice(), received) {
        return Err(error("pairing key confirmation failed; no certificate was saved"));
    }
    Ok(())
}

/// The SPAKE2 identities of the joiner (A) and the host (B) for one offer.
pub fn spake_identity_bytes(offer_id: &[u8; 16]) -> (ids: (Vec<u8>, Vec<u8>))
    ensures
        ids.0@ == joiner_label() + offer_id@,
        ids.1@ == host_label() + offer_id@,
{
    let mut id_a: Vec<u8> = Vec::new();
    push_bytes(&mut id_a, "edgemouse-pairing-v1-joiner".as_bytes());
    push_bytes(&mut id_a, offer_id.as_slice());
    let mut id_b: Vec<u8> = Vec::new();
    push_bytes(&mut id_b, "edgemouse-pairing-v1-host".as_bytes());
    push_bytes(&mut id_b, offer_id.as_slice());
    (id_a, id_b)
}

/// Whether a peer certificate may be installed at the path shown as `path`,
/// given what the file there holds (`None` when there is no file): an absent
/// file may be written (`false`), an identical one is already installed
/// (`true`), and a different one is never replaced.
pub fn ensure_certificate_installable(
    existing: Option<Vec<u8>>,
    certificate: &[u8],
    path: &str,
) -> (installable: Result<bool, PairingError>)
    ensures
        match existing {
            None => installable matches Ok(b) && !b,
            Some(bytes) => if bytes@ == certificate@ {
                installable matches Ok(b) && b
            } else {
                installable matches Err(e) && e.spec_message()
                    == "refusing to replace a different trusted certificate at "@ + path@
                    + "; move it aside only if you intentionally want to pair a different machine"@
            },
        },
{
    match existing {
        None => Ok(false),
        Some(bytes) => {
            assert(bytes@.subrange(0, bytes@.len() as int) =~= bytes@);
            if bytes.len() == certificate.len() && starts_with(bytes.as_slice(), certificate) {
                Ok(true)
            } else {
                Err(
                    PairingError::new(
                        concat3(
                            "refusing to replace a different trusted certificate at ",
                            path,
                            "; move it aside only if you intentionally want to pair a different machine",
                        ),
                    ),
                )
            }
        },
    }
}

/// How many temporary file names installing a certificate tries.
pub const TEMPORARY_NAME_TRIES: u32 = 10;

/// What installing a certificate does when the `tries`-th temporary file name
/// it drew was already taken: it draws another while fewer than
/// `TEMPORARY_NAME_TRIES` were tried, and gives up otherwise.
pub fn temporary_name_taken(tries: u32) -> (retry: Result<(), PairingError>)
    ensures
        tries < TEMPORARY_NAME_TRIES ==> retry is Ok,
        tries >= TEMPORARY_NAME_TRIES ==> (retry matches Err(e) && e.spec_message()
            == "failed to allocate a unique temporary certificate file"@),
{
    if tries < TEMPORARY_NAME_TRIES {
        Ok(())
    } else {
        Err(error("failed to allocate a unique temporary certificate file"))
    }
}

/// What installing a certificate concludes when publishing it at the path
/// shown as `path` failed, given what is now there (`None` when there is no
/// file): a file that another process wrote with the same certificate means
/// it is already installed (`Some(Ok(false))`), a different one is refused,
/// and with no file the failure itself is reported (`None`).
pub fn after_failed_publish(
    existing: Option<Vec<u8>>,
    certificate: &[u8],
    path: &str,
) -> (verdict: Option<Result<bool, PairingError>>)
    ensures
        match existing {
            None => verdict is None,
            Some(bytes) => if bytes@ == certificate@ {
                verdict matches Some(Ok(b)) && !b
            } else {
                verdict matches Some(Err(e)) && e.spec_message()
                    == "refusing to replace a different trusted certificate at "@ + path@
            },
        },
{
    match existing {
        None => None,
        Some(bytes) => {
            assert(bytes@.subrange(0, bytes@.len() as int) =~= bytes@);
            if bytes.len() == certificate.len() && starts_with(bytes.as_slice(), certificate) {
                Some(Ok(false))
            } else {
                Some(
                    Err(
                        PairingError::new(
                            concat2("refusing to replace a different trusted certificate at ", path),
                        ),
                    ),
                )
            }
        },
    }
}

/// What a host does after a connection's exchange failed after `attempts`
/// connections: it keeps listening while fewer than `MAX_ATTEMPTS` were made,
/// and otherwise stops with the last error.
pub fn rejected_attempt(attempts: usize, last: &PairingError) -> (stop: Option<PairingError>)
    ensures
        attempts < MAX_ATTEMPTS ==> stop is None,
        attempts >= MAX_ATTEMPTS ==> (stop matches Some(e) && e.spec_message()
            == "pairing stopped after 3 rejected attempts; restart it to get a new code (last error: "@
            + last.spec_message() + ")"@),
{
    if attempts < MAX_ATTEMPTS {
        return None;
    }
    Some(
        PairingError::new(
            concat3(
                "pairing stopped after 3 rejected attempts; restart it to get a new code (last error: ",
                last.message(),
                ")",
            ),
        ),
    )
}

/// The result of a finished pairing: the peer's record, where its certificate
/// is stored, and whether it was newly installed there.
pub fn finish_pairing(
    peer: CertificateRecord,
    certificate_path: PathBuf,
    certificate_installed: bool,
) -> (result: PairingResult)
    ensures
        result.peer_name@ == peer.name@,
        result.peer_node == peer.node,
        result.certificate_path == certificate_path,
        result.certificate_installed == certificate_installed,
{
    PairingResult {
        peer_name: peer.name,
        peer_node: peer.node,
        certificate_path,
        certificate_installed,
    }
}

/// A key confirmation covers both records and who confirms: two transcripts of
/// one offer and one key exchange that are equal carry the same host record,
/// the same joiner record and the same confirmer, so a tag for one never
/// stands for another.
pub proof fn law_confirmation_binds_transcript(
    offer_id: Seq<u8>,
    client_spake: Seq<u8>,
    host_spake: Seq<u8>,
    host_a: Seq<u8>,
    client_a: Seq<u8>,
    confirmer_a: Seq<u8>,
    host_b: Seq<u8>,
    client_b: Seq<u8>,
    confirmer_b: Seq<u8>,
)
    requires
        host_a.len() <= PAIRING_RECORD_MAX_LEN,
        client_a.len() <= PAIRING_RECORD_MAX_LEN,
        host_b.len() <= PAIRING_RECORD_MAX_LEN,
        client_b.len() <= PAIRING_RECORD_MAX_LEN,
        confirmation_auth_data(offer_id, client_spake, host_spake, host_a, client_a, confirmer_a)
            == confirmation_auth_data(
            offer_id,
            client_spake,
            host_spake,
            host_b,
            client_b,
            confirmer_b,
        ),
    ensures
        host_a == host_b,
        client_a == client_b,
        confirmer_a == confirmer_b,
{
    let prefix = confirm_label() + offer_id + client_spake + host_spake;
    let da = confirmation_auth_data(offer_id, client_spake, host_spake, host_a, client_a, confirmer_a);
    let db = confirmation_auth_data(offer_id, client_spake, host_spake, host_b, client_b, confirmer_b);
    let n: int = prefix.len() as int;
    lemma_be32(host_a.len() as u32);
    lemma_be32(host_b.len() as u32);
    assert(da.subrange(n, n + 4) =~= be32(host_a.len() as u32));
    assert(db.subrange(n, n + 4) =~= be32(host_b.len() as u32));
    assert(host_a.len() == host_b.len());
    let h: int = host_a.len() as int;
    assert(da.subrange(n + 4, n + 4 + h) =~= host_a);
    assert(db.subrange(n + 4, n + 4 + h) =~= host_b);
    lemma_be32(client_a.len() as u32);
    lemma_be32(client_b.len() as u32);
    assert(da.subrange(n + 4 + h, n + 8 + h) =~= be32(client_a.len() as u32));
    assert(db.subrange(n + 4 + h, n + 8 + h) =~= be32(client_b.len() as u32));
    assert(client_a.len() == client_b.len());
    let c: int = client_a.len() as int;
    assert(da.subrange(n + 8 + h, n + 8 + h + c) =~= client_a);
    assert(db.subrange(n + 8 + h, n + 8 + h + c) =~= client_b);
    assert(da.subrange(n + 8 + h + c, da.len() as int) =~= confirmer_a);
    assert(db.subrange(n + 8 + h + c, db.len() as int) =~= confirmer_b);
}

} // verus!
