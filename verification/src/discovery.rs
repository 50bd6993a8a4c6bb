//! Finding the trusted peer on the local network: the UDP announcement each
//! agent broadcasts, and the checks on what is announced and received.
use crate::text::{concat3, decimal, spec_decimal, text_chars, utf8_text};
use crate::topology::NodeId;
use crate::wire::{
    be128, be16, get_be128, get_be16, lemma_be128, lemma_be16, lemma_read_be128, lemma_read_be16,
    push_be128, push_be16, push_bytes, read_be128, read_be16, starts_with,
};
use vstd::prelude::*;
use vstd::slice::slice_subrange;
use vstd::utf8::*;

verus! {

pub const DISCOVERY_PORT: u16 = 43892;
pub const DISCOVERY_VERSION: u8 = 1;
pub const DISCOVERY_NAME_MAX_LEN: usize = 63;
pub const DISCOVERY_HEADER_LEN: usize = 28;
pub const DISCOVERY_PACKET_MAX_LEN: usize = 91;

/// `EDGMOUSE`, the first bytes of every announcement.
pub open spec fn discovery_magic() -> Seq<u8> {
    seq![69u8, 68u8, 71u8, 77u8, 79u8, 85u8, 83u8, 69u8]
}

fn discovery_magic_bytes() -> (magic: Vec<u8>)
    ensures
        magic@ == discovery_magic(),
{
    let magic = vec![69u8, 68, 71, 77, 79, 85, 83, 69];
    assert(magic@ =~= discovery_magic());
    magic
}

/// What an agent needs to look for its peer. The timeout is in milliseconds.
#[derive(Debug, Clone)]
pub struct DiscoveryRequest {
    pub local_node: NodeId,
    pub expected_peer: NodeId,
    pub local_name: String,
    pub quic_port: u16,
    pub timeout_ms: u64,
}

/// What one agent announces about itself.
#[derive(Debug, Clone, PartialEq, Eq)]
pub struct Announcement {
    pub node: NodeId,
    pub quic_port: u16,
    pub name: String,
}

pub struct AnnouncementView {
    pub node: u128,
    pub quic_port: u16,
    pub name: Seq<char>,
}

impl View for Announcement {
    type V = AnnouncementView;

    open spec fn view(&self) -> AnnouncementView {
        AnnouncementView { node: self.node.0, quic_port: self.quic_port, name: self.name@ }
    }
}

/// A discovery failure, with its message.
#[derive(Debug, Clone, PartialEq, Eq)]
pub struct DiscoveryError {
    message: String,
}

impl DiscoveryError {
    pub fn new(message: String) -> (error: DiscoveryError)
        ensures
            error.spec_message() == message@,
    {
        DiscoveryError { message }
    }

    /// An input/output failure: `context: detail`.
    pub fn io(context: &str, detail: &str) -> (error: DiscoveryError)
        ensures
            error.spec_message() == context@ + ": "@ + detail@,
    {
        DiscoveryError { message: concat3(context, ": ", detail) }
    }

    pub closed spec fn spec_message(&self) -> Seq<char> {
        self.message@
    }

    pub fn message(&self) -> (text: &str)
        ensures
            text@ == self.spec_message(),
    {
        self.message.as_str()
    }
}

fn error(message: &str) -> (error: DiscoveryError)
    ensures
        error.spec_message() == message@,
{
    DiscoveryError::new(message.to_owned())
}

/// Unicode's control characters (general category Cc).
pub open spec fn is_control(c: char) -> bool {
    (c as u32) < 0x20 || (0x7f <= (c as u32) && (c as u32) < 0xa0)
}

/// What is wrong with a device name, if anything.
pub open spec fn name_fault(name: Seq<char>) -> Option<Seq<char>> {
    if name.len() == 0 {
        Some("discovery name cannot be empty"@)
    } else if encode_utf8(name).len() > DISCOVERY_NAME_MAX_LEN {
        Some("discovery name cannot exceed 63 UTF-8 bytes"@)
    } else if exists|i: int| 0 <= i < name.len() && is_control(#[trigger] name[i]) {
        Some("discovery name cannot contain control characters"@)
    } else {
        None
    }
}

pub(crate) fn has_control(name: &str) -> (found: bool)
    ensures
        found == exists|i: int| 0 <= i < name@.len() && is_control(#[trigger] name@[i]),
{
    let chars = text_chars(name);
    let mut i: usize = 0;
    while i < chars.len()
        invariant
            chars@ == name@,
            i <= chars@.len(),
            forall|j: int| 0 <= j < i ==> !is_control(#[trigger] chars@[j]),
        decreases chars@.len() - i,
    {
        let c = chars[i] as u32;
        if c < 0x20 || (0x7f <= c && c < 0xa0) {
            assert(is_control(name@[i as int]));
            return true;
        }
        i = i + 1;
    }
    false
}

/// Checks a device name: not empty, at most 63 UTF-8 bytes, no control
/// characters.
pub fn validate_name(name: &str) -> (checked: Result<(), DiscoveryError>)
    ensures
        match name_fault(name@) {
            None => checked is Ok,
            Some(m) => checked matches Err(e) && e.spec_message() == m,
        },
{
    if name.is_empty() {
        return Err(error("discovery name cannot be empty"));
    }
    if name.as_bytes().len() > DISCOVERY_NAME_MAX_LEN {
        return Err(error("discovery name cannot exceed 63 UTF-8 bytes"));
    }
    if has_control(name) {
        return Err(error("discovery name cannot contain control characters"));
    }
    Ok(())
}

/// What is wrong with a discovery request, if anything.
pub open spec fn request_fault(
    local_node: u128,
    expected_peer: u128,
    local_name: Seq<char>,
    quic_port: u16,
    timeout_ms: u64,
) -> Option<Seq<char>> {
    if local_node == 0 || expected_peer == 0 {
        Some("discovery node IDs must be non-zero"@)
    } else if local_node == expected_peer {
        Some("discovery local and peer node IDs must differ"@)
    } else if quic_port == 0 {
        Some("discovery QUIC port must be non-zero"@)
    } else if timeout_ms == 0 {
        Some("discovery timeout must be greater than zero"@)
    } else {
        name_fault(local_name)
    }
}

pub fn validate_request(request: &DiscoveryRequest) -> (checked: Result<(), DiscoveryError>)
    ensures
        match request_fault(
            request.local_node.0,
            request.expected_peer.0,
            request.local_name@,
            request.quic_port,
            request.timeout_ms,
        ) {
            None => checked is Ok,
            Some(m) => checked matches Err(e) && e.spec_message() == m,
        },
{
    if request.local_node.0 == 0 || request.expected_peer.0 == 0 {
        return Err(error("discovery node IDs must be non-zero"));
    }
    if request.local_node.0 == request.expected_peer.0 {
        return Err(error("discovery local and peer node IDs must differ"));
    }
    if request.quic_port == 0 {
        return Err(error("discovery QUIC port must be non-zero"));
    }
    if request.timeout_ms == 0 {
        return Err(error("discovery timeout must be greater than zero"));
    }
    validate_name(request.local_name.as_str())
}

/// Whether an announcement from `node` is the peer the request looks for.
pub fn is_expected_peer(request: &DiscoveryRequest, node: NodeId) -> (expected: bool)
    ensures
        expected == (node.0 != request.local_node.0 && node.0 == request.expected_peer.0),
{
    node.0 != request.local_node.0 && node.0 == request.expected_peer.0
}

/// What is wrong with an announcement to be sent, if anything.
pub open spec fn announcement_fault(a: AnnouncementView) -> Option<Seq<char>> {
    if a.node == 0 {
        Some("discovery announcement node ID must be non-zero"@)
    } else if a.quic_port == 0 {
        Some("discovery announcement QUIC port must be non-zero"@)
    } else {
        name_fault(a.name)
    }
}

/// The packet announcing `a`.
pub open spec fn announcement_packet(a: AnnouncementView) -> Seq<u8> {
    let name = encode_utf8(a.name);
    discovery_magic().push(DISCOVERY_VERSION) + be128(a.node) + be16(a.quic_port) + seq![
        name.len() as u8,
    ] + name
}

pub fn encode_announcement(announcement: &Announcement) -> (packet: Result<
    Vec<u8>,
    DiscoveryError,
>)
    ensures
        match announcement_fault(announcement@) {
            None => packet matches Ok(p) && p@ == announcement_packet(announcement@),
            Some(m) => packet matches Err(e) && e.spec_message() == m,
        },
{
    if announcement.node.0 == 0 {
        return Err(error("discovery announcement node ID must be non-zero"));
    }
    if announcement.quic_port == 0 {
        return Err(error("discovery announcement QUIC port must be non-zero"));
    }
    validate_name(announcement.name.as_str())?;
    let name = announcement.name.as_str().as_bytes();
    let mut packet = discovery_magic_bytes();
    packet.push(DISCOVERY_VERSION);
    push_be128(&mut packet, announcement.node.0);
    push_be16(&mut packet, announcement.quic_port);
    packet.push(name.len() as u8);
    push_bytes(&mut packet, name);
    assert(packet@ =~= announcement_packet(announcement@));
    Ok(packet)
}

/// What a received announcement says, or the message of the first fault
/// found in it.
pub open spec fn spec_decode_announcement(p: Seq<u8>) -> Result<AnnouncementView, Seq<char>> {
    if p.len() < DISCOVERY_HEADER_LEN {
        Err("discovery announcement is truncated"@)
    } else if p.subrange(0, 8) != discovery_magic() {
        Err("discovery announcement has an invalid magic value"@)
    } else if p[8] != DISCOVERY_VERSION {
        Err("unsupported discovery version "@ + spec_decimal(p[8] as nat))
    } else if read_be128(p.subrange(9, 25)) == 0 {
        Err("discovery announcement node ID must be non-zero"@)
    } else if read_be16(p.subrange(25, 27)) == 0 {
        Err("discovery announcement QUIC port must be non-zero"@)
    } else if p[27] > DISCOVERY_NAME_MAX_LEN || p.len() != DISCOVERY_HEADER_LEN + p[27] {
        Err("discovery announcement has an invalid name length"@)
    } else if !valid_utf8(p.subrange(DISCOVERY_HEADER_LEN as int, p.len() as int)) {
        Err("discovery name is not valid UTF-8"@)
    } else {
        let name = decode_utf8(p.subrange(DISCOVERY_HEADER_LEN as int, p.len() as int));
        match name_fault(name) {
            Some(m) => Err(m),
            None => Ok(
                AnnouncementView {
                    node: read_be128(p.subrange(9, 25)),
                    quic_port: read_be16(p.subrange(25, 27)),
                    name,
                },
            ),
        }
    }
}

fn version_error(version: u8) -> (e: DiscoveryError)
    ensures
        e.spec_message() == "unsupported discovery version "@ + spec_decimal(version as nat),
{
    let number = decimal(version as u64);
    let mut message = "unsupported discovery version ".to_owned();
    message.append(number.as_str());
    DiscoveryError::new(message)
}

pub fn decode_announcement(packet: &[u8]) -> (decoded: Result<Announcement, DiscoveryError>)
    ensures
        match spec_decode_announcement(packet@) {
            Ok(v) => decoded matches Ok(a) && a@ == v,
            Err(m) => decoded matches Err(e) && e.spec_message() == m,
        },
{
    if packet.len() < DISCOVERY_HEADER_LEN {
        return Err(error("discovery announcement is truncated"));
    }
    let magic = discovery_magic_bytes();
    if !starts_with(packet, magic.as_slice()) {
        return Err(error("discovery announcement has an invalid magic value"));
    }
    if packet[8] != DISCOVERY_VERSION {
        return Err(version_error(packet[8]));
    }
    let node = get_be128(packet, 9);
    if node == 0 {
        return Err(error("discovery announcement node ID must be non-zero"));
    }
    let quic_port = get_be16(packet, 25);
    if quic_port == 0 {
        return Err(error("discovery announcement QUIC port must be non-zero"));
    }
    let name_length = packet[27] as usize;
    if name_length > DISCOVERY_NAME_MAX_LEN || packet.len() != DISCOVERY_HEADER_LEN + name_length {
        return Err(error("discovery announcement has an invalid name length"));
    }
    let name = match utf8_text(slice_subrange(packet, DISCOVERY_HEADER_LEN, packet.len())) {
        Some(name) => name,
        None => return Err(error("discovery name is not valid UTF-8")),
    };
    validate_name(name.as_str())?;
    Ok(Announcement { node: NodeId(node), quic_port, name })
}

proof fn lemma_announcement_layout(a: AnnouncementView)
    requires
        encode_utf8(a.name).len() <= DISCOVERY_NAME_MAX_LEN,
    ensures
        ({
            let p = announcement_packet(a);
            let name = encode_utf8(a.name);
            &&& p.len() == DISCOVERY_HEADER_LEN + name.len()
            &&& p.subrange(0, 8) == discovery_magic()
            &&& p[8] == DISCOVERY_VERSION
            &&& p.subrange(9, 25) == be128(a.node)
            &&& p.subrange(25, 27) == be16(a.quic_port)
            &&& p[27] == name.len()
            &&& p.subrange(DISCOVERY_HEADER_LEN as int, p.len() as int) == name
        }),
{
    let p = announcement_packet(a);
    lemma_be128(a.node);
    lemma_be16(a.quic_port);
    assert(p.subrange(0, 8) =~= discovery_magic());
    assert(p.subrange(9, 25) =~= be128(a.node));
    assert(p.subrange(25, 27) =~= be16(a.quic_port));
    assert(p.subrange(DISCOVERY_HEADER_LEN as int, p.len() as int) =~= encode_utf8(a.name));
}

/// An announcement that may be sent is received as exactly what was
/// announced.
pub proof fn law_announcement_round_trip(a: AnnouncementView)
    requires
        announcement_fault(a) is None,
    ensures
        spec_decode_announcement(announcement_packet(a)) == Ok::<AnnouncementView, Seq<char>>(a),
{
    lemma_announcement_layout(a);
    lemma_be128(a.node);
    lemma_be16(a.quic_port);
    encode_utf8_valid_utf8(a.name);
    encode_utf8_decode_utf8(a.name);
}

/// Every accepted announcement is the exact packet of what it announces, so no
/// other bytes (a truncated or padded datagram) are taken for it.
pub proof fn law_accepted_announcement_is_canonical(p: Seq<u8>)
    requires
        spec_decode_announcement(p) is Ok,
    ensures
        announcement_fault(spec_decode_announcement(p)->Ok_0) is None,
        announcement_packet(spec_decode_announcement(p)->Ok_0) == p,
{
    let a = spec_decode_announcement(p)->Ok_0;
    let name_bytes = p.subrange(DISCOVERY_HEADER_LEN as int, p.len() as int);
    decode_utf8_encode_utf8(name_bytes);
    lemma_read_be128(p.subrange(9, 25));
    lemma_read_be16(p.subrange(25, 27));
    lemma_announcement_layout(a);
    assert(announcement_packet(a) =~= p);
}


/// Whether the agent `local` looks for `peer` by broadcasting, rather than
/// answering the peer's announcements: the one with the lower node ID seeks.
pub open spec fn seeks(local: NodeId, peer: NodeId) -> bool {
    local.0 < peer.0
}

pub fn seeks_peer(local_node: NodeId, expected_peer: NodeId) -> (seeking: bool)
    ensures
        seeking == seeks(local_node, expected_peer),
{
    local_node.0 < expected_peer.0
}

/// Of two different agents exactly one seeks and the other answers, so a
/// pair never waits for each other nor both broadcast.
pub proof fn law_exactly_one_agent_seeks(a: NodeId, b: NodeId)
    requires
        a.0 != b.0,
    ensures
        seeks(a, b) != seeks(b, a),
{
}

} // verus!
