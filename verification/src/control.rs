//! The loopback control channel between the desktop app and the running agent:
//! fixed-layout request packets, and the status response that carries the
//! connection telemetry. Rates are carried as the bit patterns of the `f32`
//! values the agent measured.
use crate::geometry::{decode_edge, edge_code, edge_from_code, encode_edge, Edge};
use crate::text::{concat2, decimal, spec_decimal, utf8_text};
use crate::wire::{
    be32, be64, get_be32, get_be64, lemma_be32, lemma_be64, lemma_read_be32, lemma_read_be64,
    push_be32, push_be64, push_bytes, read_be32, read_be64, starts_with,
};
use vstd::prelude::*;
use vstd::slice::slice_subrange;
use vstd::utf8::*;

verus! {

pub const REQUEST_LENGTH: usize = 9;
pub const SCROLL_REQUEST_LENGTH: usize = 10;
pub const LAYOUT_REQUEST_LENGTH: usize = 10;
pub const RESPONSE_HEADER_LENGTH: usize = 14;
pub const MAX_VERSION_LENGTH: usize = 63;
pub const MAX_PEER_NAME_LENGTH: usize = 63;
pub const TELEMETRY_VERSION: u8 = 1;
pub const TELEMETRY_FIXED_LENGTH: usize = 84;
pub const MAX_RESPONSE_LENGTH: usize = 224;
pub const FLAG_CONNECTED_SINCE: u8 = 1;
pub const FLAG_LINK_METRICS: u8 = 2;

/// `EDGMCTL1`, the first bytes of every request.
pub open spec fn request_magic() -> Seq<u8> {
    seq![69u8, 68u8, 71u8, 77u8, 67u8, 84u8, 76u8, 49u8]
}

/// `EDGMACK1`, the first bytes of every response.
pub open spec fn response_magic() -> Seq<u8> {
    seq![69u8, 68u8, 71u8, 77u8, 65u8, 67u8, 75u8, 49u8]
}

fn request_magic_bytes() -> (magic: Vec<u8>)
    ensures
        magic@ == request_magic(),
{
    let magic = vec![69u8, 68, 71, 77, 67, 84, 76, 49];
    assert(magic@ =~= request_magic());
    magic
}

fn response_magic_bytes() -> (magic: Vec<u8>)
    ensures
        magic@ == response_magic(),
{
    let magic = vec![69u8, 68, 71, 77, 65, 67, 75, 49];
    assert(magic@ =~= response_magic());
    magic
}

#[derive(Clone, Copy, Debug, PartialEq, Eq, Structural)]
pub enum Command {
    Status,
    Stop,
    SetScroll,
    SetLayout,
}

/// The command whose wire byte is `value`, if any.
pub open spec fn command_from_code(value: u8) -> Option<Command> {
    if value == 1 {
        Some(Command::Status)
    } else if value == 2 {
        Some(Command::Stop)
    } else if value == 3 {
        Some(Command::SetScroll)
    } else if value == 4 {
        Some(Command::SetLayout)
    } else {
        None
    }
}

impl Command {
    /// The wire byte of the command.
    pub open spec fn code(self) -> u8 {
        match self {
            Command::Status => 1,
            Command::Stop => 2,
            Command::SetScroll => 3,
            Command::SetLayout => 4,
        }
    }

    pub fn as_byte(self) -> (value: u8)
        ensures
            value == self.code(),
    {
        match self {
            Command::Status => 1,
            Command::Stop => 2,
            Command::SetScroll => 3,
            Command::SetLayout => 4,
        }
    }

    pub fn from_byte(value: u8) -> (command: Option<Command>)
        ensures
            command == command_from_code(value),
    {
        match value {
            1 => Some(Command::Status),
            2 => Some(Command::Stop),
            3 => Some(Command::SetScroll),
            4 => Some(Command::SetLayout),
            _ => None,
        }
    }
}

#[derive(Clone, Copy, Debug, PartialEq, Eq, Structural)]
pub struct ScrollSettings {
    pub reverse_horizontal: bool,
    pub reverse_vertical: bool,
}

impl Default for ScrollSettings {
    fn default() -> (settings: ScrollSettings)
        ensures
            !settings.reverse_horizontal && !settings.reverse_vertical,
    {
        ScrollSettings { reverse_horizontal: false, reverse_vertical: false }
    }
}

impl ScrollSettings {
    /// The flag byte: bit 0 reverses horizontal, bit 1 vertical scrolling.
    pub open spec fn flags(self) -> u8 {
        ((if self.reverse_horizontal {
            1int
        } else {
            0int
        }) + (if self.reverse_vertical {
            2int
        } else {
            0int
        })) as u8
    }
}

/// The settings a flag byte stands for.
pub open spec fn scroll_from_flags(flags: u8) -> ScrollSettings {
    ScrollSettings { reverse_horizontal: flags % 2 == 1, reverse_vertical: (flags / 2) % 2 == 1 }
}

/// A decoded control request.
#[derive(Clone, Copy, Debug, PartialEq, Eq, Structural)]
pub struct ControlRequest {
    pub command: Command,
    pub scroll: Option<ScrollSettings>,
    pub peer_on: Option<Edge>,
}

/// The request packet of a command that carries nothing else.
pub open spec fn spec_encode_request(command: Command) -> Seq<u8> {
    request_magic().push(command.code())
}

/// The request packet that changes the scroll directions.
pub open spec fn spec_encode_scroll_request(settings: ScrollSettings) -> Seq<u8> {
    request_magic().push(Command::SetScroll.code()).push(settings.flags())
}

/// The request packet that moves the peer to another edge.
pub open spec fn spec_encode_layout_request(peer_on: Edge) -> Seq<u8> {
    request_magic().push(Command::SetLayout.code()).push(edge_code(peer_on))
}

/// What a received request packet means; `None` for anything malformed.
pub open spec fn spec_decode_request(b: Seq<u8>) -> Option<ControlRequest> {
    if b.len() < REQUEST_LENGTH || b.subrange(0, 8) != request_magic() {
        None
    } else {
        match command_from_code(b[8]) {
            None => None,
            Some(command) => match command {
                Command::Status | Command::Stop => if b.len() == REQUEST_LENGTH {
                    Some(ControlRequest { command, scroll: None, peer_on: None })
                } else {
                    None
                },
                Command::SetScroll => if b.len() == SCROLL_REQUEST_LENGTH && b[9] < 4 {
                    Some(
                        ControlRequest {
                            command,
                            scroll: Some(scroll_from_flags(b[9])),
                            peer_on: None,
                        },
                    )
                } else {
                    None
                },
                Command::SetLayout => if b.len() == LAYOUT_REQUEST_LENGTH && edge_from_code(
                    b[9],
                ) is Some {
                    Some(ControlRequest { command, scroll: None, peer_on: edge_from_code(b[9]) })
                } else {
                    None
                },
            },
        }
    }
}

/// The packet a decoded request was read from.
pub open spec fn request_packet(request: ControlRequest) -> Seq<u8> {
    match request.command {
        Command::SetScroll => spec_encode_scroll_request(request.scroll.unwrap()),
        Command::SetLayout => spec_encode_layout_request(request.peer_on.unwrap()),
        _ => spec_encode_request(request.command),
    }
}

pub fn encode_request(command: Command) -> (packet: Vec<u8>)
    ensures
        packet@ == spec_encode_request(command),
{
    let mut packet = request_magic_bytes();
    packet.push(command.as_byte());
    packet
}

fn scroll_flags(settings: ScrollSettings) -> (flags: u8)
    ensures
        flags == settings.flags(),
        flags < 4,
{
    let horizontal: u8 = if settings.reverse_horizontal {
        1
    } else {
        0
    };
    let vertical: u8 = if settings.reverse_vertical {
        2
    } else {
        0
    };
    horizontal + vertical
}

pub fn encode_scroll_request(settings: ScrollSettings) -> (packet: Vec<u8>)
    ensures
        packet@ == spec_encode_scroll_request(settings),
{
    let mut packet = request_magic_bytes();
    packet.push(Command::SetScroll.as_byte());
    packet.push(scroll_flags(settings));
    packet
}

pub fn encode_layout_request(peer_on: Edge) -> (packet: Vec<u8>)
    ensures
        packet@ == spec_encode_layout_request(peer_on),
{
    let mut packet = request_magic_bytes();
    packet.push(Command::SetLayout.as_byte());
    packet.push(encode_edge(peer_on));
    packet
}

/// Decodes a request packet; anything malformed is ignored (`None`).
pub fn decode_request(request: &[u8]) -> (decoded: Option<ControlRequest>)
    ensures
        decoded == spec_decode_request(request@),
{
    let magic = request_magic_bytes();
    if request.len() < REQUEST_LENGTH || !starts_with(request, magic.as_slice()) {
        return None;
    }
    let command = match Command::from_byte(request[8]) {
        Some(command) => command,
        None => return None,
    };
    match command {
        Command::Status | Command::Stop => {
            if request.len() == REQUEST_LENGTH {
                Some(ControlRequest { command, scroll: None, peer_on: None })
            } else {
                None
            }
        },
        Command::SetScroll => {
            if request.len() != SCROLL_REQUEST_LENGTH {
                return None;
            }
            let flags = request[REQUEST_LENGTH];
            if flags & !0b11u8 != 0 {
                assert(flags & !0b11u8 != 0 ==> flags >= 4) by (bit_vector);
                return None;
            }
            assert(flags & !0b11u8 == 0 ==> flags < 4) by (bit_vector);
            assert((flags & 0b01u8 != 0) == (flags % 2 == 1)) by (bit_vector);
            assert((flags & 0b10u8 != 0) == ((flags / 2) % 2 == 1)) by (bit_vector);
            Some(
                ControlRequest {
                    command,
                    scroll: Some(
                        ScrollSettings {
                            reverse_horizontal: flags & 0b01 != 0,
                            reverse_vertical: flags & 0b10 != 0,
                        },
                    ),
                    peer_on: None,
                },
            )
        },
        Command::SetLayout => {
            if request.len() != LAYOUT_REQUEST_LENGTH {
                return None;
            }
            match decode_edge(request[REQUEST_LENGTH]) {
                Some(edge) => Some(ControlRequest { command, scroll: None, peer_on: Some(edge) }),
                None => None,
            }
        },
    }
}

/// Every request packet the desktop app sends is understood by the agent as
/// exactly the request it was built from.
pub proof fn law_request_round_trip(command: Command, settings: ScrollSettings, peer_on: Edge)
    ensures
        (command == Command::Status || command == Command::Stop) ==> spec_decode_request(
            spec_encode_request(command),
        ) == Some(ControlRequest { command, scroll: None, peer_on: None }),
        spec_decode_request(spec_encode_scroll_request(settings)) == Some(
            ControlRequest { command: Command::SetScroll, scroll: Some(settings), peer_on: None },
        ),
        spec_decode_request(spec_encode_layout_request(peer_on)) == Some(
            ControlRequest { command: Command::SetLayout, scroll: None, peer_on: Some(peer_on) },
        ),
{
    assert(spec_encode_request(command).subrange(0, 8) =~= request_magic());
    assert(spec_encode_scroll_request(settings).subrange(0, 8) =~= request_magic());
    assert(spec_encode_layout_request(peer_on).subrange(0, 8) =~= request_magic());
    assert(scroll_from_flags(settings.flags()) == settings);
}

/// The agent accepts a packet only when it is the exact encoding of the request
/// it decodes to: no other bytes are read as a command.
pub proof fn law_accepted_request_is_canonical(packet: Seq<u8>)
    requires
        spec_decode_request(packet) is Some,
    ensures
        request_packet(spec_decode_request(packet).unwrap()) == packet,
{
    let request = spec_decode_request(packet).unwrap();
    assert(packet.subrange(0, 8) == request_magic());
    match request.command {
        Command::SetScroll => {
            let flags = packet[9];
            assert(scroll_from_flags(flags).flags() == flags);
            assert(request_packet(request) =~= packet);
        },
        Command::SetLayout => {
            assert(request_packet(request) =~= packet);
        },
        _ => {
            assert(request_packet(request) =~= packet);
        },
    }
}

#[derive(Clone, Copy, Debug, PartialEq, Eq, Structural)]
pub enum ConnectionPhase {
    Starting,
    Connecting,
    Connected,
    Reconnecting,
}

/// The phase whose wire byte is `value`, if any.
pub open spec fn phase_from_code(value: u8) -> Option<ConnectionPhase> {
    if value == 0 {
        Some(ConnectionPhase::Starting)
    } else if value == 1 {
        Some(ConnectionPhase::Connecting)
    } else if value == 2 {
        Some(ConnectionPhase::Connected)
    } else if value == 3 {
        Some(ConnectionPhase::Reconnecting)
    } else {
        None
    }
}

/// The name shown for a phase.
pub open spec fn phase_text(phase: ConnectionPhase) -> Seq<char> {
    match phase {
        ConnectionPhase::Starting => "starting"@,
        ConnectionPhase::Connecting => "connecting"@,
        ConnectionPhase::Connected => "connected"@,
        ConnectionPhase::Reconnecting => "reconnecting"@,
    }
}

impl Default for ConnectionPhase {
    fn default() -> (phase: ConnectionPhase)
        ensures
            phase == ConnectionPhase::Starting,
    {
        ConnectionPhase::Starting
    }
}

impl ConnectionPhase {
    pub open spec fn code(self) -> u8 {
        match self {
            ConnectionPhase::Starting => 0,
            ConnectionPhase::Connecting => 1,
            ConnectionPhase::Connected => 2,
            ConnectionPhase::Reconnecting => 3,
        }
    }

    pub fn as_byte(self) -> (value: u8)
        ensures
            value == self.code(),
    {
        match self {
            ConnectionPhase::Starting => 0,
            ConnectionPhase::Connecting => 1,
            ConnectionPhase::Connected => 2,
            ConnectionPhase::Reconnecting => 3,
        }
    }

    pub fn from_byte(value: u8) -> (phase: Option<ConnectionPhase>)
        ensures
            phase == phase_from_code(value),
    {
        match value {
            0 => Some(ConnectionPhase::Starting),
            1 => Some(ConnectionPhase::Connecting),
            2 => Some(ConnectionPhase::Connected),
            3 => Some(ConnectionPhase::Reconnecting),
            _ => None,
        }
    }

    pub fn as_str(self) -> (name: &'static str)
        ensures
            name@ == phase_text(self),
    {
        match self {
            ConnectionPhase::Starting => "starting",
            ConnectionPhase::Connecting => "connecting",
            ConnectionPhase::Connected => "connected",
            ConnectionPhase::Reconnecting => "reconnecting",
        }
    }
}

/// What the agent reports about its connection to the peer. The round-trip
/// time and jitter are the bit patterns of `f32` milliseconds.
#[derive(Clone, Debug, PartialEq)]
pub struct ConnectionTelemetry {
    pub phase: ConnectionPhase,
    pub peer_name: Option<String>,
    pub connected_since_unix_ms: Option<u64>,
    pub metrics_updated_unix_ms: Option<u64>,
    pub reconnect_count: u32,
    pub rtt_ms_bits: Option<u32>,
    pub jitter_ms_bits: Option<u32>,
    pub send_interval_ms: Option<u32>,
    pub sent_moves: u64,
    pub skipped_moves: u64,
    pub coalesced_moves: u64,
    pub received_moves: u64,
    pub stale_moves: u64,
    pub superseded_moves: u64,
}

/// The telemetry with the peer's name as characters.
pub struct TelemetryView {
    pub phase: ConnectionPhase,
    pub peer_name: Option<Seq<char>>,
    pub connected_since_unix_ms: Option<u64>,
    pub metrics_updated_unix_ms: Option<u64>,
    pub reconnect_count: u32,
    pub rtt_ms_bits: Option<u32>,
    pub jitter_ms_bits: Option<u32>,
    pub send_interval_ms: Option<u32>,
    pub sent_moves: u64,
    pub skipped_moves: u64,
    pub coalesced_moves: u64,
    pub received_moves: u64,
    pub stale_moves: u64,
    pub superseded_moves: u64,
}

pub open spec fn text_view(text: Option<String>) -> Option<Seq<char>> {
    match text {
        Some(t) => Some(t@),
        None => None,
    }
}

impl View for ConnectionTelemetry {
    type V = TelemetryView;

    open spec fn view(&self) -> TelemetryView {
        TelemetryView {
            phase: self.phase,
            peer_name: text_view(self.peer_name),
            connected_since_unix_ms: self.connected_since_unix_ms,
            metrics_updated_unix_ms: self.metrics_updated_unix_ms,
            reconnect_count: self.reconnect_count,
            rtt_ms_bits: self.rtt_ms_bits,
            jitter_ms_bits: self.jitter_ms_bits,
            send_interval_ms: self.send_interval_ms,
            sent_moves: self.sent_moves,
            skipped_moves: self.skipped_moves,
            coalesced_moves: self.coalesced_moves,
            received_moves: self.received_moves,
            stale_moves: self.stale_moves,
            superseded_moves: self.superseded_moves,
        }
    }
}

/// The telemetry of an agent that has not connected yet.
pub open spec fn default_telemetry() -> TelemetryView {
    TelemetryView {
        phase: ConnectionPhase::Starting,
        peer_name: None,
        connected_since_unix_ms: None,
        metrics_updated_unix_ms: None,
        reconnect_count: 0,
        rtt_ms_bits: None,
        jitter_ms_bits: None,
        send_interval_ms: None,
        sent_moves: 0,
        skipped_moves: 0,
        coalesced_moves: 0,
        received_moves: 0,
        stale_moves: 0,
        superseded_moves: 0,
    }
}

impl Default for ConnectionTelemetry {
    fn default() -> (telemetry: ConnectionTelemetry)
        ensures
            telemetry@ == default_telemetry(),
    {
        ConnectionTelemetry {
            phase: ConnectionPhase::Starting,
            peer_name: None,
            connected_since_unix_ms: None,
            metrics_updated_unix_ms: None,
            reconnect_count: 0,
            rtt_ms_bits: None,
            jitter_ms_bits: None,
            send_interval_ms: None,
            sent_moves: 0,
            skipped_moves: 0,
            coalesced_moves: 0,
            received_moves: 0,
            stale_moves: 0,
            superseded_moves: 0,
        }
    }
}

/// The status the agent reports to the desktop app.
#[derive(Clone, Debug, PartialEq)]
pub struct RunningStatus {
    pub process_id: u32,
    pub version: String,
    pub connection: ConnectionTelemetry,
}

pub struct StatusView {
    pub process_id: u32,
    pub version: Seq<char>,
    pub connection: TelemetryView,
}

impl View for RunningStatus {
    type V = StatusView;

    open spec fn view(&self) -> StatusView {
        StatusView {
            process_id: self.process_id,
            version: self.version@,
            connection: self.connection@,
        }
    }
}

/// A failure of the control channel, with its message.
#[derive(Debug)]
pub struct ControlError {
    message: String,
}

impl ControlError {
    pub fn new(message: String) -> (error: ControlError)
        ensures
            error.spec_message() == message@,
    {
        ControlError { message }
    }

    pub closed spec fn spec_message(&self) -> Seq<char> {
        self.message@
    }

    pub fn message(&self) -> (text: &str)
        ensures
            text@ == self.spec_message(),
    {
        self.message.as_str()
    }
}

fn error(message: &str) -> (error: ControlError)
    ensures
        error.spec_message() == message@,
{
    ControlError::new(message.to_owned())
}

/// At most the first `max` bytes.
pub open spec fn clipped(bytes: Seq<u8>, max: nat) -> Seq<u8> {
    if bytes.len() <= max {
        bytes
    } else {
        bytes.subrange(0, max as int)
    }
}

pub open spec fn or_zero32(value: Option<u32>) -> u32 {
    match value {
        Some(v) => v,
        None => 0,
    }
}

pub open spec fn or_zero64(value: Option<u64>) -> u64 {
    match value {
        Some(v) => v,
        None => 0,
    }
}

/// The UTF-8 bytes of an optional text; nothing when absent.
pub open spec fn text_bytes(text: Option<Seq<char>>) -> Seq<u8> {
    match text {
        Some(t) => encode_utf8(t),
        None => Seq::empty(),
    }
}

pub open spec fn telemetry_flags(t: TelemetryView) -> u8 {
    ((if t.connected_since_unix_ms is Some {
        1int
    } else {
        0int
    }) + (if t.metrics_updated_unix_ms is Some {
        2int
    } else {
        0int
    })) as u8
}

/// The counters of the telemetry block, in wire order.
pub open spec fn counter_bytes(t: TelemetryView) -> Seq<u8> {
    be64(t.sent_moves) + be64(t.skipped_moves) + be64(t.coalesced_moves) + be64(
        t.received_moves,
    ) + be64(t.stale_moves) + be64(t.superseded_moves)
}

/// The fixed-size part of the telemetry block, up to the peer name's length.
pub open spec fn telemetry_fixed_bytes(t: TelemetryView) -> Seq<u8> {
    seq![TELEMETRY_VERSION, t.phase.code(), telemetry_flags(t)] + be32(t.reconnect_count) + be64(
        or_zero64(t.connected_since_unix_ms),
    ) + be64(or_zero64(t.metrics_updated_unix_ms)) + be32(or_zero32(t.rtt_ms_bits)) + be32(
        or_zero32(t.jitter_ms_bits),
    ) + be32(or_zero32(t.send_interval_ms)) + counter_bytes(t)
}

/// The telemetry block of a response.
pub open spec fn telemetry_bytes(t: TelemetryView) -> Seq<u8> {
    let name = clipped(text_bytes(t.peer_name), MAX_PEER_NAME_LENGTH as nat);
    telemetry_fixed_bytes(t) + seq![name.len() as u8] + name
}

/// The response the agent sends for `command` while in `status`.
pub open spec fn spec_encode_response(command: Command, status: StatusView) -> Seq<u8> {
    let version = clipped(encode_utf8(status.version), MAX_VERSION_LENGTH as nat);
    response_magic().push(command.code()) + be32(status.process_id) + seq![version.len() as u8]
        + version + telemetry_bytes(status.connection)
}

fn clip_length(length: usize, max: usize) -> (clipped: usize)
    ensures
        clipped == if length <= max {
            length
        } else {
            max
        },
{
    if length <= max {
        length
    } else {
        max
    }
}

fn push_counters(out: &mut Vec<u8>, t: &ConnectionTelemetry)
    ensures
        final(out)@ == old(out)@ + counter_bytes(t@),
{
    push_be64(out, t.sent_moves);
    push_be64(out, t.skipped_moves);
    push_be64(out, t.coalesced_moves);
    push_be64(out, t.received_moves);
    push_be64(out, t.stale_moves);
    push_be64(out, t.superseded_moves);
    assert(out@ =~= old(out)@ + counter_bytes(t@));
}

fn or_zero(value: Option<u64>) -> (v: u64)
    ensures
        v == or_zero64(value),
{
    match value {
        Some(v) => v,
        None => 0,
    }
}

fn or_zero_u32(value: Option<u32>) -> (v: u32)
    ensures
        v == or_zero32(value),
{
    match value {
        Some(v) => v,
        None => 0,
    }
}

fn push_telemetry_fixed(out: &mut Vec<u8>, t: &ConnectionTelemetry)
    ensures
        final(out)@ == old(out)@ + telemetry_fixed_bytes(t@),
{
    let mut flags: u8 = 0;
    if t.connected_since_unix_ms.is_some() {
        flags = flags + FLAG_CONNECTED_SINCE;
    }
    if t.metrics_updated_unix_ms.is_some() {
        flags = flags + FLAG_LINK_METRICS;
    }
    let ghost start = out@;
    out.push(TELEMETRY_VERSION);
    out.push(t.phase.as_byte());
    out.push(flags);
    assert(out@ =~= start + seq![TELEMETRY_VERSION, t.phase.code(), telemetry_flags(t@)]);
    push_be32(out, t.reconnect_count);
    push_be64(out, or_zero(t.connected_since_unix_ms));
    push_be64(out, or_zero(t.metrics_updated_unix_ms));
    push_be32(out, or_zero_u32(t.rtt_ms_bits));
    push_be32(out, or_zero_u32(t.jitter_ms_bits));
    push_be32(out, or_zero_u32(t.send_interval_ms));
    push_counters(out, t);
    assert(out@ =~= start + telemetry_fixed_bytes(t@));
}

fn peer_name_bytes(t: &ConnectionTelemetry) -> (name: &[u8])
    ensures
        name@ == text_bytes(t@.peer_name),
{
    match &t.peer_name {
        Some(name) => name.as_str().as_bytes(),
        None => {
            let empty: &[u8] = &[];
            assert(empty@ =~= Seq::<u8>::empty());
            empty
        },
    }
}

fn push_telemetry(out: &mut Vec<u8>, t: &ConnectionTelemetry)
    ensures
        final(out)@ == old(out)@ + telemetry_bytes(t@),
{
    let ghost start = out@;
    push_telemetry_fixed(out, t);
    let name = peer_name_bytes(t);
    let name_length = clip_length(name.len(), MAX_PEER_NAME_LENGTH);
    out.push(name_length as u8);
    let clipped_name = slice_subrange(name, 0, name_length);
    push_bytes(out, clipped_name);
    proof {
        let tv = t@;
        assert(clipped_name@ =~= clipped(text_bytes(tv.peer_name), MAX_PEER_NAME_LENGTH as nat));
        assert(out@ =~= start + telemetry_bytes(tv));
    }
}

/// Encodes the response to `command`. The version and the peer's name are cut
/// to 63 bytes each.
pub fn encode_response(command: Command, status: &RunningStatus) -> (response: Vec<u8>)
    ensures
        response@ == spec_encode_response(command, status@),
{
    let version = status.version.as_str().as_bytes();
    let version_length = clip_length(version.len(), MAX_VERSION_LENGTH);
    let mut response = response_magic_bytes();
    response.push(command.as_byte());
    push_be32(&mut response, status.process_id);
    response.push(version_length as u8);
    push_bytes(&mut response, slice_subrange(version, 0, version_length));
    push_telemetry(&mut response, &status.connection);
    proof {
        assert(version@.subrange(0, version_length as int) == clipped(
            encode_utf8(status@.version),
            MAX_VERSION_LENGTH as nat,
        ));
        assert(response@ =~= spec_encode_response(command, status@));
    }
    response
}

/// Whether an `f32` bit pattern is a finite number (its exponent is not all ones).
pub open spec fn finite_f32_bits(bits: u32) -> bool {
    bits & 0x7f80_0000u32 != 0x7f80_0000u32
}

pub open spec fn truncated_text() -> Seq<char> {
    "EdgeMouse sent truncated telemetry data"@
}

/// The telemetry a well-formed block of `length` bytes stands for.
pub open spec fn telemetry_fields(d: Seq<u8>) -> TelemetryView {
    let flags = d[2];
    let metrics = (flags / 2) % 2 == 1;
    let name = d.subrange(TELEMETRY_FIXED_LENGTH as int, d.len() as int);
    TelemetryView {
        phase: phase_from_code(d[1]).unwrap(),
        peer_name: if name.len() == 0 {
            None
        } else {
            Some(decode_utf8(name))
        },
        connected_since_unix_ms: if flags % 2 == 1 {
            Some(read_be64(d.subrange(7, 15)))
        } else {
            None
        },
        metrics_updated_unix_ms: if metrics {
            Some(read_be64(d.subrange(15, 23)))
        } else {
            None
        },
        reconnect_count: read_be32(d.subrange(3, 7)),
        rtt_ms_bits: if metrics {
            Some(read_be32(d.subrange(23, 27)))
        } else {
            None
        },
        jitter_ms_bits: if metrics {
            Some(read_be32(d.subrange(27, 31)))
        } else {
            None
        },
        send_interval_ms: if metrics {
            Some(read_be32(d.subrange(31, 35)))
        } else {
            None
        },
        sent_moves: read_be64(d.subrange(35, 43)),
        skipped_moves: read_be64(d.subrange(43, 51)),
        coalesced_moves: read_be64(d.subrange(51, 59)),
        received_moves: read_be64(d.subrange(59, 67)),
        stale_moves: read_be64(d.subrange(67, 75)),
        superseded_moves: read_be64(d.subrange(75, 83)),
    }
}

/// What a telemetry block means, or the message of the first fault found in it.
pub open spec fn spec_decode_telemetry(d: Seq<u8>) -> Result<TelemetryView, Seq<char>> {
    if d.len() < 1 {
        Err(truncated_text())
    } else if d[0] != TELEMETRY_VERSION {
        Err("EdgeMouse sent unsupported telemetry version "@ + spec_decimal(d[0] as nat))
    } else if d.len() < 2 {
        Err(truncated_text())
    } else if phase_from_code(d[1]) is None {
        Err("EdgeMouse sent an invalid connection phase"@)
    } else if d.len() < TELEMETRY_FIXED_LENGTH {
        Err(truncated_text())
    } else if d[83] > MAX_PEER_NAME_LENGTH {
        Err("EdgeMouse sent an invalid peer name length"@)
    } else if d.len() < TELEMETRY_FIXED_LENGTH + d[83] {
        Err(truncated_text())
    } else if d.len() > TELEMETRY_FIXED_LENGTH + d[83] {
        Err("EdgeMouse sent trailing control response data"@)
    } else if !valid_utf8(d.subrange(TELEMETRY_FIXED_LENGTH as int, d.len() as int)) {
        Err("EdgeMouse sent an invalid peer name"@)
    } else if (d[2] / 2) % 2 == 1 && (!finite_f32_bits(read_be32(d.subrange(23, 27)))
        || !finite_f32_bits(read_be32(d.subrange(27, 31)))) {
        Err("EdgeMouse sent invalid connection metrics"@)
    } else {
        Ok(telemetry_fields(d))
    }
}

/// What a response to `expected` means, or the message of the first fault
/// found in it. A response without a telemetry block comes from an older agent
/// and reports the telemetry of an agent that has not connected.
pub open spec fn spec_decode_response(r: Seq<u8>, expected: Command) -> Result<
    StatusView,
    Seq<char>,
> {
    if r.len() < RESPONSE_HEADER_LENGTH || r.subrange(0, 8) != response_magic() {
        Err("EdgeMouse sent an invalid control response"@)
    } else if command_from_code(r[8]) is None {
        Err("EdgeMouse sent an unknown control response"@)
    } else if command_from_code(r[8]) != Some(expected) {
        Err("EdgeMouse sent a response for the wrong control command"@)
    } else if r[13] > MAX_VERSION_LENGTH || r.len() < RESPONSE_HEADER_LENGTH + r[13] {
        Err("EdgeMouse sent an invalid control response length"@)
    } else {
        let version_end = RESPONSE_HEADER_LENGTH + r[13];
        let version = r.subrange(RESPONSE_HEADER_LENGTH as int, version_end);
        if !valid_utf8(version) {
            Err("EdgeMouse sent an invalid version string"@)
        } else if decode_utf8(version).len() == 0 {
            Err("EdgeMouse sent an empty version string"@)
        } else if r.len() == version_end {
            Ok(
                StatusView {
                    process_id: read_be32(r.subrange(9, 13)),
                    version: decode_utf8(version),
                    connection: default_telemetry(),
                },
            )
        } else {
            match spec_decode_telemetry(r.subrange(version_end, r.len() as int)) {
                Ok(t) => Ok(
                    StatusView {
                        process_id: read_be32(r.subrange(9, 13)),
                        version: decode_utf8(version),
                        connection: t,
                    },
                ),
                Err(message) => Err(message),
            }
        }
    }
}

/// Reads a telemetry block front to back.
struct Decoder<'a> {
    data: &'a [u8],
    offset: usize,
}

impl<'a> Decoder<'a> {
    fn new(data: &'a [u8]) -> (decoder: Self)
        ensures
            decoder.data@ == data@,
            decoder.offset == 0,
    {
        Decoder { data, offset: 0 }
    }

    fn bytes(&mut self, length: usize) -> (bytes: Result<&'a [u8], ControlError>)
        requires
            old(self).offset <= old(self).data@.len(),
        ensures
            final(self).data@ == old(self).data@,
            final(self).offset <= final(self).data@.len(),
            old(self).offset + length <= old(self).data@.len() ==> (bytes matches Ok(b) && b@
                == old(self).data@.subrange(old(self).offset as int, old(self).offset + length)
                && final(self).offset == old(self).offset + length),
            old(self).offset + length > old(self).data@.len() ==> (bytes matches Err(e)
                && e.spec_message() == truncated_text()),
    {
        let available = self.data.len();
        let end = match self.offset.checked_add(length) {
            Some(end) => end,
            None => return Err(error("EdgeMouse sent truncated telemetry data")),
        };
        if end > available {
            return Err(error("EdgeMouse sent truncated telemetry data"));
        }
        let bytes = slice_subrange(self.data, self.offset, end);
        self.offset = end;
        Ok(bytes)
    }

    fn u8(&mut self) -> (value: Result<u8, ControlError>)
        requires
            old(self).offset <= old(self).data@.len(),
        ensures
            final(self).data@ == old(self).data@,
            final(self).offset <= final(self).data@.len(),
            old(self).offset + 1 <= old(self).data@.len() ==> (value matches Ok(v) && v
                == old(self).data@[old(self).offset as int] && final(self).offset == old(
                self,
            ).offset + 1),
            old(self).offset + 1 > old(self).data@.len() ==> (value matches Err(e)
                && e.spec_message() == truncated_text()),
    {
        let bytes = self.bytes(1)?;
        Ok(bytes[0])
    }

    fn u32(&mut self) -> (value: Result<u32, ControlError>)
        requires
            old(self).offset <= old(self).data@.len(),
        ensures
            final(self).data@ == old(self).data@,
            final(self).offset <= final(self).data@.len(),
            old(self).offset + 4 <= old(self).data@.len() ==> (value matches Ok(v) && v
                == read_be32(old(self).data@.subrange(old(self).offset as int, old(self).offset + 4))
                && final(self).offset == old(self).offset + 4),
            old(self).offset + 4 > old(self).data@.len() ==> (value matches Err(e)
                && e.spec_message() == truncated_text()),
    {
        let bytes = self.bytes(4)?;
        let v = get_be32(bytes, 0);
        assert(bytes@.subrange(0, 4) =~= bytes@);
        Ok(v)
    }

    fn u64(&mut self) -> (value: Result<u64, ControlError>)
        requires
            old(self).offset <= old(self).data@.len(),
        ensures
            final(self).data@ == old(self).data@,
            final(self).offset <= final(self).data@.len(),
            old(self).offset + 8 <= old(self).data@.len() ==> (value matches Ok(v) && v
                == read_be64(old(self).data@.subrange(old(self).offset as int, old(self).offset + 8))
                && final(self).offset == old(self).offset + 8),
            old(self).offset + 8 > old(self).data@.len() ==> (value matches Err(e)
                && e.spec_message() == truncated_text()),
    {
        let bytes = self.bytes(8)?;
        let v = get_be64(bytes, 0);
        assert(bytes@.subrange(0, 8) =~= bytes@);
        Ok(v)
    }

    fn is_finished(&self) -> (finished: bool)
        ensures
            finished == (self.offset == self.data@.len()),
    {
        self.offset == self.data.len()
    }
}

fn telemetry_version_error(version: u8) -> (e: ControlError)
    ensures
        e.spec_message() == "EdgeMouse sent unsupported telemetry version "@ + spec_decimal(
            version as nat,
        ),
{
    let number = decimal(version as u64);
    let mut message = "EdgeMouse sent unsupported telemetry version ".to_owned();
    message.append(number.as_str());
    ControlError::new(message)
}

fn is_finite_f32_bits(bits: u32) -> (finite: bool)
    ensures
        finite == finite_f32_bits(bits),
{
    bits & 0x7f80_0000u32 != 0x7f80_0000u32
}

/// Decodes a telemetry block.
fn decode_telemetry(data: &[u8]) -> (telemetry: Result<ConnectionTelemetry, ControlError>)
    ensures
        match spec_decode_telemetry(data@) {
            Ok(v) => telemetry matches Ok(t) && t@ == v,
            Err(m) => telemetry matches Err(e) && e.spec_message() == m,
        },
{
    let d = Ghost(data@);
    let mut decoder = Decoder::new(data);
    let telemetry_version = decoder.u8()?;
    if telemetry_version != TELEMETRY_VERSION {
        return Err(telemetry_version_error(telemetry_version));
    }
    let phase = match ConnectionPhase::from_byte(decoder.u8()?) {
        Some(phase) => phase,
        None => return Err(error("EdgeMouse sent an invalid connection phase")),
    };
    let flags = decoder.u8()?;
    let reconnect_count = decoder.u32()?;
    let connected_since = decoder.u64()?;
    let metrics_updated = decoder.u64()?;
    let rtt_bits = decoder.u32()?;
    let jitter_bits = decoder.u32()?;
    let send_interval_ms = decoder.u32()?;
    let sent_moves = decoder.u64()?;
    let skipped_moves = decoder.u64()?;
    let coalesced_moves = decoder.u64()?;
    let received_moves = decoder.u64()?;
    let stale_moves = decoder.u64()?;
    let superseded_moves = decoder.u64()?;
    let peer_name_length = decoder.u8()?;
    assert(decoder.offset == TELEMETRY_FIXED_LENGTH);
    if peer_name_length as usize > MAX_PEER_NAME_LENGTH {
        return Err(error("EdgeMouse sent an invalid peer name length"));
    }
    let peer_name_bytes = decoder.bytes(peer_name_length as usize)?;
    if !decoder.is_finished() {
        return Err(error("EdgeMouse sent trailing control response data"));
    }
    assert(peer_name_bytes@ =~= d@.subrange(TELEMETRY_FIXED_LENGTH as int, d@.len() as int));
    let peer_name = match utf8_text(peer_name_bytes) {
        Some(name) => name,
        None => return Err(error("EdgeMouse sent an invalid peer name")),
    };
    assert((flags & FLAG_LINK_METRICS != 0) == ((flags / 2) % 2 == 1)) by (bit_vector);
    assert((flags & FLAG_CONNECTED_SINCE != 0) == (flags % 2 == 1)) by (bit_vector);
    let metrics_present = flags & FLAG_LINK_METRICS != 0;
    if metrics_present && (!is_finite_f32_bits(rtt_bits) || !is_finite_f32_bits(jitter_bits)) {
        return Err(error("EdgeMouse sent invalid connection metrics"));
    }
    let name_is_empty = peer_name_length == 0;
    let telemetry = ConnectionTelemetry {
        phase,
        peer_name: if name_is_empty {
            None
        } else {
            Some(peer_name)
        },
        connected_since_unix_ms: if flags & FLAG_CONNECTED_SINCE != 0 {
            Some(connected_since)
        } else {
            None
        },
        metrics_updated_unix_ms: if metrics_present {
            Some(metrics_updated)
        } else {
            None
        },
        reconnect_count,
        rtt_ms_bits: if metrics_present {
            Some(rtt_bits)
        } else {
            None
        },
        jitter_ms_bits: if metrics_present {
            Some(jitter_bits)
        } else {
            None
        },
        send_interval_ms: if metrics_present {
            Some(send_interval_ms)
        } else {
            None
        },
        sent_moves,
        skipped_moves,
        coalesced_moves,
        received_moves,
        stale_moves,
        superseded_moves,
    };
    assert(telemetry@ == telemetry_fields(d@));
    Ok(telemetry)
}

/// Decodes the agent's response to `expected`.
pub fn decode_response(response: &[u8], expected: Command) -> (status: Result<
    RunningStatus,
    ControlError,
>)
    ensures
        match spec_decode_response(response@, expected) {
            Ok(v) => status matches Ok(s) && s@ == v,
            Err(m) => status matches Err(e) && e.spec_message() == m,
        },
{
    let magic = response_magic_bytes();
    if response.len() < RESPONSE_HEADER_LENGTH || !starts_with(response, magic.as_slice()) {
        return Err(error("EdgeMouse sent an invalid control response"));
    }
    let command = match Command::from_byte(response[8]) {
        Some(command) => command,
        None => return Err(error("EdgeMouse sent an unknown control response")),
    };
    if command != expected {
        return Err(error("EdgeMouse sent a response for the wrong control command"));
    }
    let process_id = get_be32(response, 9);
    let version_length = response[13] as usize;
    if version_length > MAX_VERSION_LENGTH || response.len() < RESPONSE_HEADER_LENGTH
        + version_length {
        return Err(error("EdgeMouse sent an invalid control response length"));
    }
    let version_end = RESPONSE_HEADER_LENGTH + version_length;
    let version = match utf8_text(slice_subrange(response, RESPONSE_HEADER_LENGTH, version_end)) {
        Some(version) => version,
        None => return Err(error("EdgeMouse sent an invalid version string")),
    };
    if version.as_str().is_empty() {
        return Err(error("EdgeMouse sent an empty version string"));
    }
    let connection = if response.len() == version_end {
        ConnectionTelemetry::default()
    } else {
        decode_telemetry(slice_subrange(response, version_end, response.len()))?
    };
    Ok(RunningStatus { process_id, version, connection })
}

/// Whether a status survives the trip through a response unchanged: its texts
/// fit their 63-byte fields, an absent peer name is `None` rather than empty,
/// and the link measurements are either all present (with finite rates) or all
/// absent.
pub open spec fn encodable_status(status: StatusView) -> bool {
    let t = status.connection;
    &&& 0 < encode_utf8(status.version).len() <= MAX_VERSION_LENGTH
    &&& (t.peer_name matches Some(name) ==> 0 < encode_utf8(name).len() <= MAX_PEER_NAME_LENGTH)
    &&& t.rtt_ms_bits is Some == t.metrics_updated_unix_ms is Some
    &&& t.jitter_ms_bits is Some == t.metrics_updated_unix_ms is Some
    &&& t.send_interval_ms is Some == t.metrics_updated_unix_ms is Some
    &&& (t.rtt_ms_bits matches Some(bits) ==> finite_f32_bits(bits))
    &&& (t.jitter_ms_bits matches Some(bits) ==> finite_f32_bits(bits))
}

proof fn lemma_counter_layout(t: TelemetryView)
    ensures
        counter_bytes(t).len() == 48,
        counter_bytes(t).subrange(0, 8) == be64(t.sent_moves),
        counter_bytes(t).subrange(8, 16) == be64(t.skipped_moves),
        counter_bytes(t).subrange(16, 24) == be64(t.coalesced_moves),
        counter_bytes(t).subrange(24, 32) == be64(t.received_moves),
        counter_bytes(t).subrange(32, 40) == be64(t.stale_moves),
        counter_bytes(t).subrange(40, 48) == be64(t.superseded_moves),
{
    lemma_be64(t.sent_moves);
    lemma_be64(t.skipped_moves);
    lemma_be64(t.coalesced_moves);
    lemma_be64(t.received_moves);
    lemma_be64(t.stale_moves);
    lemma_be64(t.superseded_moves);
    let c = counter_bytes(t);
    assert(c.subrange(0, 8) =~= be64(t.sent_moves));
    assert(c.subrange(8, 16) =~= be64(t.skipped_moves));
    assert(c.subrange(16, 24) =~= be64(t.coalesced_moves));
    assert(c.subrange(24, 32) =~= be64(t.received_moves));
    assert(c.subrange(32, 40) =~= be64(t.stale_moves));
    assert(c.subrange(40, 48) =~= be64(t.superseded_moves));
}

proof fn lemma_fixed_layout(t: TelemetryView)
    ensures
        telemetry_fixed_bytes(t).len() == 83,
        telemetry_fixed_bytes(t)[0] == TELEMETRY_VERSION,
        telemetry_fixed_bytes(t)[1] == t.phase.code(),
        telemetry_fixed_bytes(t)[2] == telemetry_flags(t),
        telemetry_fixed_bytes(t).subrange(3, 7) == be32(t.reconnect_count),
        telemetry_fixed_bytes(t).subrange(7, 15) == be64(or_zero64(t.connected_since_unix_ms)),
        telemetry_fixed_bytes(t).subrange(15, 23) == be64(or_zero64(t.metrics_updated_unix_ms)),
        telemetry_fixed_bytes(t).subrange(23, 27) == be32(or_zero32(t.rtt_ms_bits)),
        telemetry_fixed_bytes(t).subrange(27, 31) == be32(or_zero32(t.jitter_ms_bits)),
        telemetry_fixed_bytes(t).subrange(31, 35) == be32(or_zero32(t.send_interval_ms)),
        telemetry_fixed_bytes(t).subrange(35, 83) == counter_bytes(t),
{
    lemma_be32(t.reconnect_count);
    lemma_be64(or_zero64(t.connected_since_unix_ms));
    lemma_be64(or_zero64(t.metrics_updated_unix_ms));
    lemma_be32(or_zero32(t.rtt_ms_bits));
    lemma_be32(or_zero32(t.jitter_ms_bits));
    lemma_be32(or_zero32(t.send_interval_ms));
    lemma_counter_layout(t);
    let p0 = seq![TELEMETRY_VERSION, t.phase.code(), telemetry_flags(t)];
    let p1 = p0 + be32(t.reconnect_count);
    let p2 = p1 + be64(or_zero64(t.connected_since_unix_ms));
    let p3 = p2 + be64(or_zero64(t.metrics_updated_unix_ms));
    let p4 = p3 + be32(or_zero32(t.rtt_ms_bits));
    let p5 = p4 + be32(or_zero32(t.jitter_ms_bits));
    let p6 = p5 + be32(or_zero32(t.send_interval_ms));
    let f = telemetry_fixed_bytes(t);
    assert(f == p6 + counter_bytes(t));
    assert(f.subrange(35, 83) =~= counter_bytes(t));
    assert(f.subrange(31, 35) =~= be32(or_zero32(t.send_interval_ms)));
    assert(f.subrange(27, 31) =~= be32(or_zero32(t.jitter_ms_bits)));
    assert(f.subrange(23, 27) =~= be32(or_zero32(t.rtt_ms_bits)));
    assert(f.subrange(15, 23) =~= be64(or_zero64(t.metrics_updated_unix_ms)));
    assert(f.subrange(7, 15) =~= be64(or_zero64(t.connected_since_unix_ms)));
    assert(f.subrange(3, 7) =~= be32(t.reconnect_count));
}

proof fn lemma_telemetry_layout(t: TelemetryView)
    requires
        text_bytes(t.peer_name).len() <= MAX_PEER_NAME_LENGTH,
    ensures
        ({
            let d = telemetry_bytes(t);
            let name = text_bytes(t.peer_name);
            &&& d.len() == 84 + name.len()
            &&& d[0] == TELEMETRY_VERSION
            &&& d[1] == t.phase.code()
            &&& d[2] == telemetry_flags(t)
            &&& d[83] == name.len()
            &&& read_be32(d.subrange(3, 7)) == t.reconnect_count
            &&& read_be64(d.subrange(7, 15)) == or_zero64(t.connected_since_unix_ms)
            &&& read_be64(d.subrange(15, 23)) == or_zero64(t.metrics_updated_unix_ms)
            &&& read_be32(d.subrange(23, 27)) == or_zero32(t.rtt_ms_bits)
            &&& read_be32(d.subrange(27, 31)) == or_zero32(t.jitter_ms_bits)
            &&& read_be32(d.subrange(31, 35)) == or_zero32(t.send_interval_ms)
            &&& read_be64(d.subrange(35, 43)) == t.sent_moves
            &&& read_be64(d.subrange(43, 51)) == t.skipped_moves
            &&& read_be64(d.subrange(51, 59)) == t.coalesced_moves
            &&& read_be64(d.subrange(59, 67)) == t.received_moves
            &&& read_be64(d.subrange(67, 75)) == t.stale_moves
            &&& read_be64(d.subrange(75, 83)) == t.superseded_moves
            &&& d.subrange(84, d.len() as int) == name
        }),
{
    let d = telemetry_bytes(t);
    let f = telemetry_fixed_bytes(t);
    let name = text_bytes(t.peer_name);
    lemma_fixed_layout(t);
    lemma_counter_layout(t);
    assert(clipped(name, MAX_PEER_NAME_LENGTH as nat) == name);
    assert(d == f + seq![name.len() as u8] + name);
    assert(d.subrange(0, 83) =~= f);
    assert(d.subrange(84, d.len() as int) =~= name);
    assert(d.subrange(3, 7) =~= f.subrange(3, 7));
    assert(d.subrange(7, 15) =~= f.subrange(7, 15));
    assert(d.subrange(15, 23) =~= f.subrange(15, 23));
    assert(d.subrange(23, 27) =~= f.subrange(23, 27));
    assert(d.subrange(27, 31) =~= f.subrange(27, 31));
    assert(d.subrange(31, 35) =~= f.subrange(31, 35));
    let c = counter_bytes(t);
    assert(d.subrange(35, 43) =~= c.subrange(0, 8));
    assert(d.subrange(43, 51) =~= c.subrange(8, 16));
    assert(d.subrange(51, 59) =~= c.subrange(16, 24));
    assert(d.subrange(59, 67) =~= c.subrange(24, 32));
    assert(d.subrange(67, 75) =~= c.subrange(32, 40));
    assert(d.subrange(75, 83) =~= c.subrange(40, 48));
    lemma_be32(t.reconnect_count);
    lemma_be64(or_zero64(t.connected_since_unix_ms));
    lemma_be64(or_zero64(t.metrics_updated_unix_ms));
    lemma_be32(or_zero32(t.rtt_ms_bits));
    lemma_be32(or_zero32(t.jitter_ms_bits));
    lemma_be32(or_zero32(t.send_interval_ms));
    lemma_be64(t.sent_moves);
    lemma_be64(t.skipped_moves);
    lemma_be64(t.coalesced_moves);
    lemma_be64(t.received_moves);
    lemma_be64(t.stale_moves);
    lemma_be64(t.superseded_moves);
}

proof fn lemma_telemetry_round_trip(t: TelemetryView)
    requires
        t.peer_name matches Some(name) ==> 0 < encode_utf8(name).len() <= MAX_PEER_NAME_LENGTH,
        t.rtt_ms_bits is Some == t.metrics_updated_unix_ms is Some,
        t.jitter_ms_bits is Some == t.metrics_updated_unix_ms is Some,
        t.send_interval_ms is Some == t.metrics_updated_unix_ms is Some,
        t.rtt_ms_bits matches Some(bits) ==> finite_f32_bits(bits),
        t.jitter_ms_bits matches Some(bits) ==> finite_f32_bits(bits),
    ensures
        spec_decode_telemetry(telemetry_bytes(t)) == Ok::<TelemetryView, Seq<char>>(t),
{
    let d = telemetry_bytes(t);
    let name = text_bytes(t.peer_name);
    assert(name.len() <= MAX_PEER_NAME_LENGTH) by {
        if t.peer_name is None {
            assert(name =~= Seq::<u8>::empty());
        }
    }
    lemma_telemetry_layout(t);
    assert(phase_from_code(t.phase.code()) == Some(t.phase));
    let flags = telemetry_flags(t);
    assert(flags % 2 == 1 <==> t.connected_since_unix_ms is Some);
    assert((flags / 2) % 2 == 1 <==> t.metrics_updated_unix_ms is Some);
    match t.peer_name {
        Some(n) => {
            encode_utf8_valid_utf8(n);
            encode_utf8_decode_utf8(n);
        },
        None => {
            assert(name =~= Seq::<u8>::empty());
            assert(valid_utf8(name)) by {
                reveal_with_fuel(valid_utf8, 1);
            }
        },
    }
    assert(telemetry_fields(d) == t);
}

proof fn lemma_response_layout(command: Command, status: StatusView)
    requires
        encode_utf8(status.version).len() <= MAX_VERSION_LENGTH,
    ensures
        ({
            let r = spec_encode_response(command, status);
            let version = encode_utf8(status.version);
            let vend = 14int + version.len();
            &&& r.len() == vend + telemetry_bytes(status.connection).len()
            &&& r.subrange(0, 8) == response_magic()
            &&& r[8] == command.code()
            &&& read_be32(r.subrange(9, 13)) == status.process_id
            &&& r[13] == version.len()
            &&& r.subrange(14, vend) == version
            &&& r.subrange(vend, r.len() as int) == telemetry_bytes(status.connection)
        }),
{
    let r = spec_encode_response(command, status);
    let version = encode_utf8(status.version);
    let vend = 14int + version.len();
    assert(clipped(version, MAX_VERSION_LENGTH as nat) == version);
    lemma_be32(status.process_id);
    let head = response_magic().push(command.code()) + be32(status.process_id) + seq![
        version.len() as u8,
    ];
    assert(head.len() == 14);
    assert(r == head + version + telemetry_bytes(status.connection));
    assert(r.subrange(0, 8) =~= response_magic());
    assert(r.subrange(9, 13) =~= be32(status.process_id));
    assert(r.subrange(14, vend) =~= version);
    assert(r.subrange(vend, r.len() as int) =~= telemetry_bytes(status.connection));
}

/// A status the agent reports reaches the desktop app unchanged, and a response
/// is only accepted for the command it answers.
pub proof fn law_response_round_trip(command: Command, other: Command, status: StatusView)
    requires
        encodable_status(status),
    ensures
        spec_decode_response(spec_encode_response(command, status), command) == Ok::<
            StatusView,
            Seq<char>,
        >(status),
        other != command ==> spec_decode_response(spec_encode_response(command, status), other)
            is Err,
{
    let t = status.connection;
    lemma_response_layout(command, status);
    lemma_telemetry_round_trip(t);
    lemma_telemetry_layout(t);
    encode_utf8_valid_utf8(status.version);
    encode_utf8_decode_utf8(status.version);
    assert(command_from_code(command.code()) == Some(command));
}

impl ConnectionTelemetry {
    /// The connection is being (re-)established.
    pub fn begin_connecting(&mut self, reconnecting: bool)
        ensures
            final(self)@ == (TelemetryView {
                phase: if reconnecting {
                    ConnectionPhase::Reconnecting
                } else {
                    ConnectionPhase::Connecting
                },
                ..old(self)@
            }),
    {
        self.phase = if reconnecting {
            ConnectionPhase::Reconnecting
        } else {
            ConnectionPhase::Connecting
        };
    }

    /// Forgets the link measurements.
    pub fn clear_link_metrics(&mut self)
        ensures
            final(self)@ == (TelemetryView {
                metrics_updated_unix_ms: None,
                rtt_ms_bits: None,
                jitter_ms_bits: None,
                send_interval_ms: None,
                sent_moves: 0,
                skipped_moves: 0,
                coalesced_moves: 0,
                received_moves: 0,
                stale_moves: 0,
                superseded_moves: 0,
                ..old(self)@
            }),
    {
        self.metrics_updated_unix_ms = None;
        self.rtt_ms_bits = None;
        self.jitter_ms_bits = None;
        self.send_interval_ms = None;
        self.sent_moves = 0;
        self.skipped_moves = 0;
        self.coalesced_moves = 0;
        self.received_moves = 0;
        self.stale_moves = 0;
        self.superseded_moves = 0;
    }

    /// The peer `peer_name` is connected since `now_unix_ms`; measurements of
    /// any earlier link are dropped.
    pub fn connected(&mut self, peer_name: &str, now_unix_ms: u64)
        ensures
            final(self)@ == (TelemetryView {
                phase: ConnectionPhase::Connected,
                peer_name: Some(peer_name@),
                connected_since_unix_ms: Some(now_unix_ms),
                metrics_updated_unix_ms: None,
                rtt_ms_bits: None,
                jitter_ms_bits: None,
                send_interval_ms: None,
                sent_moves: 0,
                skipped_moves: 0,
                coalesced_moves: 0,
                received_moves: 0,
                stale_moves: 0,
                superseded_moves: 0,
                ..old(self)@
            }),
    {
        self.phase = ConnectionPhase::Connected;
        self.peer_name = Some(peer_name.to_owned());
        self.connected_since_unix_ms = Some(now_unix_ms);
        self.clear_link_metrics();
    }

    /// The link dropped: a connection that was up counts as one more
    /// reconnect (saturating), and its measurements are dropped.
    pub fn disconnected(&mut self)
        ensures
            final(self)@ == (TelemetryView {
                phase: ConnectionPhase::Reconnecting,
                reconnect_count: if old(self)@.phase == ConnectionPhase::Connected {
                    if old(self)@.reconnect_count == u32::MAX {
                        u32::MAX
                    } else {
                        (old(self)@.reconnect_count + 1) as u32
                    }
                } else {
                    old(self)@.reconnect_count
                },
                connected_since_unix_ms: None,
                metrics_updated_unix_ms: None,
                rtt_ms_bits: None,
                jitter_ms_bits: None,
                send_interval_ms: None,
                sent_moves: 0,
                skipped_moves: 0,
                coalesced_moves: 0,
                received_moves: 0,
                stale_moves: 0,
                superseded_moves: 0,
                ..old(self)@
            }),
    {
        if self.phase == ConnectionPhase::Connected {
            self.reconnect_count = self.reconnect_count.saturating_add(1);
        }
        self.phase = ConnectionPhase::Reconnecting;
        self.connected_since_unix_ms = None;
        self.clear_link_metrics();
    }

    /// Records fresh link measurements taken at `now_unix_ms`. Rates that were
    /// not finite arrive as `None`; the send interval saturates at `u32::MAX`.
    pub fn update_link(&mut self, metrics: LinkMetrics, now_unix_ms: u64)
        ensures
            final(self)@ == (TelemetryView {
                metrics_updated_unix_ms: Some(now_unix_ms),
                rtt_ms_bits: metrics.rtt_ms_bits,
                jitter_ms_bits: metrics.jitter_ms_bits,
                send_interval_ms: Some(
                    if metrics.send_interval_ms > u32::MAX {
                        u32::MAX
                    } else {
                        metrics.send_interval_ms as u32
                    },
                ),
                sent_moves: metrics.sent_moves,
                skipped_moves: metrics.skipped_moves,
                coalesced_moves: metrics.coalesced_moves,
                received_moves: metrics.received_moves,
                stale_moves: metrics.stale_moves,
                superseded_moves: metrics.superseded_moves,
                ..old(self)@
            }),
    {
        self.metrics_updated_unix_ms = Some(now_unix_ms);
        self.rtt_ms_bits = metrics.rtt_ms_bits;
        self.jitter_ms_bits = metrics.jitter_ms_bits;
        self.send_interval_ms = Some(
            if metrics.send_interval_ms > u32::MAX as u64 {
                u32::MAX
            } else {
                metrics.send_interval_ms as u32
            },
        );
        self.sent_moves = metrics.sent_moves;
        self.skipped_moves = metrics.skipped_moves;
        self.coalesced_moves = metrics.coalesced_moves;
        self.received_moves = metrics.received_moves;
        self.stale_moves = metrics.stale_moves;
        self.superseded_moves = metrics.superseded_moves;
    }
}

/// Link measurements of the running connection; the rates are `f32` bit
/// patterns, `None` where the measurement was not a finite number.
#[derive(Clone, Copy, Debug, PartialEq, Eq)]
pub struct LinkMetrics {
    pub rtt_ms_bits: Option<u32>,
    pub jitter_ms_bits: Option<u32>,
    pub send_interval_ms: u64,
    pub sent_moves: u64,
    pub skipped_moves: u64,
    pub coalesced_moves: u64,
    pub received_moves: u64,
    pub stale_moves: u64,
    pub superseded_moves: u64,
}

/// The pending layout change once the agent applied `peer_on`: a request for
/// that edge is done; a newer request for another edge stays pending.
pub fn complete_layout_update(pending: Option<Edge>, peer_on: Edge) -> (rest: Option<Edge>)
    ensures
        rest == if pending == Some(peer_on) {
            None::<Edge>
        } else {
            pending
        },
{
    match pending {
        Some(edge) => if edge == peer_on {
            None
        } else {
            pending
        },
        None => None,
    }
}

pub const AGENT_STATUS_MISS_TOLERANCE: u8 = 3;

/// The last status the desktop app heard from the agent, and how many status
/// queries in a row have gone unanswered since.
pub struct AgentStatusCache {
    pub last_status: Option<RunningStatus>,
    pub consecutive_misses: u8,
}

impl AgentStatusCache {
    pub fn new() -> (cache: AgentStatusCache)
        ensures
            cache.last_status is None,
            cache.consecutive_misses == 0,
    {
        AgentStatusCache { last_status: None, consecutive_misses: 0 }
    }

    /// The agent answered.
    pub fn record_answer(&mut self, status: RunningStatus)
        ensures
            final(self).last_status == Some(status),
            final(self).consecutive_misses == 0,
    {
        self.last_status = Some(status);
        self.consecutive_misses = 0;
    }

    /// The agent did not answer. A few misses in a row still report the last
    /// known status (as stale); after that the agent counts as stopped. Returns
    /// whether the last status is still reported.
    pub fn record_miss(&mut self) -> (still_running: bool)
        ensures
            final(self).consecutive_misses == if old(self).consecutive_misses == u8::MAX {
                u8::MAX
            } else {
                (old(self).consecutive_misses + 1) as u8
            },
            final(self).last_status == old(self).last_status,
            still_running == (final(self).consecutive_misses < AGENT_STATUS_MISS_TOLERANCE
                && old(self).last_status is Some),
    {
        self.consecutive_misses = if self.consecutive_misses == u8::MAX {
            u8::MAX
        } else {
            self.consecutive_misses + 1
        };
        self.consecutive_misses < AGENT_STATUS_MISS_TOLERANCE && self.last_status.is_some()
    }
}

/// A copy of a status, field by field.
fn copy_status(status: &RunningStatus) -> (copy: RunningStatus)
    ensures
        copy@ == status@,
{
    let c = &status.connection;
    let peer_name = match &c.peer_name {
        Some(name) => Some(name.clone()),
        None => None,
    };
    RunningStatus {
        process_id: status.process_id,
        version: status.version.clone(),
        connection: ConnectionTelemetry {
            phase: c.phase,
            peer_name,
            connected_since_unix_ms: c.connected_since_unix_ms,
            metrics_updated_unix_ms: c.metrics_updated_unix_ms,
            reconnect_count: c.reconnect_count,
            rtt_ms_bits: c.rtt_ms_bits,
            jitter_ms_bits: c.jitter_ms_bits,
            send_interval_ms: c.send_interval_ms,
            sent_moves: c.sent_moves,
            skipped_moves: c.skipped_moves,
            coalesced_moves: c.coalesced_moves,
            received_moves: c.received_moves,
            stale_moves: c.stale_moves,
            superseded_moves: c.superseded_moves,
        },
    }
}

/// What the desktop app shows of the agent.
pub struct AgentSnapshot {
    pub running: bool,
    pub status_fresh: bool,
    pub process_id: Option<u32>,
    pub version: String,
    pub connection: Option<ConnectionTelemetry>,
    pub error: Option<String>,
}

/// The snapshot of an agent known to run with `status`.
pub fn running_agent_snapshot(status: RunningStatus, status_fresh: bool, error: Option<String>) -> (snapshot: AgentSnapshot)
    ensures
        snapshot.running,
        snapshot.status_fresh == status_fresh,
        snapshot.process_id == Some(status.process_id),
        snapshot.version@ == status.version@,
        snapshot.connection matches Some(c) && c@ == status.connection@,
        text_view(snapshot.error) == text_view(error),
{
    AgentSnapshot {
        running: true,
        status_fresh,
        process_id: Some(status.process_id),
        version: status.version,
        connection: Some(status.connection),
        error,
    }
}

/// What a missed status query reports when no error text came with it.
pub open spec fn no_answer_detail() -> Seq<char> {
    "本机状态通道暂时没有响应"@
}

/// What a stale report adds after the reason it is stale.
pub open spec fn confirming_suffix() -> Seq<char> {
    "；正在自动确认后台服务状态"@
}

/// The snapshot after a status query went unanswered (`query_error` is the
/// failure's text, if the query failed rather than found no agent): the miss
/// is counted; while fewer than `AGENT_STATUS_MISS_TOLERANCE` misses in a row
/// have been counted and a status was heard before, that status is reported
/// as still running but stale, with the reason; otherwise the agent is
/// reported stopped, with `app_version` and the query's error.
pub fn missed_agent_snapshot(
    cache: &mut AgentStatusCache,
    query_error: Option<String>,
    app_version: &str,
) -> (snapshot: AgentSnapshot)
    ensures
        final(cache).consecutive_misses == if old(cache).consecutive_misses == u8::MAX {
            u8::MAX
        } else {
            (old(cache).consecutive_misses + 1) as u8
        },
        final(cache).last_status == old(cache).last_status,
        !snapshot.status_fresh,
        snapshot.running == (final(cache).consecutive_misses < AGENT_STATUS_MISS_TOLERANCE
            && old(cache).last_status is Some),
        snapshot.running ==> ({
            let last = old(cache).last_status.unwrap();
            let detail = match query_error {
                Some(e) => e@,
                None => no_answer_detail(),
            };
            &&& snapshot.process_id == Some(last.process_id)
            &&& snapshot.version@ == last.version@
            &&& snapshot.connection matches Some(c) && c@ == last.connection@
            &&& text_view(snapshot.error) == Some(detail + confirming_suffix())
        }),
        !snapshot.running ==> {
            &&& snapshot.process_id is None
            &&& snapshot.connection is None
            &&& snapshot.version@ == app_version@
            &&& text_view(snapshot.error) == text_view(query_error)
        },
{
    let still_running = cache.record_miss();
    if still_running {
        if let Some(last) = &cache.last_status {
            let status = copy_status(last);
            let error = match query_error {
                Some(e) => concat2(e.as_str(), "；正在自动确认后台服务状态"),
                None => concat2("本机状态通道暂时没有响应", "；正在自动确认后台服务状态"),
            };
            proof {
                reveal_strlit("；正在自动确认后台服务状态");
                reveal_strlit("本机状态通道暂时没有响应");
            }
            return running_agent_snapshot(status, false, Some(error));
        }
    }
    AgentSnapshot {
        running: false,
        status_fresh: false,
        process_id: None,
        version: app_version.to_owned(),
        connection: None,
        error: query_error,
    }
}

/// The kinds of socket failure the control client tells apart.
#[derive(Debug, Clone, Copy, PartialEq, Eq, Structural)]
pub enum IoErrorKind {
    WouldBlock,
    TimedOut,
    ConnectionRefused,
    ConnectionReset,
    Other,
}

/// Whether a socket failure only means that nobody answered: the agent is not
/// running (its loopback port is closed) or did not reply in time.
pub fn is_no_response_kind(kind: IoErrorKind) -> (no_response: bool)
    ensures
        no_response == (kind != IoErrorKind::Other),
{
    !matches!(kind, IoErrorKind::Other)
}

#[verifier::external_type_specification]
#[verifier::external_body]
pub struct ExIoError(std::io::Error);

/// The kind of an I/O error as the control client tells kinds apart: what
/// `std::io::Error::kind` gives, with every kind but the four as `Other`.
pub uninterp spec fn io_kind(error: std::io::Error) -> IoErrorKind;

/// `std::io::Error::kind`, with the four kinds the control client tells apart
/// kept and every other kind as `Other`. The kind is a property of the error
/// value, which is opaque here, so it is named and not stated.
#[verifier::external_body]
fn io_error_kind(error: &std::io::Error) -> (kind: IoErrorKind)
    ensures
        kind == io_kind(*error),
{
    match error.kind() {
        std::io::ErrorKind::WouldBlock => IoErrorKind::WouldBlock,
        std::io::ErrorKind::TimedOut => IoErrorKind::TimedOut,
        std::io::ErrorKind::ConnectionRefused => IoErrorKind::ConnectionRefused,
        std::io::ErrorKind::ConnectionReset => IoErrorKind::ConnectionReset,
        _ => IoErrorKind::Other,
    }
}

/// Whether a failed status query only means that the agent did not answer:
/// its kind is one of the four that say nobody answered.
pub fn is_no_response(error: &std::io::Error) -> (no_response: bool)
    ensures
        no_response == (io_kind(*error) != IoErrorKind::Other),
{
    is_no_response_kind(io_error_kind(error))
}

} // verus!
