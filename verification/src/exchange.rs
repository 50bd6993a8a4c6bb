//! The pairing exchange over one TCP connection, as a state machine: the
//! caller performs each transfer it asks for and hands back what arrived. The
//! SPAKE2 key agreement runs through the `spake2` crate.
use crate::pairing::{
    authenticate_record, authenticated_record_frame, confirmation_auth_data, confirmation_tag,
    decode_offer, encode_record, exchange_matches, exchange_message, exchange_message_bytes,
    hmac_sha256, lemma_confirmation_auth_data_fits, lemma_record_auth_data_fits,
    lemma_record_payload_bounded, local_record, offer_fault, offer_packet,
    record_auth_data, record_fault, record_length_ok, record_payload, spake_identity_bytes,
    spec_decode_offer, spec_parse_record, tcp_offer_frame, tcp_offer_length_ok,
    verify_confirmation, check_record_identity, CertificateRecord, PairingConfig, PairingError,
    PairingOffer, RecordView, EXCHANGE_MESSAGE_LEN, HMAC_LEN, PAIRING_DISCOVERY_HEADER_LEN,
    PAIRING_DISCOVERY_MAX_LEN, PAIRING_RECORD_HEADER_LEN, PAIRING_RECORD_MAX_LEN, ROLE_HOST,
    ROLE_JOINER, SPAKE_MESSAGE_LEN,
};
use crate::pake::{
    side_byte, spake_element_decodes, spake_fault_message, spake_fault_text, spake_finish,
    spake_start_host, spake_start_joiner, PakeSession, SpakeFault,
};
use crate::text::concat2;
use crate::topology::NodeId;
use crate::wire::{be16, get_be16, get_be32, read_be16, read_be32};
use vstd::prelude::*;
use vstd::slice::slice_subrange;
use vstd::utf8::*;

verus! {

/// What the caller does after writing `send`.
pub enum ExchangeNext {
    /// Read exactly `length` bytes and hand them to `received`; a failed read
    /// ends the exchange with `context`.
    Receive { length: usize, context: &'static str },
    /// Call `proceed`.
    Proceed,
    /// Derive the node ID that the peer's certificate yields and hand it to
    /// `node_derived`.
    DeriveNode { certificate: Vec<u8> },
    /// Find whether the peer's certificate can be installed and hand the
    /// answer to `installable`.
    CheckInstallable { certificate: Vec<u8> },
    /// The exchange succeeded with this peer.
    Finish { peer: CertificateRecord },
    /// The exchange failed.
    Fail { error: PairingError },
}

/// One step of the exchange: write `send` (nothing when empty; a failed write
/// ends the exchange with `send_context`), then do `next`.
pub struct ExchangeAction {
    pub send: Vec<u8>,
    pub send_context: &'static str,
    pub next: ExchangeNext,
}

/// Where an exchange stands.
#[derive(Debug, Clone, Copy, PartialEq, Eq, Structural)]
pub enum Phase {
    AwaitHello,
    HostKeying,
    AwaitOfferLength,
    AwaitOffer,
    AwaitHostHello,
    AwaitRecordLength,
    AwaitRecord,
    AwaitNode,
    AwaitInstallable,
    AwaitConfirmation,
    Done,
    Failed,
}

/// One side of a pairing exchange. `host` tells the side; the transcript
/// fields fill as the exchange goes on.
pub struct PairingExchange {
    pub host: bool,
    pub phase: Phase,
    pub awaiting: usize,
    pub config: PairingConfig,
    pub code: String,
    pub expected_offer: Option<[u8; 16]>,
    pub offer_id: [u8; 16],
    pub pake: Option<PakeSession>,
    pub key: Vec<u8>,
    pub client_spake: Vec<u8>,
    pub host_spake: Vec<u8>,
    pub local_payload: Vec<u8>,
    pub peer_payload: Vec<u8>,
    pub peer: Option<CertificateRecord>,
    pub peer_tag: Ghost<Seq<u8>>,
    pub derived_node: Ghost<u128>,
    pub peer_confirmation: Ghost<Seq<u8>>,
}

pub open spec fn joiner_word() -> Seq<u8> {
    encode_utf8("joiner"@)
}

pub open spec fn host_word() -> Seq<u8> {
    encode_utf8("host"@)
}

pub open spec fn fails_with(a: ExchangeAction, message: Seq<char>) -> bool {
    &&& a.send@.len() == 0
    &&& a.next matches ExchangeNext::Fail { error } && error.spec_message() == message
}

pub open spec fn receives(a: ExchangeAction, length: int, context: Seq<char>) -> bool {
    a.next matches ExchangeNext::Receive { length: l, context: c } && l == length && c@ == context
}

impl PairingExchange {
    pub open spec fn own_role(&self) -> u8 {
        if self.host {
            ROLE_HOST
        } else {
            ROLE_JOINER
        }
    }

    pub open spec fn peer_role(&self) -> u8 {
        if self.host {
            ROLE_JOINER
        } else {
            ROLE_HOST
        }
    }

    /// The word the peer confirms with.
    pub open spec fn peer_confirmer(&self) -> Seq<u8> {
        if self.host {
            joiner_word()
        } else {
            host_word()
        }
    }

    pub open spec fn own_record(&self) -> RecordView {
        RecordView {
            role: self.own_role(),
            node: self.config.local_node.0,
            name: self.config.local_name@,
            certificate: self.config.local_certificate@,
        }
    }

    pub open spec fn host_payload(&self) -> Seq<u8> {
        if self.host {
            self.local_payload@
        } else {
            self.peer_payload@
        }
    }

    pub open spec fn client_payload(&self) -> Seq<u8> {
        if self.host {
            self.peer_payload@
        } else {
            self.local_payload@
        }
    }

    /// The session key and both SPAKE2 messages are in place.
    pub open spec fn keyed(&self) -> bool {
        &&& self.key@.len() == 32
        &&& self.client_spake@.len() == SPAKE_MESSAGE_LEN
        &&& self.host_spake@.len() == SPAKE_MESSAGE_LEN
    }

    /// This side's record, as sent.
    pub open spec fn own_record_sent(&self) -> bool {
        &&& record_fault(self.own_record()) is None
        &&& self.local_payload@ == record_payload(self.own_record())
    }

    /// The peer's record carried the tag of the transcript under the session
    /// key, and reads as a record of the peer's role.
    pub open spec fn record_authenticated(&self) -> bool {
        &&& self.peer_payload@.len() <= PAIRING_RECORD_MAX_LEN
        &&& self.peer_tag@ == hmac_sha256(
            self.key@,
            record_auth_data(
                self.offer_id@,
                self.client_spake@,
                self.host_spake@,
                self.peer_payload@,
            ),
        )
        &&& self.peer matches Some(p) && spec_parse_record(self.peer_payload@, self.peer_role())
            == Ok::<RecordView, Seq<char>>(p@)
    }

    /// The peer's certificate yields the node its record announces, and that
    /// node is not this computer.
    pub open spec fn identity_checked(&self) -> bool {
        self.peer matches Some(p) && p.node.0 == self.derived_node@ && p.node.0
            != self.config.local_node.0
    }

    /// The peer confirmed the whole transcript under the session key.
    pub open spec fn confirmed(&self) -> bool {
        self.peer_confirmation@ == hmac_sha256(
            self.key@,
            confirmation_auth_data(
                self.offer_id@,
                self.client_spake@,
                self.host_spake@,
                self.host_payload(),
                self.client_payload(),
                self.peer_confirmer(),
            ),
        )
    }

    /// What holds in each phase.
    pub open spec fn wf(&self) -> bool {
        match self.phase {
            Phase::AwaitHello => self.host && self.awaiting == EXCHANGE_MESSAGE_LEN,
            Phase::HostKeying => {
                &&& self.host
                &&& self.pake matches Some(s) && s.is_host()
                &&& self.client_spake@.len() == SPAKE_MESSAGE_LEN
                &&& self.host_spake@.len() == SPAKE_MESSAGE_LEN
            },
            Phase::AwaitOfferLength => !self.host && self.awaiting == 2,
            Phase::AwaitOffer => !self.host && PAIRING_DISCOVERY_HEADER_LEN <= self.awaiting
                <= PAIRING_DISCOVERY_MAX_LEN,
            Phase::AwaitHostHello => {
                &&& !self.host
                &&& self.awaiting == EXCHANGE_MESSAGE_LEN
                &&& self.pake matches Some(s) && !s.is_host()
                &&& self.client_spake@.len() == SPAKE_MESSAGE_LEN
            },
            Phase::AwaitRecordLength => {
                &&& self.keyed()
                &&& self.awaiting == 4
                &&& self.host ==> self.own_record_sent()
            },
            Phase::AwaitRecord => {
                &&& self.keyed()
                &&& PAIRING_RECORD_HEADER_LEN + HMAC_LEN <= self.awaiting <= PAIRING_RECORD_MAX_LEN
                    + HMAC_LEN
                &&& self.host ==> self.own_record_sent()
            },
            Phase::AwaitNode => {
                &&& self.keyed()
                &&& self.record_authenticated()
                &&& self.host ==> self.own_record_sent()
            },
            Phase::AwaitInstallable => {
                &&& self.keyed()
                &&& self.record_authenticated()
                &&& self.identity_checked()
                &&& self.host ==> self.own_record_sent()
            },
            Phase::AwaitConfirmation => {
                &&& self.keyed()
                &&& self.record_authenticated()
                &&& self.identity_checked()
                &&& self.own_record_sent()
                &&& self.awaiting == HMAC_LEN
            },
            Phase::Done => {
                &&& self.keyed()
                &&& self.record_authenticated()
                &&& self.identity_checked()
                &&& self.own_record_sent()
                &&& self.confirmed()
            },
            Phase::Failed => true,
        }
    }

    /// Whether the exchange waits for bytes.
    pub open spec fn receiving(&self) -> bool {
        ||| self.phase == Phase::AwaitHello
        ||| self.phase == Phase::AwaitOfferLength
        ||| self.phase == Phase::AwaitOffer
        ||| self.phase == Phase::AwaitHostHello
        ||| self.phase == Phase::AwaitRecordLength
        ||| self.phase == Phase::AwaitRecord
        ||| self.phase == Phase::AwaitConfirmation
    }

    /// The fields that no step changes.
    pub open spec fn same_session(&self, other: &PairingExchange) -> bool {
        &&& self.host == other.host
        &&& self.config.local_node == other.config.local_node
        &&& self.config.local_name@ == other.config.local_name@
        &&& self.config.local_certificate@ == other.config.local_certificate@
        &&& self.code@ == other.code@
        &&& self.expected_offer == other.expected_offer
    }
}

fn fail(message: &str) -> (action: ExchangeAction)
    ensures
        fails_with(action, message@),
{
    ExchangeAction {
        send: Vec::new(),
        send_context: "",
        next: ExchangeNext::Fail { error: PairingError::new(message.to_owned()) },
    }
}

fn fail_with(error: PairingError) -> (action: ExchangeAction)
    ensures
        fails_with(action, error.spec_message()),
{
    ExchangeAction { send: Vec::new(), send_context: "", next: ExchangeNext::Fail { error } }
}

fn receive(length: usize, context: &'static str) -> (action: ExchangeAction)
    ensures
        action.send@.len() == 0,
        receives(action, length as int, context@),
{
    ExchangeAction { send: Vec::new(), send_context: "", next: ExchangeNext::Receive { length, context } }
}


impl PairingExchange {
    fn fresh(host: bool, config: PairingConfig, code: String, expected_offer: Option<[u8; 16]>, offer_id: [u8; 16]) -> (x: PairingExchange)
        ensures
            x.host == host,
            x.phase == Phase::Failed,
            x.config == config,
            x.code == code,
            x.expected_offer == expected_offer,
            x.offer_id == offer_id,
            x.pake is None,
            x.peer is None,
    {
        PairingExchange {
            host,
            phase: Phase::Failed,
            awaiting: 0,
            config,
            code,
            expected_offer,
            offer_id,
            pake: None,
            key: Vec::new(),
            client_spake: Vec::new(),
            host_spake: Vec::new(),
            local_payload: Vec::new(),
            peer_payload: Vec::new(),
            peer: None,
            peer_tag: Ghost(Seq::empty()),
            derived_node: Ghost(0),
            peer_confirmation: Ghost(Seq::empty()),
        }
    }

    /// The host's side of a connection a joiner opened for `offer`, with the
    /// one-time `code`: it first sends the offer in its TCP frame and waits
    /// for the joiner's key-exchange message.
    pub fn host(config: PairingConfig, offer: &PairingOffer, code: String) -> (started: (
        PairingExchange,
        ExchangeAction,
    ))
        ensures
            started.0.wf(),
            started.0.host,
            started.0.config == config,
            started.0.code == code,
            started.0.offer_id == offer.id,
            match offer_fault(offer@) {
                None => {
                    &&& started.0.phase == Phase::AwaitHello
                    &&& started.1.send@ == be16(offer_packet(offer@).len() as u16) + offer_packet(
                        offer@,
                    )
                    &&& started.1.send_context@ == "failed to send TCP pairing offer"@
                    &&& receives(
                        started.1,
                        EXCHANGE_MESSAGE_LEN as int,
                        "failed to read pairing key exchange"@,
                    )
                },
                Some(m) => started.0.phase == Phase::Failed && fails_with(started.1, m),
            },
    {
        let mut x = PairingExchange::fresh(true, config, code, None, offer.id);
        match tcp_offer_frame(offer) {
            Err(error) => (x, fail_with(error)),
            Ok(frame) => {
                x.phase = Phase::AwaitHello;
                x.awaiting = EXCHANGE_MESSAGE_LEN;
                (
                    x,
                    ExchangeAction {
                        send: frame,
                        send_context: "failed to send TCP pairing offer",
                        next: ExchangeNext::Receive {
                            length: EXCHANGE_MESSAGE_LEN,
                            context: "failed to read pairing key exchange",
                        },
                    },
                )
            },
        }
    }

    /// The joiner's side of a connection to a host, with the code it was
    /// given and, when the host was discovered, the offer it announced: it
    /// first reads the length of the host's offer.
    pub fn join(config: PairingConfig, code: String, expected_offer: Option<[u8; 16]>) -> (started: (
        PairingExchange,
        ExchangeAction,
    ))
        ensures
            started.0.wf(),
            !started.0.host,
            started.0.config == config,
            started.0.code == code,
            started.0.expected_offer == expected_offer,
            started.0.phase == Phase::AwaitOfferLength,
            started.1.send@.len() == 0,
            receives(started.1, 2, "failed to read TCP pairing offer"@),
    {
        let mut x = PairingExchange::fresh(false, config, code, expected_offer, [0u8; 16]);
        x.phase = Phase::AwaitOfferLength;
        x.awaiting = 2;
        (x, receive(2, "failed to read TCP pairing offer"))
    }
}


fn copy_record(r: &CertificateRecord) -> (copy: CertificateRecord)
    ensures
        copy@ == r@,
{
    CertificateRecord {
        role: r.role,
        node: r.node,
        name: r.name.clone(),
        certificate: r.certificate.clone(),
    }
}

/// Whether two offer IDs are the same.
fn same_id(a: &[u8; 16], b: &[u8; 16]) -> (same: bool)
    ensures
        same == (a@ == b@),
{
    let mut i: usize = 0;
    while i < 16
        invariant
            i <= 16,
            a@.len() == 16,
            b@.len() == 16,
            forall|j: int| 0 <= j < i ==> a@[j] == b@[j],
        decreases 16 - i,
    {
        if a[i] != b[i] {
            return false;
        }
        i = i + 1;
    }
    assert(a@ =~= b@);
    true
}

/// The offer ID in a decoded offer, as an array.
fn offer_id_array(id: &[u8; 16]) -> (copy: [u8; 16])
    ensures
        copy@ == id@,
{
    let mut copy = [0u8; 16];
    let mut i: usize = 0;
    while i < 16
        invariant
            i <= 16,
            copy@.len() == 16,
            id@.len() == 16,
            forall|j: int| 0 <= j < i ==> copy@[j] == id@[j],
        decreases 16 - i,
    {
        copy[i] = id[i];
        i = i + 1;
    }
    assert(copy@ =~= id@);
    copy
}

/// What follows the length of the host's offer.
pub open spec fn after_offer_length(x: PairingExchange, bytes: Seq<u8>, y: PairingExchange, a: ExchangeAction) -> bool {
    let length = read_be16(bytes);
    if PAIRING_DISCOVERY_HEADER_LEN <= length <= PAIRING_DISCOVERY_MAX_LEN {
        &&& y.phase == Phase::AwaitOffer
        &&& a.send@.len() == 0
        &&& receives(a, length as int, "failed to read TCP pairing offer"@)
    } else {
        y.phase == Phase::Failed && fails_with(a, "TCP pairing offer has an invalid bounded length"@)
    }
}

/// What follows the host's offer.
pub open spec fn after_offer(x: PairingExchange, bytes: Seq<u8>, y: PairingExchange, a: ExchangeAction) -> bool {
    match spec_decode_offer(bytes) {
        Err(m) => y.phase == Phase::Failed && fails_with(a, m),
        Ok(offer) => if x.expected_offer matches Some(expected) && expected@ != offer.id {
            &&& y.phase == Phase::Failed
            &&& fails_with(a, "TCP pairing host does not match the discovered one-time offer"@)
        } else {
            &&& y.phase == Phase::AwaitHostHello
            &&& y.offer_id@ == offer.id
            &&& y.client_spake@[0] == side_byte(false)
            &&& a.send@ == exchange_message_bytes(offer.id, y.client_spake@)
            &&& a.send_context@ == "failed to send pairing key exchange"@
            &&& receives(a, EXCHANGE_MESSAGE_LEN as int, "failed to read pairing key exchange"@)
        },
    }
}

/// What follows the host's key-exchange message.
pub open spec fn after_host_hello(x: PairingExchange, bytes: Seq<u8>, y: PairingExchange, a: ExchangeAction) -> bool {
    if !(bytes.subrange(0, 8) == crate::pairing::exchange_magic() && bytes.subrange(8, 24) == x.offer_id@) {
        y.phase == Phase::Failed && fails_with(a, "pairing host replied for a different one-time offer"@)
    } else if bytes[24] != side_byte(true) {
        y.phase == Phase::Failed && fails_with(a, "invalid SPAKE2 host message: bad side"@)
    } else if !spake_element_decodes(bytes.subrange(25, 57)) {
        y.phase == Phase::Failed && fails_with(a, "invalid SPAKE2 host message: corrupt message"@)
    } else {
        &&& y.phase == Phase::AwaitRecordLength
        &&& y.host_spake@ == bytes.subrange(24, 57)
        &&& y.client_spake@ == x.client_spake@
        &&& y.offer_id@ == x.offer_id@
        &&& a.send@.len() == 0
        &&& receives(a, 4, "failed to read authenticated certificate"@)
    }
}

impl PairingExchange {
    fn offer_length(&mut self, bytes: &[u8]) -> (action: ExchangeAction)
        requires
            old(self).wf(),
            old(self).phase == Phase::AwaitOfferLength,
            bytes@.len() == 2,
        ensures
            final(self).wf(),
            final(self).same_session(old(self)),
            after_offer_length(*old(self), bytes@, *final(self), action),
    {
        let length = get_be16(bytes, 0);
        assert(bytes@.subrange(0, 2) =~= bytes@);
        if !tcp_offer_length_ok(length) {
            self.phase = Phase::Failed;
            return fail("TCP pairing offer has an invalid bounded length");
        }
        self.phase = Phase::AwaitOffer;
        self.awaiting = length as usize;
        receive(length as usize, "failed to read TCP pairing offer")
    }

    fn offer(&mut self, bytes: &[u8]) -> (action: ExchangeAction)
        requires
            old(self).wf(),
            old(self).phase == Phase::AwaitOffer,
        ensures
            final(self).wf(),
            final(self).same_session(old(self)),
            after_offer(*old(self), bytes@, *final(self), action),
    {
        let offer = match decode_offer(bytes) {
            Ok(offer) => offer,
            Err(error) => {
                self.phase = Phase::Failed;
                return fail_with(error);
            },
        };
        if let Some(expected) = &self.expected_offer {
            if !same_id(expected, &offer.id) {
                self.phase = Phase::Failed;
                return fail("TCP pairing host does not match the discovered one-time offer");
            }
        }
        self.offer_id = offer_id_array(&offer.id);
        let (id_a, id_b) = spake_identity_bytes(&self.offer_id);
        let (session, client_spake) = spake_start_joiner(self.code.as_str(), id_a.as_slice(), id_b.as_slice());
        if client_spake.len() != SPAKE_MESSAGE_LEN {
            self.phase = Phase::Failed;
            return fail("SPAKE2 produced an unexpected client message length");
        }
        let message = match exchange_message(&self.offer_id, client_spake.as_slice()) {
            Ok(message) => message,
            Err(error) => {
                self.phase = Phase::Failed;
                return fail_with(error);
            },
        };
        self.pake = Some(session);
        self.client_spake = client_spake;
        self.phase = Phase::AwaitHostHello;
        self.awaiting = EXCHANGE_MESSAGE_LEN;
        ExchangeAction {
            send: message,
            send_context: "failed to send pairing key exchange",
            next: ExchangeNext::Receive {
                length: EXCHANGE_MESSAGE_LEN,
                context: "failed to read pairing key exchange",
            },
        }
    }

    fn host_hello(&mut self, bytes: &[u8]) -> (action: ExchangeAction)
        requires
            old(self).wf(),
            old(self).phase == Phase::AwaitHostHello,
            bytes@.len() == EXCHANGE_MESSAGE_LEN,
        ensures
            final(self).wf(),
            final(self).same_session(old(self)),
            after_host_hello(*old(self), bytes@, *final(self), action),
    {
        if !exchange_matches(bytes, &self.offer_id) {
            self.phase = Phase::Failed;
            return fail("pairing host replied for a different one-time offer");
        }
        let host_spake = vstd::slice::slice_to_vec(slice_subrange(bytes, 24, EXCHANGE_MESSAGE_LEN));
        assert(host_spake@.subrange(1, 33) =~= bytes@.subrange(25, 57));
        assert(host_spake@[0] == bytes@[24]);
        let session = self.pake.take().unwrap();
        match spake_finish(session, host_spake.as_slice()) {
            Err(fault) => {
                self.phase = Phase::Failed;
                let message = concat2("invalid SPAKE2 host message: ", spake_fault_message(fault));
                let action = fail_with(PairingError::new(message));
                proof {
                    reveal_strlit("invalid SPAKE2 host message: bad side");
                    reveal_strlit("invalid SPAKE2 host message: corrupt message");
                    reveal_strlit("invalid SPAKE2 host message: ");
                    reveal_strlit("bad side");
                    reveal_strlit("corrupt message");
                    assert("invalid SPAKE2 host message: "@ + "bad side"@ =~= "invalid SPAKE2 host message: bad side"@);
                    assert("invalid SPAKE2 host message: "@ + "corrupt message"@ =~= "invalid SPAKE2 host message: corrupt message"@);
                }
                action
            },
            Ok(key) => {
                self.key = key;
                self.host_spake = host_spake;
                self.phase = Phase::AwaitRecordLength;
                self.awaiting = 4;
                receive(4, "failed to read authenticated certificate")
            },
        }
    }
}


/// What follows the joiner's key-exchange message, on the host.
pub open spec fn after_hello(x: PairingExchange, bytes: Seq<u8>, y: PairingExchange, a: ExchangeAction) -> bool {
    if !(bytes.subrange(0, 8) == crate::pairing::exchange_magic() && bytes.subrange(8, 24) == x.offer_id@) {
        y.phase == Phase::Failed && fails_with(a, "pairing key exchange does not match this one-time offer"@)
    } else {
        &&& y.phase == Phase::HostKeying
        &&& y.client_spake@ == bytes.subrange(24, 57)
        &&& y.offer_id@ == x.offer_id@
        &&& y.host_spake@[0] == side_byte(true)
        &&& a.send@ == exchange_message_bytes(x.offer_id@, y.host_spake@)
        &&& a.send_context@ == "failed to send pairing key exchange"@
        &&& a.next is Proceed
    }
}

/// What follows on the host once its key-exchange message is out.
pub open spec fn after_keying(x: PairingExchange, y: PairingExchange, a: ExchangeAction) -> bool {
    if x.client_spake@[0] != side_byte(false) {
        y.phase == Phase::Failed && fails_with(a, "invalid SPAKE2 client message: bad side"@)
    } else if !spake_element_decodes(x.client_spake@.subrange(1, 33)) {
        y.phase == Phase::Failed && fails_with(a, "invalid SPAKE2 client message: corrupt message"@)
    } else if record_fault(x.own_record()) is Some {
        y.phase == Phase::Failed && fails_with(a, record_fault(x.own_record())->0)
    } else {
        &&& y.phase == Phase::AwaitRecordLength
        &&& y.local_payload@ == record_payload(x.own_record())
        &&& a.send@ == crate::wire::be32(y.local_payload@.len() as u32) + y.local_payload@
            + hmac_sha256(
            y.key@,
            record_auth_data(y.offer_id@, y.client_spake@, y.host_spake@, y.local_payload@),
        )
        &&& a.send_context@ == "failed to send authenticated certificate"@
        &&& receives(a, 4, "failed to read authenticated certificate"@)
    }
}

impl PairingExchange {
    fn hello(&mut self, bytes: &[u8]) -> (action: ExchangeAction)
        requires
            old(self).wf(),
            old(self).phase == Phase::AwaitHello,
            bytes@.len() == EXCHANGE_MESSAGE_LEN,
        ensures
            final(self).wf(),
            final(self).same_session(old(self)),
            after_hello(*old(self), bytes@, *final(self), action),
    {
        if !exchange_matches(bytes, &self.offer_id) {
            self.phase = Phase::Failed;
            return fail("pairing key exchange does not match this one-time offer");
        }
        let client_spake = vstd::slice::slice_to_vec(slice_subrange(bytes, 24, EXCHANGE_MESSAGE_LEN));
        let (id_a, id_b) = spake_identity_bytes(&self.offer_id);
        let (session, host_spake) = spake_start_host(self.code.as_str(), id_a.as_slice(), id_b.as_slice());
        if host_spake.len() != SPAKE_MESSAGE_LEN {
            self.phase = Phase::Failed;
            return fail("SPAKE2 produced an unexpected host message length");
        }
        let message = match exchange_message(&self.offer_id, host_spake.as_slice()) {
            Ok(message) => message,
            Err(error) => {
                self.phase = Phase::Failed;
                return fail_with(error);
            },
        };
        self.pake = Some(session);
        self.client_spake = client_spake;
        self.host_spake = host_spake;
        self.phase = Phase::HostKeying;
        ExchangeAction {
            send: message,
            send_context: "failed to send pairing key exchange",
            next: ExchangeNext::Proceed,
        }
    }

    /// The host, once its key-exchange message is out: completes the key
    /// agreement with the joiner's message and sends its own record.
    pub fn proceed(&mut self) -> (action: ExchangeAction)
        requires
            old(self).wf(),
            old(self).phase == Phase::HostKeying,
        ensures
            final(self).wf(),
            final(self).same_session(old(self)),
            after_keying(*old(self), *final(self), action),
    {
        let session = self.pake.take().unwrap();
        let key = match spake_finish(session, self.client_spake.as_slice()) {
            Ok(key) => key,
            Err(fault) => {
                self.phase = Phase::Failed;
                let message = concat2("invalid SPAKE2 client message: ", spake_fault_message(fault));
                proof {
                    reveal_strlit("invalid SPAKE2 client message: bad side");
                    reveal_strlit("invalid SPAKE2 client message: corrupt message");
                    reveal_strlit("invalid SPAKE2 client message: ");
                    reveal_strlit("bad side");
                    reveal_strlit("corrupt message");
                    assert("invalid SPAKE2 client message: "@ + "bad side"@ =~= "invalid SPAKE2 client message: bad side"@);
                    assert("invalid SPAKE2 client message: "@ + "corrupt message"@ =~= "invalid SPAKE2 client message: corrupt message"@);
                }
                return fail_with(PairingError::new(message));
            },
        };
        let payload = match encode_record(&local_record(&self.config, ROLE_HOST)) {
            Ok(payload) => payload,
            Err(error) => {
                self.phase = Phase::Failed;
                return fail_with(error);
            },
        };
        proof {
            lemma_record_payload_bounded(old(self).own_record());
            lemma_record_auth_data_fits(
                key@,
                self.offer_id@,
                self.client_spake@,
                self.host_spake@,
                payload@,
            );
        }
        let frame = match authenticated_record_frame(
            key.as_slice(),
            &self.offer_id,
            self.client_spake.as_slice(),
            self.host_spake.as_slice(),
            payload.as_slice(),
        ) {
            Ok(frame) => frame,
            Err(error) => {
                self.phase = Phase::Failed;
                return fail_with(error);
            },
        };
        self.key = key;
        self.local_payload = payload;
        self.phase = Phase::AwaitRecordLength;
        self.awaiting = 4;
        ExchangeAction {
            send: frame,
            send_context: "failed to send authenticated certificate",
            next: ExchangeNext::Receive { length: 4, context: "failed to read authenticated certificate" },
        }
    }
}


/// What follows the length of the peer's record.
pub open spec fn after_record_length(x: PairingExchange, bytes: Seq<u8>, y: PairingExchange, a: ExchangeAction) -> bool {
    let length = read_be32(bytes);
    if PAIRING_RECORD_HEADER_LEN <= length <= PAIRING_RECORD_MAX_LEN {
        &&& y.phase == Phase::AwaitRecord
        &&& a.send@.len() == 0
        &&& receives(a, length + HMAC_LEN, "failed to read authenticated certificate"@)
    } else {
        &&& y.phase == Phase::Failed
        &&& fails_with(a, "authenticated certificate has an invalid bounded length"@)
    }
}

/// What follows the peer's record and its tag.
pub open spec fn after_record(x: PairingExchange, bytes: Seq<u8>, y: PairingExchange, a: ExchangeAction) -> bool {
    let payload = bytes.subrange(0, bytes.len() - HMAC_LEN);
    let tag = bytes.subrange(bytes.len() - HMAC_LEN, bytes.len() as int);
    if tag != hmac_sha256(x.key@, record_auth_data(x.offer_id@, x.client_spake@, x.host_spake@, payload)) {
        &&& y.phase == Phase::Failed
        &&& fails_with(a, "pairing authentication failed; verify the short code and restart both pairing commands"@)
    } else {
        match spec_parse_record(payload, x.peer_role()) {
            Err(m) => y.phase == Phase::Failed && fails_with(a, m),
            Ok(record) => {
                &&& y.phase == Phase::AwaitNode
                &&& y.peer matches Some(p) && p@ == record
                &&& y.peer_payload@ == payload
                &&& a.send@.len() == 0
                &&& a.next matches ExchangeNext::DeriveNode { certificate } && certificate@ == record.certificate
            },
        }
    }
}

/// What follows the peer's key confirmation.
pub open spec fn after_confirmation(x: PairingExchange, bytes: Seq<u8>, y: PairingExchange, a: ExchangeAction) -> bool {
    if bytes != hmac_sha256(
        x.key@,
        confirmation_auth_data(
            x.offer_id@,
            x.client_spake@,
            x.host_spake@,
            x.host_payload(),
            x.client_payload(),
            x.peer_confirmer(),
        ),
    ) {
        y.phase == Phase::Failed && fails_with(a, "pairing key confirmation failed; no certificate was saved"@)
    } else {
        &&& y.phase == Phase::Done
        &&& a.next matches ExchangeNext::Finish { peer } && x.peer matches Some(p) && peer@ == p@
        &&& if x.host {
            a.send@.len() == 0
        } else {
            &&& a.send@ == hmac_sha256(
                x.key@,
                confirmation_auth_data(
                    x.offer_id@,
                    x.client_spake@,
                    x.host_spake@,
                    x.host_payload(),
                    x.client_payload(),
                    joiner_word(),
                ),
            )
            &&& a.send_context@ == "failed to send pairing confirmation"@
        }
    }
}

impl PairingExchange {
    fn record_length(&mut self, bytes: &[u8]) -> (action: ExchangeAction)
        requires
            old(self).wf(),
            old(self).phase == Phase::AwaitRecordLength,
            bytes@.len() == 4,
        ensures
            final(self).wf(),
            final(self).same_session(old(self)),
            after_record_length(*old(self), bytes@, *final(self), action),
    {
        let length = get_be32(bytes, 0);
        assert(bytes@.subrange(0, 4) =~= bytes@);
        if !record_length_ok(length) {
            self.phase = Phase::Failed;
            return fail("authenticated certificate has an invalid bounded length");
        }
        let awaiting = length as usize + HMAC_LEN;
        self.phase = Phase::AwaitRecord;
        self.awaiting = awaiting;
        receive(awaiting, "failed to read authenticated certificate")
    }

    fn record(&mut self, bytes: &[u8]) -> (action: ExchangeAction)
        requires
            old(self).wf(),
            old(self).phase == Phase::AwaitRecord,
            bytes@.len() == old(self).awaiting,
        ensures
            final(self).wf(),
            final(self).same_session(old(self)),
            after_record(*old(self), bytes@, *final(self), action),
    {
        let split = bytes.len() - HMAC_LEN;
        let payload = slice_subrange(bytes, 0, split);
        let tag = slice_subrange(bytes, split, bytes.len());
        let role = if self.host { ROLE_JOINER } else { ROLE_HOST };
        proof {
            lemma_record_auth_data_fits(
                self.key@,
                self.offer_id@,
                self.client_spake@,
                self.host_spake@,
                payload@,
            );
        }
        let record = match authenticate_record(
            self.key.as_slice(),
            &self.offer_id,
            self.client_spake.as_slice(),
            self.host_spake.as_slice(),
            payload,
            tag,
            role,
        ) {
            Ok(record) => record,
            Err(error) => {
                self.phase = Phase::Failed;
                return fail_with(error);
            },
        };
        let certificate = record.certificate.clone();
        self.peer_payload = vstd::slice::slice_to_vec(payload);
        self.peer = Some(record);
        self.peer_tag = Ghost(tag@);
        self.phase = Phase::AwaitNode;
        ExchangeAction {
            send: Vec::new(),
            send_context: "",
            next: ExchangeNext::DeriveNode { certificate },
        }
    }

    fn confirmation(&mut self, bytes: &[u8]) -> (action: ExchangeAction)
        requires
            old(self).wf(),
            old(self).phase == Phase::AwaitConfirmation,
            bytes@.len() == HMAC_LEN,
        ensures
            final(self).wf(),
            final(self).same_session(old(self)),
            after_confirmation(*old(self), bytes@, *final(self), action),
    {
        proof {
            reveal_strlit("joiner");
            reveal_strlit("host");
            vstd::utf8::is_ascii_chars_encode_utf8("joiner"@);
            vstd::utf8::is_ascii_chars_encode_utf8("host"@);
            lemma_record_payload_bounded(old(self).own_record());
        }
        let confirmer = if self.host { "joiner".as_bytes() } else { "host".as_bytes() };
        let (host_payload, client_payload) = if self.host {
            (self.local_payload.as_slice(), self.peer_payload.as_slice())
        } else {
            (self.peer_payload.as_slice(), self.local_payload.as_slice())
        };
        proof {
            lemma_confirmation_auth_data_fits(
                self.key@,
                self.offer_id@,
                self.client_spake@,
                self.host_spake@,
                host_payload@,
                client_payload@,
                confirmer@,
            );
            lemma_confirmation_auth_data_fits(
                self.key@,
                self.offer_id@,
                self.client_spake@,
                self.host_spake@,
                host_payload@,
                client_payload@,
                vstd::utf8::encode_utf8("joiner"@),
            );
        }
        let verified = verify_confirmation(
            self.key.as_slice(),
            &self.offer_id,
            self.client_spake.as_slice(),
            self.host_spake.as_slice(),
            host_payload,
            client_payload,
            confirmer,
            bytes,
        );
        if let Err(error) = verified {
            self.phase = Phase::Failed;
            return fail_with(error);
        }
        let send = if self.host {
            Vec::new()
        } else {
            confirmation_tag(
                self.key.as_slice(),
                &self.offer_id,
                self.client_spake.as_slice(),
                self.host_spake.as_slice(),
                host_payload,
                client_payload,
                "joiner".as_bytes(),
            )
        };
        let peer = copy_record(self.peer.as_ref().unwrap());
        self.peer_confirmation = Ghost(bytes@);
        self.phase = Phase::Done;
        ExchangeAction {
            send,
            send_context: "failed to send pairing confirmation",
            next: ExchangeNext::Finish { peer },
        }
    }
}


/// What follows the node ID the peer's certificate yields.
pub open spec fn after_node(x: PairingExchange, derived: Result<NodeId, String>, y: PairingExchange, a: ExchangeAction) -> bool {
    let peer = x.peer->Some_0;
    match derived {
        Err(reason) => y.phase == Phase::Failed && fails_with(a, "paired certificate is invalid: "@ + reason@),
        Ok(node) => if peer.node.0 != node.0 {
            &&& y.phase == Phase::Failed
            &&& fails_with(a, "paired certificate does not match its announced node ID"@)
        } else if peer.node.0 == x.config.local_node.0 {
            &&& y.phase == Phase::Failed
            &&& fails_with(a, "the other machine presented this machine's own certificate"@)
        } else {
            &&& y.phase == Phase::AwaitInstallable
            &&& a.send@.len() == 0
            &&& a.next matches ExchangeNext::CheckInstallable { certificate } && certificate@ == peer.certificate@
        },
    }
}

/// What follows the answer whether the peer's certificate can be installed.
pub open spec fn after_installable(x: PairingExchange, answer: Result<bool, PairingError>, y: PairingExchange, a: ExchangeAction) -> bool {
    match answer {
        Err(error) => y.phase == Phase::Failed && fails_with(a, error.spec_message()),
        Ok(_) => if x.host {
            &&& y.phase == Phase::AwaitConfirmation
            &&& a.send@ == hmac_sha256(
                x.key@,
                confirmation_auth_data(
                    x.offer_id@,
                    x.client_spake@,
                    x.host_spake@,
                    x.host_payload(),
                    x.client_payload(),
                    host_word(),
                ),
            )
            &&& a.send_context@ == "failed to send pairing confirmation"@
            &&& receives(a, HMAC_LEN as int, "failed to read pairing confirmation"@)
        } else {
            match record_fault(x.own_record()) {
                Some(m) => y.phase == Phase::Failed && fails_with(a, m),
                None => {
                    &&& y.phase == Phase::AwaitConfirmation
                    &&& y.local_payload@ == record_payload(x.own_record())
                    &&& a.send@ == crate::wire::be32(y.local_payload@.len() as u32) + y.local_payload@
                        + hmac_sha256(
                        x.key@,
                        record_auth_data(x.offer_id@, x.client_spake@, x.host_spake@, y.local_payload@),
                    )
                    &&& a.send_context@ == "failed to send authenticated certificate"@
                    &&& receives(a, HMAC_LEN as int, "failed to read pairing confirmation"@)
                },
            }
        },
    }
}

impl PairingExchange {
    /// Takes the node ID the peer's certificate yields, or why the
    /// certificate is invalid.
    pub fn node_derived(&mut self, derived: Result<NodeId, String>) -> (action: ExchangeAction)
        requires
            old(self).wf(),
            old(self).phase == Phase::AwaitNode,
        ensures
            final(self).wf(),
            final(self).same_session(old(self)),
            after_node(*old(self), derived, *final(self), action),
    {
        let ghost node: u128 = match derived {
            Ok(n) => n.0,
            Err(_) => 0,
        };
        let record = self.peer.take().unwrap();
        match check_record_identity(record, derived, self.config.local_node) {
            Err(error) => {
                self.phase = Phase::Failed;
                fail_with(error)
            },
            Ok(record) => {
                let certificate = record.certificate.clone();
                self.peer = Some(record);
                self.derived_node = Ghost(node);
                self.phase = Phase::AwaitInstallable;
                ExchangeAction {
                    send: Vec::new(),
                    send_context: "",
                    next: ExchangeNext::CheckInstallable { certificate },
                }
            },
        }
    }

    /// Takes whether the peer's certificate can be installed.
    pub fn installable(&mut self, answer: Result<bool, PairingError>) -> (action: ExchangeAction)
        requires
            old(self).wf(),
            old(self).phase == Phase::AwaitInstallable,
        ensures
            final(self).wf(),
            final(self).same_session(old(self)),
            after_installable(*old(self), answer, *final(self), action),
    {
        if let Err(error) = answer {
            self.phase = Phase::Failed;
            return fail_with(error);
        }
        proof {
            reveal_strlit("host");
            vstd::utf8::is_ascii_chars_encode_utf8("host"@);
        }
        if self.host {
            proof {
                lemma_record_payload_bounded(old(self).own_record());
                lemma_confirmation_auth_data_fits(
                    self.key@,
                    self.offer_id@,
                    self.client_spake@,
                    self.host_spake@,
                    self.local_payload@,
                    self.peer_payload@,
                    vstd::utf8::encode_utf8("host"@),
                );
            }
            let tag = confirmation_tag(
                self.key.as_slice(),
                &self.offer_id,
                self.client_spake.as_slice(),
                self.host_spake.as_slice(),
                self.local_payload.as_slice(),
                self.peer_payload.as_slice(),
                "host".as_bytes(),
            );
            self.phase = Phase::AwaitConfirmation;
            self.awaiting = HMAC_LEN;
            return ExchangeAction {
                send: tag,
                send_context: "failed to send pairing confirmation",
                next: ExchangeNext::Receive {
                    length: HMAC_LEN,
                    context: "failed to read pairing confirmation",
                },
            };
        }
        let payload = match encode_record(&local_record(&self.config, ROLE_JOINER)) {
            Ok(payload) => payload,
            Err(error) => {
                self.phase = Phase::Failed;
                return fail_with(error);
            },
        };
        proof {
            lemma_record_payload_bounded(old(self).own_record());
            lemma_record_auth_data_fits(
                self.key@,
                self.offer_id@,
                self.client_spake@,
                self.host_spake@,
                payload@,
            );
        }
        let frame = match authenticated_record_frame(
            self.key.as_slice(),
            &self.offer_id,
            self.client_spake.as_slice(),
            self.host_spake.as_slice(),
            payload.as_slice(),
        ) {
            Ok(frame) => frame,
            Err(error) => {
                self.phase = Phase::Failed;
                return fail_with(error);
            },
        };
        self.local_payload = payload;
        self.phase = Phase::AwaitConfirmation;
        self.awaiting = HMAC_LEN;
        ExchangeAction {
            send: frame,
            send_context: "failed to send authenticated certificate",
            next: ExchangeNext::Receive { length: HMAC_LEN, context: "failed to read pairing confirmation" },
        }
    }
}


impl PairingExchange {
    /// Takes the bytes read for the last `Receive`.
    pub fn received(&mut self, bytes: Vec<u8>) -> (action: ExchangeAction)
        requires
            old(self).wf(),
            old(self).receiving(),
            bytes@.len() == old(self).awaiting,
        ensures
            final(self).wf(),
            final(self).same_session(old(self)),
            old(self).phase == Phase::AwaitHello ==> after_hello(*old(self), bytes@, *final(self), action),
            old(self).phase == Phase::AwaitOfferLength ==> after_offer_length(*old(self), bytes@, *final(self), action),
            old(self).phase == Phase::AwaitOffer ==> after_offer(*old(self), bytes@, *final(self), action),
            old(self).phase == Phase::AwaitHostHello ==> after_host_hello(*old(self), bytes@, *final(self), action),
            old(self).phase == Phase::AwaitRecordLength ==> after_record_length(*old(self), bytes@, *final(self), action),
            old(self).phase == Phase::AwaitRecord ==> after_record(*old(self), bytes@, *final(self), action),
            old(self).phase == Phase::AwaitConfirmation ==> after_confirmation(*old(self), bytes@, *final(self), action),
    {
        match self.phase {
            Phase::AwaitHello => self.hello(bytes.as_slice()),
            Phase::AwaitOfferLength => self.offer_length(bytes.as_slice()),
            Phase::AwaitOffer => self.offer(bytes.as_slice()),
            Phase::AwaitHostHello => self.host_hello(bytes.as_slice()),
            Phase::AwaitRecordLength => self.record_length(bytes.as_slice()),
            Phase::AwaitRecord => self.record(bytes.as_slice()),
            _ => self.confirmation(bytes.as_slice()),
        }
    }
}

/// A finished exchange has authenticated its peer: the peer's record came
/// with the tag of the transcript under the session key and reads as a record
/// of the peer's role, its certificate yields the node the record announces,
/// which is not this computer, this side's own record went out unchanged, and
/// the peer confirmed the whole transcript, both records included, under the
/// same key.
pub proof fn law_finished_exchange_is_authenticated(x: PairingExchange)
    requires
        x.wf(),
        x.phase == Phase::Done,
    ensures
        x.peer matches Some(p) && {
            &&& spec_parse_record(x.peer_payload@, x.peer_role()) == Ok::<RecordView, Seq<char>>(p@)
            &&& x.peer_tag@ == hmac_sha256(
                x.key@,
                record_auth_data(x.offer_id@, x.client_spake@, x.host_spake@, x.peer_payload@),
            )
            &&& p.node.0 == x.derived_node@
            &&& p.node.0 != x.config.local_node.0
        },
        x.local_payload@ == record_payload(x.own_record()),
        x.peer_confirmation@ == hmac_sha256(
            x.key@,
            confirmation_auth_data(
                x.offer_id@,
                x.client_spake@,
                x.host_spake@,
                x.host_payload(),
                x.client_payload(),
                x.peer_confirmer(),
            ),
        ),
{
}

} // verus!
