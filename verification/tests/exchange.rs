use edgemouse::exchange::{ExchangeAction, ExchangeNext, PairingExchange, Phase};
use edgemouse::pairing::{
    ensure_certificate_installable, rejected_attempt, CertificateRecord, PairingConfig,
    PairingError, PairingOffer, PAIRING_PORT,
};
use edgemouse::topology::NodeId;
use std::collections::VecDeque;
use std::path::PathBuf;

const HOST_CERTIFICATE: &[u8] = b"host certificate";
const JOINER_CERTIFICATE: &[u8] = b"joiner certificate";

fn config(name: &str, certificate: &[u8], node: u128) -> PairingConfig {
    PairingConfig {
        local_name: name.to_owned(),
        local_certificate: certificate.to_vec(),
        local_node: NodeId(node),
        peer_certificate_path: PathBuf::from("peer.der"),
        timeout_ms: 2_000,
    }
}

fn derive(certificate: &[u8]) -> Result<NodeId, String> {
    if certificate == HOST_CERTIFICATE {
        Ok(NodeId(0x1111))
    } else if certificate == JOINER_CERTIFICATE {
        Ok(NodeId(0x2222))
    } else {
        Err("unknown certificate".to_owned())
    }
}

struct Side {
    exchange: PairingExchange,
    action: Option<ExchangeAction>,
    inbox: VecDeque<u8>,
    outcome: Option<Result<CertificateRecord, PairingError>>,
    derive: fn(&[u8]) -> Result<NodeId, String>,
}

impl Side {
    fn new(started: (PairingExchange, ExchangeAction)) -> Self {
        Side {
            exchange: started.0,
            action: Some(started.1),
            inbox: VecDeque::new(),
            outcome: None,
            derive,
        }
    }

    /// Runs this side until it waits for bytes or ends; returns what it wrote.
    fn run(&mut self) -> Vec<u8> {
        let mut written = Vec::new();
        while let Some(mut action) = self.action.take() {
            written.append(&mut action.send);
            let next = match action.next {
                ExchangeNext::Receive { length, context } => {
                    if self.inbox.len() < length {
                        self.action = Some(ExchangeAction {
                            send: Vec::new(),
                            send_context: "",
                            next: ExchangeNext::Receive { length, context },
                        });
                        return written;
                    }
                    let bytes: Vec<u8> = self.inbox.drain(..length).collect();
                    self.exchange.received(bytes)
                }
                ExchangeNext::Proceed => self.exchange.proceed(),
                ExchangeNext::DeriveNode { certificate } => {
                    self.exchange.node_derived((self.derive)(&certificate))
                }
                ExchangeNext::CheckInstallable { .. } => self.exchange.installable(Ok(false)),
                ExchangeNext::Finish { peer } => {
                    self.outcome = Some(Ok(peer));
                    return written;
                }
                ExchangeNext::Fail { error } => {
                    self.outcome = Some(Err(error));
                    return written;
                }
            };
            self.action = Some(next);
        }
        written
    }
}

fn offer(id: [u8; 16]) -> PairingOffer {
    PairingOffer {
        id,
        tcp_port: PAIRING_PORT,
        name: "windows-pc".to_owned(),
    }
}

/// Runs both sides against each other until neither moves.
fn pair(host: &mut Side, joiner: &mut Side) {
    for _ in 0..32 {
        let from_host = host.run();
        joiner.inbox.extend(from_host);
        let from_joiner = joiner.run();
        host.inbox.extend(from_joiner);
        if host.outcome.is_some() && joiner.outcome.is_some() {
            return;
        }
    }
}

fn sides(host_code: &str, joiner_code: &str, expected: Option<[u8; 16]>) -> (Side, Side) {
    let host = Side::new(PairingExchange::host(
        config("windows-pc", HOST_CERTIFICATE, 0x1111),
        &offer([42; 16]),
        host_code.to_owned(),
    ));
    let joiner = Side::new(PairingExchange::join(
        config("macbook", JOINER_CERTIFICATE, 0x2222),
        joiner_code.to_owned(),
        expected,
    ));
    (host, joiner)
}

#[test]
fn loopback_exchange_authenticates_both_certificates() {
    let (mut host, mut joiner) = sides("12345678", "12345678", None);
    pair(&mut host, &mut joiner);
    let host_record = joiner.outcome.unwrap().unwrap();
    let joiner_record = host.outcome.unwrap().unwrap();
    assert_eq!(host_record.name, "windows-pc");
    assert_eq!(host_record.certificate, HOST_CERTIFICATE);
    assert_eq!(host_record.node, NodeId(0x1111));
    assert_eq!(joiner_record.name, "macbook");
    assert_eq!(joiner_record.certificate, JOINER_CERTIFICATE);
    assert_eq!(joiner_record.node, NodeId(0x2222));
    assert!(host.exchange.phase == Phase::Done);
    assert!(joiner.exchange.phase == Phase::Done);
}

#[test]
fn a_discovered_offer_must_match_the_tcp_offer() {
    let (mut host, mut joiner) = sides("12345678", "12345678", Some([42; 16]));
    pair(&mut host, &mut joiner);
    assert!(joiner.outcome.unwrap().is_ok());

    let (mut host, mut joiner) = sides("12345678", "12345678", Some([43; 16]));
    pair(&mut host, &mut joiner);
    assert_eq!(
        joiner.outcome.unwrap().unwrap_err().message(),
        "TCP pairing host does not match the discovered one-time offer"
    );
}

#[test]
fn a_wrong_code_fails_authentication_on_both_sides() {
    let (mut host, mut joiner) = sides("12345678", "87654321", None);
    pair(&mut host, &mut joiner);
    assert_eq!(
        joiner.outcome.unwrap().unwrap_err().message(),
        "pairing authentication failed; verify the short code and restart both pairing commands"
    );
    assert!(host.outcome.map_or(true, |outcome| outcome.is_err()));
    assert!(host.exchange.phase != Phase::Done);
}

#[test]
fn an_invalid_peer_certificate_is_refused() {
    let (mut host, mut joiner) = sides("12345678", "12345678", None);
    joiner.derive = |_| Err("not DER".to_owned());
    pair(&mut host, &mut joiner);
    assert_eq!(
        joiner.outcome.unwrap().unwrap_err().message(),
        "paired certificate is invalid: not DER"
    );
    assert!(host.outcome.is_none());
}

#[test]
fn the_host_starts_with_its_offer_frame() {
    let (host, action) = PairingExchange::host(
        config("windows-pc", HOST_CERTIFICATE, 0x1111),
        &offer([1; 16]),
        "12345678".to_owned(),
    );
    assert!(host.phase == Phase::AwaitHello);
    assert_eq!(&action.send[..2], &[0, 37]);
    assert_eq!(&action.send[2..10], b"EDGPAIR1");
    assert!(matches!(
        action.next,
        ExchangeNext::Receive { length: 57, .. }
    ));

    let (mut host, _) = PairingExchange::host(
        config("windows-pc", HOST_CERTIFICATE, 0x1111),
        &offer([1; 16]),
        "12345678".to_owned(),
    );
    let mut hello = b"EDGPAKE1".to_vec();
    hello.extend_from_slice(&[2; 16]);
    hello.extend_from_slice(&[0; 33]);
    let action = host.received(hello);
    match action.next {
        ExchangeNext::Fail { error } => assert_eq!(
            error.message(),
            "pairing key exchange does not match this one-time offer"
        ),
        _ => panic!("a hello for another offer must be refused"),
    }
}

#[test]
fn the_joiner_bounds_the_offer_length() {
    let (mut joiner, action) = PairingExchange::join(
        config("macbook", JOINER_CERTIFICATE, 0x2222),
        "12345678".to_owned(),
        None,
    );
    assert!(action.send.is_empty());
    assert!(matches!(action.next, ExchangeNext::Receive { length: 2, .. }));
    match joiner.received(vec![0, 91]).next {
        ExchangeNext::Fail { error } => assert_eq!(
            error.message(),
            "TCP pairing offer has an invalid bounded length"
        ),
        _ => panic!("an offer longer than the bound must be refused"),
    }
}

#[test]
fn existing_certificates_are_never_replaced() {
    assert_eq!(ensure_certificate_installable(None, b"first", "peer.der").unwrap(), false);
    assert_eq!(
        ensure_certificate_installable(Some(b"first".to_vec()), b"first", "peer.der").unwrap(),
        true
    );
    assert_eq!(
        ensure_certificate_installable(Some(b"first".to_vec()), b"different", "peer.der")
            .unwrap_err()
            .message(),
        "refusing to replace a different trusted certificate at peer.der; move it aside only if you intentionally want to pair a different machine"
    );
}

#[test]
fn the_host_gives_up_after_three_rejected_attempts() {
    let last = PairingError::new("bad code".to_owned());
    assert!(rejected_attempt(1, &last).is_none());
    assert!(rejected_attempt(2, &last).is_none());
    assert_eq!(
        rejected_attempt(3, &last).unwrap().message(),
        "pairing stopped after 3 rejected attempts; restart it to get a new code (last error: bad code)"
    );
}

#[test]
fn a_tampered_confirmation_is_refused_and_nothing_is_accepted() {
    let (mut host, mut joiner) = sides("12345678", "12345678", None);
    for _ in 0..32 {
        let from_host = host.run();
        joiner.inbox.extend(from_host);
        if joiner.exchange.phase == Phase::AwaitConfirmation && joiner.inbox.len() >= 32 {
            joiner.inbox[0] ^= 1;
        }
        let from_joiner = joiner.run();
        host.inbox.extend(from_joiner);
        if joiner.outcome.is_some() {
            break;
        }
    }
    assert_eq!(
        joiner.outcome.unwrap().unwrap_err().message(),
        "pairing key confirmation failed; no certificate was saved"
    );
    assert!(joiner.exchange.phase == Phase::Failed);
}

#[test]
fn a_host_point_that_does_not_decode_is_refused_as_corrupt() {
    let mut corrupt = 0;
    for y in 2u8..40 {
        let (mut host, mut joiner) = sides("12345678", "12345678", None);
        let offer = host.run();
        joiner.inbox.extend(offer);
        let hello = joiner.run();
        host.inbox.extend(hello);
        let mut from_host = host.run();
        assert!(from_host.len() >= 57);
        from_host[25] = y;
        for byte in &mut from_host[26..57] {
            *byte = 0;
        }
        joiner.inbox.extend(from_host);
        joiner.run();
        if let Some(Err(error)) = &joiner.outcome {
            if error.message() == "invalid SPAKE2 host message: corrupt message" {
                corrupt += 1;
            }
        }
    }
    assert!(corrupt > 0);
}
