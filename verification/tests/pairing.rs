use edgemouse::pairing::{
    authenticate_record, authenticated_record_frame, check_record_identity,
    confirmation_authentication_data, confirmation_tag, decode_offer, encode_offer, encode_record,
    exchange_matches, exchange_message, format_code, generate_code, normalize_code,
    parse_record, record_authentication_data, record_tag, spake_identity_bytes,
    tcp_offer_length_ok, validate_config, verify_confirmation, CertificateRecord, PairingConfig,
    PairingOffer, PAIRING_PORT, SPAKE_MESSAGE_LEN, after_failed_publish, temporary_name_taken,
};
use edgemouse::topology::NodeId;
use ring::hmac;
use spake2::{Ed25519Group, Identity as SpakeIdentity, Password, Spake2};
use std::path::PathBuf;

#[test]
fn codes_are_normalized_and_strictly_validated() {
    assert_eq!(normalize_code("1234-5678").unwrap(), "12345678");
    assert_eq!(normalize_code("1234 5678").unwrap(), "12345678");
    assert!(normalize_code("1234567").is_err());
    assert!(normalize_code("1234-abcd").is_err());
    let generated = generate_code().unwrap();
    assert_eq!(generated.len(), 8);
    assert!(generated.bytes().all(|byte| byte.is_ascii_digit()));
}

#[test]
fn codes_are_shown_in_two_groups() {
    assert_eq!(format_code("12345678"), "1234-5678");
    assert_eq!(
        normalize_code("１２３４５６７８").unwrap_err().message(),
        "pairing code must contain exactly 8 digits (for example 1234-5678)"
    );
}

#[test]
fn offers_round_trip_and_reject_malformed_lengths() {
    let offer = PairingOffer {
        id: [7; 16],
        tcp_port: PAIRING_PORT,
        name: "Windows 电脑".to_owned(),
    };
    let packet = encode_offer(&offer).unwrap();
    assert_eq!(decode_offer(&packet).unwrap(), offer);
    assert!(decode_offer(&packet[..20]).is_err());
    let mut trailing = packet;
    trailing.push(0);
    assert!(decode_offer(&trailing).is_err());
    assert!(tcp_offer_length_ok(27));
    assert!(tcp_offer_length_ok(90));
    assert!(!tcp_offer_length_ok(91));
}

#[test]
fn certificate_records_round_trip_and_bind_node_id() {
    let record = CertificateRecord {
        role: b'A',
        node: NodeId(0x1234),
        name: "macbook".to_owned(),
        certificate: vec![1, 2, 3, 4],
    };
    let payload = encode_record(&record).unwrap();
    assert_eq!(parse_record(&payload, b'A').unwrap(), record);
    assert_eq!(
        parse_record(&payload, b'B').unwrap_err().message(),
        "certificate record has the wrong role"
    );
    let mut forged = payload.clone();
    forged[24] ^= 1;
    let forged = parse_record(&forged, b'A').unwrap();
    assert_eq!(
        check_record_identity(forged, Ok(NodeId(0x1234)), NodeId(999))
            .unwrap_err()
            .message(),
        "paired certificate does not match its announced node ID"
    );
    let own = parse_record(&payload, b'A').unwrap();
    assert_eq!(
        check_record_identity(own.clone(), Ok(NodeId(0x1234)), NodeId(0x1234))
            .unwrap_err()
            .message(),
        "the other machine presented this machine's own certificate"
    );
    assert_eq!(
        check_record_identity(own.clone(), Err("bad der".to_owned()), NodeId(1))
            .unwrap_err()
            .message(),
        "paired certificate is invalid: bad der"
    );
    assert_eq!(
        check_record_identity(own, Ok(NodeId(0x1234)), NodeId(1)).unwrap(),
        record
    );
}

#[test]
fn different_codes_do_not_authenticate_the_same_record() {
    let offer_id = [9; 16];
    let (id_a, id_b) = spake_identity_bytes(&offer_id);
    let (id_a, id_b) = (SpakeIdentity::new(&id_a), SpakeIdentity::new(&id_b));
    let (state_a, message_a) =
        Spake2::<Ed25519Group>::start_a(&Password::new(b"12345678"), &id_a, &id_b);
    let (state_b, message_b) =
        Spake2::<Ed25519Group>::start_b(&Password::new(b"87654321"), &id_a, &id_b);
    let key_a = state_a.finish(&message_b).unwrap();
    let key_b = state_b.finish(&message_a).unwrap();
    let payload = b"certificate";
    let tag = record_tag(&key_a, &offer_id, &message_a, &message_b, payload);
    let key = hmac::Key::new(hmac::HMAC_SHA256, &key_b);
    assert!(
        hmac::verify(
            &key,
            &record_authentication_data(&offer_id, &message_a, &message_b, payload),
            &tag,
        )
        .is_err()
    );
}

#[test]
fn authenticated_records_are_framed_and_checked() {
    let key = [5_u8; 32];
    let offer = [6_u8; 16];
    let client = [1_u8; SPAKE_MESSAGE_LEN];
    let host = [2_u8; SPAKE_MESSAGE_LEN];
    let record = CertificateRecord {
        role: b'B',
        node: NodeId(77),
        name: "windows-pc".to_owned(),
        certificate: vec![9; 10],
    };
    let payload = encode_record(&record).unwrap();
    let frame = authenticated_record_frame(&key, &offer, &client, &host, &payload).unwrap();
    assert_eq!(&frame[..4], &(payload.len() as u32).to_be_bytes());
    let tag = &frame[4 + payload.len()..];
    assert_eq!(tag.len(), 32);
    let expected = hmac::sign(
        &hmac::Key::new(hmac::HMAC_SHA256, &key),
        &record_authentication_data(&offer, &client, &host, &payload),
    );
    assert_eq!(tag, expected.as_ref());
    assert_eq!(
        authenticate_record(&key, &offer, &client, &host, &payload, tag, b'B').unwrap(),
        record
    );
    let mut wrong = tag.to_vec();
    wrong[0] ^= 1;
    assert!(authenticate_record(&key, &offer, &client, &host, &payload, &wrong, b'B').is_err());
}

#[test]
fn confirmation_is_bound_to_both_records_and_role() {
    let key = [1_u8; 32];
    let offer = [2_u8; 16];
    let client_spake = [3_u8; SPAKE_MESSAGE_LEN];
    let host_spake = [4_u8; SPAKE_MESSAGE_LEN];
    let host = b"host record";
    let client = b"client record";
    let tag = confirmation_tag(&key, &offer, &client_spake, &host_spake, host, client, b"host");
    verify_confirmation(
        &key,
        &offer,
        &client_spake,
        &host_spake,
        host,
        client,
        b"host",
        &tag,
    )
    .unwrap();
    assert!(
        verify_confirmation(
            &key,
            &offer,
            &client_spake,
            &host_spake,
            host,
            client,
            b"joiner",
            &tag,
        )
        .is_err()
    );
    let data = confirmation_authentication_data(
        &offer,
        &client_spake,
        &host_spake,
        host,
        client,
        b"host",
    );
    assert!(data.starts_with(b"edgemouse-pairing-v1-confirm"));
    assert!(data.ends_with(b"client recordhost"));
}

#[test]
fn exchange_messages_are_bound_to_the_offer() {
    let offer = [8_u8; 16];
    let spake = [3_u8; SPAKE_MESSAGE_LEN];
    let message = exchange_message(&offer, &spake).unwrap();
    assert_eq!(message.len(), 57);
    assert!(exchange_matches(&message, &offer));
    assert!(!exchange_matches(&message, &[9_u8; 16]));
    assert!(exchange_message(&offer, &spake[..32]).is_err());
}

#[test]
fn configurations_are_validated() {
    let config = PairingConfig {
        local_name: "macbook".to_owned(),
        local_certificate: vec![1; 10],
        local_node: NodeId(3),
        peer_certificate_path: PathBuf::from("peer.der"),
        timeout_ms: 2_000,
    };
    assert!(validate_config(&config).is_ok());
    let mut empty = config.clone();
    empty.local_certificate.clear();
    assert_eq!(
        validate_config(&empty).unwrap_err().message(),
        "local certificate must contain 1 to 16384 bytes"
    );
    let mut zero = config;
    zero.local_node = NodeId(0);
    assert_eq!(
        validate_config(&zero).unwrap_err().message(),
        "local node ID cannot be zero"
    );
}

#[test]
fn node_ids_are_shown_in_errors_and_results_as_fixed_hex() {
    assert_eq!(edgemouse::settings::node_name(NodeId(1)).len(), 32);
}

#[test]
fn installing_draws_ten_temporary_names_at_most() {
    for tries in 1..10 {
        assert!(temporary_name_taken(tries).is_ok());
    }
    assert_eq!(
        temporary_name_taken(10).unwrap_err().message(),
        "failed to allocate a unique temporary certificate file"
    );
}

#[test]
fn a_concurrently_written_certificate_decides_a_failed_publish() {
    let certificate = vec![1_u8, 2, 3];
    assert!(after_failed_publish(None, &certificate, "peer.der").is_none());
    assert_eq!(
        after_failed_publish(Some(vec![1, 2, 3]), &certificate, "peer.der").map(|v| v.unwrap()),
        Some(false)
    );
    assert_eq!(
        after_failed_publish(Some(vec![1, 2]), &certificate, "peer.der")
            .unwrap()
            .unwrap_err()
            .message(),
        "refusing to replace a different trusted certificate at peer.der"
    );
}
