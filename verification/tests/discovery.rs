use edgemouse::discovery::{
    decode_announcement, encode_announcement, is_expected_peer, validate_name, validate_request,
    Announcement, DiscoveryError, DiscoveryRequest,
};
use edgemouse::topology::NodeId;

fn request(local: u128, peer: u128, name: &str, quic_port: u16) -> DiscoveryRequest {
    DiscoveryRequest {
        local_node: NodeId(local),
        expected_peer: NodeId(peer),
        local_name: name.to_owned(),
        quic_port,
        timeout_ms: 2_000,
    }
}

#[test]
fn announcement_round_trips_and_rejects_malformed_packets() {
    let announcement = Announcement {
        node: NodeId(42),
        quic_port: 43_891,
        name: "Windows 电脑".to_owned(),
    };
    let packet = encode_announcement(&announcement).unwrap();
    assert_eq!(decode_announcement(&packet).unwrap(), announcement);

    assert!(decode_announcement(&packet[..10]).is_err());
    let mut wrong_magic = packet.clone();
    wrong_magic[0] ^= 0xff;
    assert!(decode_announcement(&wrong_magic).is_err());
    let mut trailing = packet.clone();
    trailing.push(0);
    assert!(decode_announcement(&trailing).is_err());
}

#[test]
fn announcement_faults_have_their_messages() {
    let packet = encode_announcement(&Announcement {
        node: NodeId(1),
        quic_port: 1,
        name: "a".to_owned(),
    })
    .unwrap();
    let mut version = packet.clone();
    version[8] = 9;
    assert_eq!(
        decode_announcement(&version).unwrap_err().message(),
        "unsupported discovery version 9"
    );
    assert_eq!(
        decode_announcement(&packet[..10]).unwrap_err().message(),
        "discovery announcement is truncated"
    );
    assert_eq!(
        encode_announcement(&Announcement {
            node: NodeId(0),
            quic_port: 1,
            name: "a".to_owned(),
        })
        .unwrap_err()
        .message(),
        "discovery announcement node ID must be non-zero"
    );
    let mut bad_name = packet.clone();
    let last = bad_name.len() - 1;
    bad_name[last] = 0x07;
    assert_eq!(
        decode_announcement(&bad_name).unwrap_err().message(),
        "discovery name cannot contain control characters"
    );
}

#[test]
fn names_are_checked_for_length_and_control_characters() {
    assert!(validate_name("macbook").is_ok());
    assert_eq!(
        validate_name("").unwrap_err().message(),
        "discovery name cannot be empty"
    );
    assert_eq!(
        validate_name(&"x".repeat(64)).unwrap_err().message(),
        "discovery name cannot exceed 63 UTF-8 bytes"
    );
    assert!(validate_name(&"电".repeat(21)).is_ok());
    assert!(validate_name(&"电".repeat(22)).is_err());
    assert!(validate_name("tab\there").is_err());
    assert!(validate_name("c1\u{85}control").is_err());
}

#[test]
fn requests_are_validated() {
    assert!(validate_request(&request(1, 2, "first", 50_001)).is_ok());
    assert_eq!(
        validate_request(&request(0, 2, "first", 50_001))
            .unwrap_err()
            .message(),
        "discovery node IDs must be non-zero"
    );
    assert_eq!(
        validate_request(&request(2, 2, "first", 50_001))
            .unwrap_err()
            .message(),
        "discovery local and peer node IDs must differ"
    );
    assert_eq!(
        validate_request(&request(1, 2, "first", 0))
            .unwrap_err()
            .message(),
        "discovery QUIC port must be non-zero"
    );
    let mut no_time = request(1, 2, "first", 50_001);
    no_time.timeout_ms = 0;
    assert_eq!(
        validate_request(&no_time).unwrap_err().message(),
        "discovery timeout must be greater than zero"
    );
}

#[test]
fn discovery_ignores_an_untrusted_node() {
    let request = request(1, 2, "first", 50_001);
    assert!(is_expected_peer(&request, NodeId(2)));
    assert!(!is_expected_peer(&request, NodeId(99)));
    assert!(!is_expected_peer(&request, NodeId(1)));
}

#[test]
fn io_errors_name_their_context() {
    let error = DiscoveryError::io("failed to bind UDP discovery socket", "address in use");
    assert_eq!(
        error.message(),
        "failed to bind UDP discovery socket: address in use"
    );
}

#[test]
fn exactly_one_of_two_agents_seeks_the_other() {
    assert!(edgemouse::discovery::seeks_peer(NodeId(1), NodeId(2)));
    assert!(!edgemouse::discovery::seeks_peer(NodeId(2), NodeId(1)));
}
