use edgemouse::redact::redact_ipv4_addresses;

#[test]
fn the_last_group_of_each_address_is_hidden() {
    assert_eq!(
        redact_ipv4_addresses("peer 192.168.1.20 connected from 10.0.0.7:43891"),
        "peer 192.168.1.x connected from 10.0.0.x:43891"
    );
    assert_eq!(redact_ipv4_addresses("a1.2.3.4b"), "a1.2.3.xb");
    assert_eq!(redact_ipv4_addresses("001.002.003.004"), "001.002.003.x");
}

#[test]
fn other_numbers_are_kept() {
    assert_eq!(redact_ipv4_addresses("version 1.2.3"), "version 1.2.3");
    assert_eq!(redact_ipv4_addresses("256.1.1.1"), "256.1.1.1");
    assert_eq!(redact_ipv4_addresses("10.0.0.1."), "10.0.0.1.");
    assert_eq!(redact_ipv4_addresses("1..2.3"), "1..2.3");
    assert_eq!(redact_ipv4_addresses("rtt 12 ms"), "rtt 12 ms");
    assert_eq!(redact_ipv4_addresses(""), "");
}

#[test]
fn bytes_outside_ascii_stand_as_single_characters() {
    assert_eq!(redact_ipv4_addresses("é 10.0.0.7"), "\u{c3}\u{a9} 10.0.0.x");
}

#[test]
fn text_without_digits_is_unchanged() {
    assert_eq!(
        redact_ipv4_addresses("peer connected; link is stable."),
        "peer connected; link is stable."
    );
}
