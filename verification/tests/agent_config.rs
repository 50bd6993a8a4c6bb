use edgemouse::agent_config::{
    check_config_values, check_layout, check_pairing_values, check_pointer_smoothing,
};
use edgemouse::import::parse_import_source;
use edgemouse::geometry::Edge;

#[test]
fn pairing_needs_a_printable_name_and_a_timeout() {
    assert_eq!(check_pairing_values("mac", 30), Ok(()));
    assert_eq!(
        check_pairing_values("", 30),
        Err("local.name must be non-empty and contain no control characters".to_owned())
    );
    assert_eq!(
        check_pairing_values("tab\tname", 30),
        Err("local.name must be non-empty and contain no control characters".to_owned())
    );
    assert_eq!(
        check_pairing_values(&"n".repeat(64), 30),
        Err("local.name cannot exceed 63 UTF-8 bytes".to_owned())
    );
    assert_eq!(
        check_pairing_values("mac", 0),
        Err("session.connect_timeout_seconds must be greater than zero".to_owned())
    );
}

#[test]
fn the_layout_needs_two_screens_a_peer_name_and_an_edge() {
    assert_eq!(check_layout(1, 2, "Mac display", "LEFT"), Ok(Edge::Left));
    assert_eq!(
        check_layout(1, 1, "Mac display", "left"),
        Err("local and peer screen ids must be different".to_owned())
    );
    assert_eq!(
        check_layout(1, 2, "", "left"),
        Err("peer.screen.name must be non-empty and contain no control characters".to_owned())
    );
    assert_eq!(
        check_layout(1, 2, "Mac display", "up"),
        Err("layout.peer_on must be left, right, top, or bottom; got `up`".to_owned())
    );
}

#[test]
fn pointer_smoothing_is_a_percentage() {
    assert_eq!(check_pointer_smoothing(100), Ok(()));
    assert_eq!(
        check_pointer_smoothing(101),
        Err("session.pointer_smoothing must be between 0 and 100".to_owned())
    );
}

const PAIRED: &str = "[local]\nname = \"mac\"\nlisten = \"0.0.0.0:43891\"\ncertificate = \"identity/certificate.der\"\nprivate_key = \"identity/private-key.der\"\n\n[local.screen]\nid = 1\nname = \"Mac\"\nauto = true\n\n[peer]\naddress = \"auto\"\ncertificate = \"trusted-peer.der\"\n\n[peer.screen]\nid = 2\nname = \"PC\"\nauto = true\n\n[layout]\npeer_on = \"right\"\n";

fn checked(text: &str) -> Result<(), String> {
    check_config_values(&parse_import_source(text).unwrap())
}

#[test]
fn a_complete_paired_config_passes_with_default_session_values() {
    assert_eq!(checked(PAIRED), Ok(()));
    let with_session = format!(
        "{PAIRED}\n[session]\nconnect_timeout_seconds = 30\npointer_smoothing = 52\n"
    );
    assert_eq!(checked(&with_session), Ok(()));
}

#[test]
fn config_values_are_refused_in_the_order_they_are_read() {
    let unnamed = PAIRED.replace("name = \"mac\"\n", "");
    assert_eq!(checked(&unnamed), Err("missing local.name".to_owned()));
    let same_screens = PAIRED.replace("id = 2", "id = 1");
    assert_eq!(
        checked(&same_screens),
        Err("local and peer screen ids must be different".to_owned())
    );
    let no_edge = PAIRED.replace("peer_on = \"right\"", "peer_on = 3");
    assert_eq!(checked(&no_edge), Err("missing layout.peer_on".to_owned()));
    let negative_id = PAIRED.replace("id = 2", "id = -2");
    assert_eq!(checked(&negative_id), Err("missing peer.screen.id".to_owned()));
    let zero_timeout = format!("{PAIRED}\n[session]\nconnect_timeout_seconds = 0\n");
    assert_eq!(
        checked(&zero_timeout),
        Err("session.connect_timeout_seconds must be greater than zero".to_owned())
    );
    let text_timeout = format!("{PAIRED}\n[session]\nconnect_timeout_seconds = \"30\"\n");
    assert_eq!(
        checked(&text_timeout),
        Err("invalid session.connect_timeout_seconds".to_owned())
    );
}

#[test]
fn pointer_smoothing_in_a_config_is_a_percentage_of_a_byte() {
    let over = format!("{PAIRED}\n[session]\npointer_smoothing = 101\n");
    assert_eq!(
        checked(&over),
        Err("session.pointer_smoothing must be between 0 and 100".to_owned())
    );
    let beyond_a_byte = format!("{PAIRED}\n[session]\npointer_smoothing = 300\n");
    assert_eq!(
        checked(&beyond_a_byte),
        Err("invalid session.pointer_smoothing".to_owned())
    );
}
