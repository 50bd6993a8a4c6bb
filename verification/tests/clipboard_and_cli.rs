use edgemouse::cli::{ensure_no_extra_arguments, validate_screen_name};
use edgemouse::clipboard::{image_dimensions, Revisions};
use edgemouse::platform::{status, unsupported_status, windows_status};
use edgemouse::topology::NodeId;

#[test]
fn image_dimensions_are_bounded() {
    assert!(image_dimensions(1, 1).is_ok());
    assert!(image_dimensions(4096, 4096).is_ok());
    assert_eq!(
        image_dimensions(8192, 4096),
        Err("clipboard image exceeds supported dimensions")
    );
    assert!(image_dimensions(0, 10).is_err());
    assert!(image_dimensions(8193, 1).is_err());
}

#[test]
fn a_new_local_copy_supersedes_pending_remote_copies() {
    let mut revisions = Revisions::default();
    assert!(revisions.receive(3, NodeId(2)));
    revisions.applied(3, NodeId(2));
    assert!(!revisions.receive(3, NodeId(2)));
    assert!(revisions.receive(3, NodeId(5)));
    let local = revisions.local(NodeId(1));
    assert_eq!(local, 4);
    assert!(!revisions.receive(3, NodeId(9)));
    assert!(revisions.receive(5, NodeId(0)));
}

#[test]
fn extra_arguments_are_refused_with_their_text() {
    assert!(ensure_no_extra_arguments(Vec::new()).is_ok());
    assert_eq!(
        ensure_no_extra_arguments(vec!["a".to_owned(), "b c".to_owned()]).unwrap_err(),
        "unexpected arguments: a b c"
    );
}

#[test]
fn screen_names_are_checked() {
    assert!(validate_screen_name("Windows display", "local.screen.name").is_ok());
    assert_eq!(
        validate_screen_name("", "local.screen.name").unwrap_err(),
        "local.screen.name must be non-empty and contain no control characters"
    );
    assert_eq!(
        validate_screen_name(&"x".repeat(64), "peer.screen.name").unwrap_err(),
        "peer.screen.name cannot exceed 63 UTF-8 bytes"
    );
}

#[test]
fn platform_status_names_the_adapters() {
    let mac = status(true);
    assert_eq!(mac.operating_system, "macOS");
    assert_eq!(mac.permission_granted, Some(true));
    assert_eq!(windows_status().injection_api, "SendInput (implemented)");
    assert_eq!(unsupported_status("linux").capture_api, "unsupported");
}
