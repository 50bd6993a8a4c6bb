use edgemouse::import::{imported_config, normalized_import, parse_import_source};

const PAIRED: &str = "[local]\nname = \"mac\"\ncertificate = \"legacy-identity/certificate.der\"\nprivate_key = \"legacy-identity/private-key.der\"\n\n[local.screen]\nid = 1\n\n[peer]\naddress = \"auto\"\ncertificate = \"trusted.der\"\n\n[layout]\npeer_on = \"left\"\n";

#[test]
fn a_paired_config_is_planned_with_fresh_identity_names() {
    let plan = imported_config(PAIRED, 1_700_000_000_123).unwrap();
    assert_eq!(plan.local_certificate, "legacy-identity/certificate.der");
    assert_eq!(plan.private_key, "legacy-identity/private-key.der");
    assert_eq!(plan.peer_certificate, "trusted.der");
    assert_eq!(
        plan.imported.certificate_target,
        "identity/certificate-1700000000123.der"
    );
    assert_eq!(
        plan.imported.private_key_target,
        "identity/private-key-1700000000123.der"
    );
    assert_eq!(plan.imported.peer_target, "trusted-peer-1700000000123.der");
    let text = &plan.imported.text;
    assert!(text.contains("certificate = \"identity/certificate-1700000000123.der\""));
    assert!(text.contains("private_key = \"identity/private-key-1700000000123.der\""));
    assert!(text.contains("certificate = \"trusted-peer-1700000000123.der\""));
    assert!(!text.contains("legacy-identity"));
    assert!(text.contains("peer_on = \"left\""));
    assert!(text.contains("name = \"mac\""));
}

#[test]
fn the_rewritten_config_reads_back_with_the_new_paths() {
    let plan = imported_config(PAIRED, 7).unwrap();
    let again = imported_config(&plan.imported.text, 7).unwrap();
    assert_eq!(again.local_certificate, "identity/certificate-7.der");
    assert_eq!(again.private_key, "identity/private-key-7.der");
    assert_eq!(again.peer_certificate, "trusted-peer-7.der");
}

#[test]
fn a_config_that_is_not_toml_is_refused() {
    let error = imported_config("[local\nname = ", 1).err().unwrap();
    assert!(error.starts_with("selected config is not valid TOML: "));
    assert!(parse_import_source("= nothing").is_err());
}

#[test]
fn missing_identity_paths_are_refused_in_order() {
    assert_eq!(
        imported_config("[local]\nname = \"a\"\n[peer]\ncertificate = \"p.der\"\n", 1)
            .err()
            .unwrap(),
        "selected config is missing local.certificate"
    );
    assert_eq!(
        imported_config("[local]\ncertificate = \"c.der\"\n[peer]\n", 1).err().unwrap(),
        "selected config is missing local.private_key"
    );
    assert_eq!(
        imported_config(
            "[local]\ncertificate = \"c.der\"\nprivate_key = \"k.der\"\n[peer]\ncertificate = 5\n",
            1
        )
        .err()
        .unwrap(),
        "selected config is missing peer.certificate"
    );
}

#[test]
fn rewriting_needs_the_local_and_peer_tables() {
    let mut document = parse_import_source("[local]\ncertificate = \"c.der\"\n").unwrap();
    assert_eq!(
        normalized_import(&mut document, 3).err().unwrap(),
        "selected config is missing [peer]"
    );
    let mut bare = parse_import_source("title = \"x\"\n").unwrap();
    assert_eq!(
        normalized_import(&mut bare, 3).err().unwrap(),
        "selected config is missing [local]"
    );
}

#[test]
fn every_import_names_its_copies_apart() {
    let first = imported_config(PAIRED, 10).unwrap().imported;
    let second = imported_config(PAIRED, 100).unwrap().imported;
    assert_ne!(first.certificate_target, second.certificate_target);
    assert_ne!(first.private_key_target, second.private_key_target);
    assert_ne!(first.peer_target, second.peer_target);
    assert_ne!(first.certificate_target, first.private_key_target);
    assert_ne!(first.certificate_target, first.peer_target);
    assert_ne!(first.private_key_target, first.peer_target);
}
