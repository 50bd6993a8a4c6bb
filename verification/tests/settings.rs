use edgemouse::settings::{
    apply_edits, decode_settings, is_pending, merge_entries, node_name, parse_node_name, sort_entries,
    SettingEntry, StoredSetting, MAC_PROFILE, WINDOWS_PROFILE,
};
use edgemouse::topology::NodeId;

fn entry(key: u8, revision: u64, author: u128, value: f64) -> SettingEntry {
    SettingEntry {
        key,
        revision,
        author: NodeId(author),
        value_bits: value.to_bits(),
    }
}

fn value(entry: &SettingEntry) -> f64 {
    f64::from_bits(entry.value_bits)
}

#[test]
fn different_offline_fields_merge_without_losing_either_edit() {
    let a = vec![entry(3, 4, 1, 1.0), entry(9, 0, 2, 0.0)];
    let b = vec![entry(3, 0, 1, 0.0), entry(9, 5, 2, 1.0)];
    let mut first = a.clone();
    let mut second = b.clone();
    merge_entries(&mut first, &b);
    merge_entries(&mut second, &a);
    assert_eq!(first, second);
    assert_eq!(first.iter().map(value).collect::<Vec<_>>(), vec![1.0, 1.0]);
}

#[test]
fn simultaneous_edits_converge_and_replays_do_not_undo_them() {
    let a = vec![entry(0, 1, 1, 3.0)];
    let b = vec![entry(0, 1, 2, 1.0)];
    let mut first = a.clone();
    let mut second = b.clone();
    merge_entries(&mut first, &b);
    merge_entries(&mut second, &a);
    assert_eq!(first, second);
    merge_entries(&mut first, &[entry(0, 0, 1, 0.0)]);
    assert_eq!(first, a);
}

fn stored(entry: &SettingEntry, valid: bool) -> StoredSetting {
    StoredSetting {
        key: entry.key,
        revision: entry.revision,
        author: node_name(entry.author),
        value_bits: entry.value_bits,
        value_valid: valid,
    }
}

#[test]
fn remote_settings_are_bounded_and_cannot_claim_unrelated_identities() {
    let count = 15;
    assert!(decode_settings(&[stored(&entry(3, 1, 3, 1.0), true)], NodeId(1), NodeId(2), count)
        .is_err());
    assert!(decode_settings(&[stored(&entry(15, 1, 1, 1.0), false)], NodeId(1), NodeId(2), count)
        .is_err());
    assert!(decode_settings(&[stored(&entry(5, 1, 1, 101.0), false)], NodeId(1), NodeId(2), count)
        .is_err());
    let good = decode_settings(
        &[stored(&entry(9, 1, 2, 1.0), true), stored(&entry(3, 1, 1, 1.0), true)],
        NodeId(1),
        NodeId(2),
        count,
    )
    .unwrap();
    assert_eq!(good.iter().map(|e| e.key).collect::<Vec<_>>(), vec![3, 9]);
    assert_eq!(
        decode_settings(
            &[stored(&entry(3, 1, 1, 1.0), true), stored(&entry(3, 2, 1, 1.0), true)],
            NodeId(1),
            NodeId(2),
            count,
        )
        .unwrap_err(),
        "invalid shared setting"
    );
    let many: Vec<StoredSetting> = (0..16).map(|k| stored(&entry(k, 0, 1, 0.0), true)).collect();
    assert_eq!(
        decode_settings(&many, NodeId(1), NodeId(2), count).unwrap_err(),
        "too many shared settings"
    );
}

#[test]
fn node_names_are_fixed_width_hex_and_read_back() {
    assert_eq!(node_name(NodeId(1)).len(), 32);
    assert_eq!(node_name(NodeId(0xab)), "000000000000000000000000000000ab");
    assert_eq!(parse_node_name(&node_name(NodeId(u128::MAX))), Some(u128::MAX));
    assert_eq!(parse_node_name("+Ff"), Some(255));
    assert_eq!(parse_node_name(""), None);
    assert_eq!(parse_node_name("+"), None);
    assert_eq!(parse_node_name("xyz"), None);
    assert_eq!(parse_node_name(&"f".repeat(33)), None);
    assert_eq!(parse_node_name(&"0".repeat(40)), Some(0));
}

#[test]
fn edits_get_one_revision_above_everything_held() {
    let mut entries = vec![entry(MAC_PROFILE, 4, 2, 0.0), entry(0, 7, 1, 1.0)];
    apply_edits(
        &mut entries,
        &[(MAC_PROFILE, 1.0f64.to_bits()), (WINDOWS_PROFILE, 1.0f64.to_bits())],
        NodeId(1),
    )
    .unwrap();
    assert_eq!(
        entries,
        vec![
            entry(0, 7, 1, 1.0),
            entry(MAC_PROFILE, 8, 1, 1.0),
            entry(WINDOWS_PROFILE, 8, 1, 1.0),
        ]
    );
    let mut full = vec![entry(0, u64::MAX, 1, 1.0)];
    assert_eq!(
        apply_edits(&mut full, &[(0, 0)], NodeId(1)).unwrap_err(),
        "shared settings revision overflow"
    );
    assert_eq!(full, vec![entry(0, u64::MAX, 1, 1.0)]);
}

#[test]
fn sorting_keeps_equal_keys_in_order() {
    let sorted = sort_entries(vec![entry(9, 1, 1, 0.0), entry(3, 2, 1, 0.0), entry(3, 1, 1, 0.0)]);
    assert_eq!(
        sorted,
        vec![entry(3, 2, 1, 0.0), entry(3, 1, 1, 0.0), entry(9, 1, 1, 0.0)]
    );
}

#[test]
fn delayed_acknowledgement_cannot_mark_a_newer_edit_synced() {
    let mut mac = vec![entry(0, 0, 1, 2.0), entry(MAC_PROFILE, 0, 1, 0.0)];
    let mut windows = mac.clone();
    let sent = mac.clone();
    apply_edits(&mut mac, &[(MAC_PROFILE, 1.0f64.to_bits())], NodeId(1)).unwrap();
    let acknowledged = sent;
    assert!(is_pending(&mac, &acknowledged));
    merge_entries(&mut windows, &mac);
    merge_entries(&mut mac, &windows);
    assert_eq!(mac, windows);
    let acknowledged = mac.clone();
    assert!(!is_pending(&mac, &acknowledged));
}
