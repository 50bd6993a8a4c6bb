use edgemouse::config_text::{replace_table_value, scroll_settings_source};

#[test]
fn layout_edge_replacement_preserves_other_tables_and_line_endings() {
    let source = "[local]\r\nname = \"Windows\"\r\n\r\n[layout]\r\npeer_on = \"right\"\r\n\r\n[session]\r\ntimeout_ms = 1500\r\n";
    let updated = replace_table_value(source, "layout", "peer_on", "\"top\"");
    assert!(updated.contains("[layout]\r\npeer_on = \"top\"\r\n"));
    assert!(updated.contains("[session]\r\ntimeout_ms = 1500\r\n"));
}

#[test]
fn missing_table_and_value_are_inserted() {
    let updated =
        replace_table_value("[local]\nname = \"Mac\"\n", "layout", "peer_on", "\"left\"");
    assert!(updated.ends_with("\n[layout]\npeer_on = \"left\"\n"));
}

#[test]
fn missing_key_goes_after_the_last_line_of_its_table() {
    let source = "[session]\ntimeout_ms = 1500\n\n[layout]\npeer_on = \"left\"";
    let updated = replace_table_value(source, "session", "hysteresis", "8");
    assert_eq!(
        updated,
        "[session]\ntimeout_ms = 1500\nhysteresis = 8\n\n[layout]\npeer_on = \"left\""
    );
    assert_eq!(replace_table_value("", "layout", "peer_on", "1"), "[layout]\npeer_on = 1\n");
}

#[test]
fn scroll_settings_are_inserted_without_reformatting_other_tables() {
    let source = "[local]\nname = \"Mac\"\n\n[session]\ntimeout_ms = 1500\n\n[layout]\npeer_on = \"left\"\n";
    let updated = scroll_settings_source(source, true, false);
    assert_eq!(
        updated,
        "[local]\nname = \"Mac\"\n\n[session]\ntimeout_ms = 1500\nreverse_scroll_horizontal = true\nreverse_scroll_vertical = false\n\n[layout]\npeer_on = \"left\"\n"
    );
}

#[test]
fn scroll_settings_replace_existing_values() {
    let source =
        "[session]\nreverse_scroll_horizontal = false\nreverse_scroll_vertical = true\n";
    let updated = scroll_settings_source(source, true, false);
    assert_eq!(
        updated,
        "[session]\nreverse_scroll_horizontal = true\nreverse_scroll_vertical = false\n"
    );
}

#[test]
fn missing_session_table_is_added() {
    let source = "[layout]\npeer_on = \"right\"\n";
    let updated = scroll_settings_source(source, false, true);
    assert!(updated.ends_with(
        "\n[session]\nreverse_scroll_horizontal = false\nreverse_scroll_vertical = true\n"
    ));
}

#[test]
fn setting_a_value_twice_is_setting_it_once() {
    let sources = [
        "[layout]\r\npeer_on = \"left\"\r\n\r\n[session]\r\ntimeout_ms = 1500\r\n",
        "# comment\n[session]\ntimeout_ms = 1500",
        "",
        "[peer]\naddress = \"auto\"\n",
    ];
    for source in sources {
        let once = replace_table_value(source, "layout", "peer_on", "\"top\"");
        let twice = replace_table_value(&once, "layout", "peer_on", "\"top\"");
        assert_eq!(once, twice);
        assert_eq!(once.contains("\r\n"), source.contains("\r\n"));
        assert!(once.contains("peer_on = \"top\""));
    }
    assert_eq!(
        replace_table_value("[peer]\naddress = \"auto\"\n", "layout", "peer_on", "\"top\""),
        "[peer]\naddress = \"auto\"\n\n[layout]\npeer_on = \"top\"\n"
    );
}
