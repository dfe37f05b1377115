use popmgr::ui::cosmic::{is_target_shortcut, parse_shortcut_entries, replace_shortcut_entries};

const SHORTCUT_FIXTURE: &str = r#"{
    (
        modifiers: [Ctrl],
        key: "F12",
        description: Some("Volume up"),
    ): Spawn("pactl set-sink-volume @DEFAULT_SINK@ +5%"),
    (modifiers: [Ctrl], key: "F11"): Spawn("pactl set-sink-volume @DEFAULT_SINK@ -5%"),
    (
        modifiers: [Ctrl],
        key: "F7",
        description: Some("Clear"),
    ): Spawn("clea"),
    (modifiers: [Super], key: "t"): Spawn("waveterm"),
    (modifiers: [Ctrl, Shift], key: "3", description: Some("Full")): Spawn("/fake/dev/shotbox/target/release/shotbox capture full"),
    (modifiers: [Ctrl, Shift], key: "4"): Spawn("/fake/dev/shotbox/target/release/shotbox capture region"),
    (
        modifiers: [Ctrl, Shift],
        key: "5",
        description: Some("Options"),
    ): Spawn("/fake/dev/shotbox/target/release/shotbox options"),
}"#;

fn entry_texts(content: &str) -> Vec<String> {
    parse_shortcut_entries(content).into_iter()
        .map(|entry| content[entry.range].to_string())
        .collect()
}

#[test]
fn parses_all_seven_shortcut_fixture_entries() {
    let entries = parse_shortcut_entries(SHORTCUT_FIXTURE);
    assert_eq!(entries.len(), 7);
    assert_eq!(entries[0].spawn.as_deref(), Some("pactl set-sink-volume @DEFAULT_SINK@ +5%"));
    assert_eq!(entries[3].spawn.as_deref(), Some("waveterm"));
    assert_eq!(entries[6].spawn.as_deref(), Some("/fake/dev/shotbox/target/release/shotbox options"));
}

#[test]
fn replaces_only_key_four_and_keeps_other_entries_byte_identical_in_order() {
    let updated = replace_shortcut_entries(
        SHORTCUT_FIXTURE,
        &[("4", "cosmic-screenshot --interactive".into())],
    );
    let before = entry_texts(SHORTCUT_FIXTURE);
    let after = entry_texts(&updated);
    assert_eq!(after.len(), 7);
    assert!(after[5].contains("cosmic-screenshot --interactive"));
    assert_eq!(&after[..5], &before[..5]);
    assert_eq!(&after[6..], &before[6..]);
}

#[test]
fn adds_key_four_when_it_does_not_exist() {
    let without_four = SHORTCUT_FIXTURE.replace(
        "key: \"4\"",
        "key: \"6\"",
    );
    let updated = replace_shortcut_entries(
        &without_four,
        &[("4", "cosmic-screenshot --interactive".into())],
    );
    let entries = parse_shortcut_entries(&updated);
    assert_eq!(entries.len(), 8);
    assert!(entries.iter().any(|entry| is_target_shortcut(entry, "4")));
}

#[test]
fn parses_single_line_ron_shortcut_variant() {
    let content = r#"{(modifiers: [Super, Alt], key: "Escape"): Terminate,}"#;
    let entries = parse_shortcut_entries(content);
    assert_eq!(entries.len(), 1);
    assert_eq!(entries[0].modifiers, ["Super", "Alt"]);
    assert_eq!(entries[0].key, "Escape");
    assert_eq!(entries[0].spawn, None);
}
