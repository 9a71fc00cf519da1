use espanso_gui::config::{ParsedConfig, YAMLConfig};
use espanso_gui::config_codec::{emit_config_text, is_yaml_empty, parse_config_text};

#[test]
fn unset_fields_are_never_written() {
    let mut c = ParsedConfig::default();
    assert_eq!(emit_config_text(&c), "");
    c.enable = Some(true);
    assert_eq!(emit_config_text(&c), "enable: true\n");
}

#[test]
fn only_touched_fields_round_trip() {
    let raw = YAMLConfig::parse_from_str("enable: true\n").expect("parses");
    let c = raw.into_parsed();
    assert_eq!(c.enable, Some(true));
    assert_eq!(c.label, None);
    assert_eq!(c.key_delay, None);
    assert_eq!(emit_config_text(&c), "enable: true\n");
}

#[test]
fn legacy_backspace_delay_feeds_key_delay() {
    let raw = YAMLConfig::parse_from_str("backspace_delay: 50\n").expect("parses");
    let c = raw.into_parsed();
    assert_eq!(c.key_delay, Some(50));
}

#[test]
fn explicit_key_delay_wins_over_legacy() {
    let raw = YAMLConfig::parse_from_str("key_delay: 10\nbackspace_delay: 50\n").expect("parses");
    let c = raw.into_parsed();
    assert_eq!(c.key_delay, Some(10));
}

#[test]
fn empty_and_comment_only_files_are_all_defaults() {
    assert!(is_yaml_empty(""));
    assert!(is_yaml_empty("   \n\t\n"));
    assert!(is_yaml_empty("# only a comment\n  # another\n"));
    assert!(!is_yaml_empty("enable: true\n"));
    let c = YAMLConfig::parse_from_str("# nothing here\n").expect("parses").into_parsed();
    assert_eq!(emit_config_text(&c), "");
}

#[test]
fn unknown_keys_are_ignored() {
    let raw = parse_config_text("made_up_key: whatever\nenable: false\n").expect("parses");
    let c = raw.into_parsed();
    assert_eq!(c.enable, Some(false));
    assert_eq!(emit_config_text(&c), "enable: false\n");
}

#[test]
fn typed_values_parse() {
    let text = "label: \"My config\"\nclipboard_threshold: 100\nwin32_keyboard_layout_cache_interval: -2\nundo_backspace: false\nword_separators: [\" \", \",\"]\nkeyboard_layout: {\"layout\": \"de\"}\n";
    let c = parse_config_text(text).expect("parses").into_parsed();
    assert_eq!(c.label, Some("My config".to_string()));
    assert_eq!(c.clipboard_threshold, Some(100));
    assert_eq!(c.win32_keyboard_layout_cache_interval, Some(-2));
    assert_eq!(c.undo_backspace, Some(false));
    assert_eq!(
        c.word_separators,
        Some(vec![" ".to_string(), ",".to_string()])
    );
    assert_eq!(
        c.keyboard_layout,
        Some(vec![("layout".to_string(), "de".to_string())])
    );
}

#[test]
fn crlf_and_quoted_scalars_are_accepted() {
    let c = parse_config_text("enable: true\r\nlabel: 'single'\r\n")
        .expect("parses")
        .into_parsed();
    assert_eq!(c.enable, Some(true));
    assert_eq!(c.label, Some("single".to_string()));
}

#[test]
fn numeric_overflow_is_a_parse_error() {
    assert!(parse_config_text("inject_delay: 99999999999999999999\n").is_none());
    assert!(parse_config_text("inject_delay: -3\n").is_none());
    assert!(parse_config_text("enable: maybe\n").is_none());
}

#[test]
fn last_duplicate_key_wins() {
    let c = parse_config_text("key_delay: 1\nkey_delay: 7\n").expect("parses").into_parsed();
    assert_eq!(c.key_delay, Some(7));
}

#[test]
fn comments_and_blank_lines_are_noise() {
    let text = "# header\n\nenable: true   \n  # indented comment\nkey_delay: 4\n";
    let c = parse_config_text(text).expect("parses").into_parsed();
    assert_eq!(c.enable, Some(true));
    assert_eq!(c.key_delay, Some(4));
}

#[test]
fn full_record_round_trips_through_its_own_text() {
    let mut c = ParsedConfig::default();
    c.label = Some("desk\" top".to_string());
    c.backend = Some("Clipboard".to_string());
    c.enable = Some(true);
    c.clipboard_threshold = Some(100);
    c.toggle_key = Some("ALT".to_string());
    c.inject_delay = Some(0);
    c.key_delay = Some(30);
    c.word_separators = Some(vec![" ".to_string(), "\r".to_string(), "\u{16}".to_string()]);
    c.apply_patch = Some(false);
    c.keyboard_layout = Some(vec![("layout".to_string(), "us".to_string())]);
    c.win32_keyboard_layout_cache_interval = Some(-2000);
    c.includes = Some(vec![]);
    c.filter_title = Some("term".to_string());
    let text = emit_config_text(&c);
    let back = parse_config_text(&text).expect("parses").into_parsed();
    assert_eq!(back.label, c.label);
    assert_eq!(back.backend, c.backend);
    assert_eq!(back.enable, c.enable);
    assert_eq!(back.clipboard_threshold, c.clipboard_threshold);
    assert_eq!(back.toggle_key, c.toggle_key);
    assert_eq!(back.inject_delay, c.inject_delay);
    assert_eq!(back.key_delay, c.key_delay);
    assert_eq!(back.word_separators, c.word_separators);
    assert_eq!(back.apply_patch, c.apply_patch);
    assert_eq!(back.keyboard_layout, c.keyboard_layout);
    assert_eq!(
        back.win32_keyboard_layout_cache_interval,
        c.win32_keyboard_layout_cache_interval
    );
    assert_eq!(back.includes, c.includes);
    assert_eq!(back.filter_title, c.filter_title);
    assert_eq!(back.auto_restart, None);
    assert_eq!(emit_config_text(&back), text);
}

#[test]
fn emitted_config_is_yaml_serde_agrees() {
    let mut c = ParsedConfig::default();
    c.enable = Some(true);
    c.label = Some("a \"quoted\" label".to_string());
    c.key_delay = Some(12);
    c.word_separators = Some(vec![" ".to_string(), "\n".to_string()]);
    let text = emit_config_text(&c);
    let v: serde_yaml::Value = serde_yaml::from_str(&text).expect("valid yaml");
    assert_eq!(v.get("enable").and_then(|x| x.as_bool()), Some(true));
    assert_eq!(
        v.get("label").and_then(|x| x.as_str()),
        Some("a \"quoted\" label")
    );
    assert_eq!(v.get("key_delay").and_then(|x| x.as_u64()), Some(12));
    let seps = v.get("word_separators").and_then(|x| x.as_sequence()).expect("list");
    assert_eq!(seps[1].as_str(), Some("\n"));
    assert!(v.get("auto_restart").is_none());
}
