use espanso_gui::config::ParsedConfig;
use espanso_gui::match_codec::load_match_text;
use espanso_gui::matches::{EspansoYaml, YamlPairs};
use espanso_gui::session::{layout_display, ConfigSession, MatchSession, PairField};

fn two_pairs() -> EspansoYaml {
    EspansoYaml::from_pairs(vec![
        YamlPairs::new("hi".to_string(), "there".to_string()),
        YamlPairs::new("bye".to_string(), "see you".to_string()),
    ])
}

#[test]
fn loaded_match_session_is_clean() {
    let s = MatchSession::load(two_pairs());
    assert!(!s.is_dirty());
}

#[test]
fn update_with_different_value_makes_dirty_reset_restores() {
    let mut s = MatchSession::load(two_pairs());
    s.update_field(0, PairField::Trigger, "hello".to_string()).expect("in range");
    assert!(s.is_dirty());
    s.reset();
    assert!(!s.is_dirty());
    s.update_field(1, PairField::Replace, "later".to_string()).expect("in range");
    assert!(s.is_dirty());
    s.reset();
    assert!(!s.is_dirty());
}

#[test]
fn update_with_same_value_stays_clean() {
    let mut s = MatchSession::load(two_pairs());
    s.update_field(0, PairField::Trigger, "hi".to_string()).expect("in range");
    assert!(!s.is_dirty());
}

#[test]
fn update_out_of_range_is_rejected() {
    let mut s = MatchSession::load(two_pairs());
    assert!(s.update_field(2, PairField::Trigger, "x".to_string()).is_err());
    assert!(!s.is_dirty());
}

#[test]
fn add_and_remove_pairs() {
    let mut s = MatchSession::load(two_pairs());
    s.add_pair();
    assert_eq!(s.edited_file.matches.len(), 3);
    assert_eq!(s.edited_file.matches[2].trigger, "");
    assert!(s.is_dirty());
    s.remove_pair(2);
    assert!(!s.is_dirty());
    s.remove_pair(0);
    assert_eq!(s.edited_file.matches.len(), 1);
    assert_eq!(s.edited_file.matches[0].trigger, "bye");
}

#[test]
fn save_validates_then_commits() {
    let mut s = MatchSession::load(two_pairs());
    s.add_pair();
    assert!(s.save_text().is_err());
    s.update_field(2, PairField::Trigger, "brb".to_string()).expect("in range");
    s.update_field(2, PairField::Replace, "be right back".to_string()).expect("in range");
    let text = s.save_text().expect("valid now");
    s.commit_saved();
    assert!(!s.is_dirty());
    let reloaded = load_match_text(&text).expect("loads");
    assert_eq!(reloaded.matches.len(), 3);
    assert_eq!(reloaded.matches[2].replace, "be right back");
}

#[test]
fn loaded_config_session_is_clean_despite_picker_defaults() {
    let raw = espanso_gui::config_codec::parse_config_text("enable: true\n").expect("parses");
    let s = ConfigSession::load(raw.into_parsed());
    assert!(!s.is_dirty());
    assert!(!s.has_unsaved_changes());
    assert_eq!(s.edited_config.backend, Some("Auto".to_string()));
    assert_eq!(s.edited_config.toggle_key, Some("OFF".to_string()));
}

#[test]
fn loaded_picker_values_are_kept() {
    let raw =
        espanso_gui::config_codec::parse_config_text("backend: \"Inject\"\n").expect("parses");
    let s = ConfigSession::load(raw.into_parsed());
    assert_eq!(s.edited_config.backend, Some("Inject".to_string()));
    assert_eq!(s.edited_config.toggle_key, Some("OFF".to_string()));
}

#[test]
fn config_set_field_dirty_undo_restores() {
    let mut s = ConfigSession::load(ParsedConfig::default());
    assert!(!s.is_dirty());
    s.set_enable(false);
    assert!(s.is_dirty());
    s.undo();
    assert!(!s.is_dirty());
    s.set_key_delay(25);
    assert!(s.is_dirty());
    s.undo();
    assert!(!s.is_dirty());
}

#[test]
fn coerced_picker_save_writes_the_two_fields() {
    let raw = espanso_gui::config_codec::parse_config_text("enable: true\n").expect("parses");
    let mut s = ConfigSession::load(raw.into_parsed());
    let text = s.save_text();
    assert_eq!(text, "backend: \"Auto\"\nenable: true\ntoggle_key: \"OFF\"\n");
    s.commit_saved();
    assert!(!s.is_dirty());
}

#[test]
fn reset_to_defaults_keeps_picker_display_values() {
    let raw = espanso_gui::config_codec::parse_config_text("enable: true\nkey_delay: 9\n")
        .expect("parses");
    let mut s = ConfigSession::load(raw.into_parsed());
    s.reset_to_defaults();
    assert_eq!(s.edited_config.enable, None);
    assert_eq!(s.edited_config.key_delay, None);
    assert_eq!(s.edited_config.backend, Some("Auto".to_string()));
    assert_eq!(s.edited_config.toggle_key, Some("OFF".to_string()));
    assert!(s.is_dirty());
}

#[test]
fn separators_buffer_edits_apply_on_save() {
    let mut s = ConfigSession::load(ParsedConfig::default());
    assert!(!s.seps_changed());
    s.set_separators_input("[\" \", \",\"]".to_string());
    assert!(s.seps_changed());
    assert!(s.has_unsaved_changes());
    s.apply_separators_input();
    assert_eq!(
        s.edited_config.word_separators,
        Some(vec![" ".to_string(), ",".to_string()])
    );
    s.commit_saved();
    assert!(!s.seps_changed());
    assert!(!s.has_unsaved_changes());
}

#[test]
fn unparsable_separators_buffer_leaves_field_alone() {
    let mut s = ConfigSession::load(ParsedConfig::default());
    s.set_separators_input("not a list".to_string());
    s.apply_separators_input();
    assert_eq!(s.edited_config.word_separators, None);
}

#[test]
fn debug_style_control_escapes_are_understood() {
    let mut s = ConfigSession::load(ParsedConfig::default());
    s.set_separators_input("[\"\\u{16}\", \"\\r\"]".to_string());
    s.apply_separators_input();
    assert_eq!(
        s.edited_config.word_separators,
        Some(vec!["\u{16}".to_string(), "\r".to_string()])
    );
}

#[test]
fn keyboard_layout_display_defaults_to_us() {
    let c = ParsedConfig::default();
    assert_eq!(layout_display(&c), "us");
    let mut with_layout = ParsedConfig::default();
    with_layout.keyboard_layout = Some(vec![("layout".to_string(), "de".to_string())]);
    assert_eq!(layout_display(&with_layout), "de");
    let mut other_key = ParsedConfig::default();
    other_key.keyboard_layout = Some(vec![("variant".to_string(), "x".to_string())]);
    assert_eq!(layout_display(&other_key), "us");
}

#[test]
fn set_keyboard_layout_writes_the_single_layout_key() {
    let mut s = ConfigSession::load(ParsedConfig::default());
    s.set_keyboard_layout("fr".to_string());
    assert_eq!(
        s.edited_config.keyboard_layout,
        Some(vec![("layout".to_string(), "fr".to_string())])
    );
    assert_eq!(layout_display(&s.edited_config), "fr");
}
