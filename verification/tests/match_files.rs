use espanso_gui::match_codec::{emit_match_text, load_match_text, parse_match_text};
use espanso_gui::matches::{validate_for_save, EspansoYaml, YamlPairs};

fn doc(pairs: &[(&str, &str)]) -> EspansoYaml {
    let mut v: Vec<YamlPairs> = Vec::new();
    for (t, r) in pairs {
        v.push(YamlPairs::new(t.to_string(), r.to_string()));
    }
    EspansoYaml::from_pairs(v)
}

fn pairs_of(d: &EspansoYaml) -> Vec<(String, String)> {
    let mut v = Vec::new();
    for p in &d.matches {
        v.push((p.trigger.clone(), p.replace.clone()));
    }
    v
}

#[test]
fn emit_empty_document() {
    let d = doc(&[]);
    assert_eq!(emit_match_text(&d), "matches: []\n");
}

#[test]
fn emit_one_entry() {
    let d = doc(&[("btw", "by the way")]);
    assert_eq!(
        emit_match_text(&d),
        "matches:\n- trigger: \"btw\"\n  replace: \"by the way\"\n"
    );
}

#[test]
fn round_trip_plain_entries() {
    let d = doc(&[("btw", "by the way"), ("omw", "on my way!")]);
    let text = emit_match_text(&d);
    let back = parse_match_text(&text).expect("parses");
    assert_eq!(pairs_of(&back), pairs_of(&d));
}

#[test]
fn round_trip_control_characters() {
    let d = doc(&[
        ("sig", "line one\nline two"),
        ("quote", "he said \"hi\" \\ there"),
        ("tabs", "a\tb\r\u{16}"),
    ]);
    let text = emit_match_text(&d);
    let back = parse_match_text(&text).expect("parses");
    assert_eq!(pairs_of(&back), pairs_of(&d));
}

#[test]
fn round_trip_keeps_order_and_duplicates() {
    let d = doc(&[("x", "1"), ("x", "2"), ("a", "3")]);
    let back = parse_match_text(&emit_match_text(&d)).expect("parses");
    assert_eq!(pairs_of(&back), pairs_of(&d));
}

#[test]
fn load_then_save_is_idempotent() {
    let text = "matches:\n- trigger: hi\n  replace: there\n- trigger: two\n  replace: lines\n";
    let first = load_match_text(text).expect("loads");
    let saved = emit_match_text(&first);
    let second = load_match_text(&saved).expect("reloads");
    assert_eq!(pairs_of(&second), pairs_of(&first));
    assert_eq!(emit_match_text(&second), saved);
}

#[test]
fn load_drops_entries_with_an_empty_field() {
    let text = "matches:\n- trigger: \"\"\n  replace: \"x\"\n- trigger: \"ok\"\n  replace: \"y\"\n";
    let d = load_match_text(text).expect("loads");
    assert_eq!(pairs_of(&d), vec![("ok".to_string(), "y".to_string())]);
}

#[test]
fn load_accepts_comments_blank_lines_and_quoting_styles() {
    let text = "# a header comment\n\nmatches:\n# first\n- trigger: plain one\n  replace: 'single ''quoted'''\n\n- trigger: \"two\"\n  replace: spaced   \n";
    let d = load_match_text(text).expect("loads");
    assert_eq!(
        pairs_of(&d),
        vec![
            ("plain one".to_string(), "single 'quoted'".to_string()),
            ("two".to_string(), "spaced".to_string()),
        ]
    );
}

#[test]
fn crlf_line_endings_are_accepted() {
    let text = "matches:\r\n- trigger: hi\r\n  replace: there\r\n";
    let d = load_match_text(text).expect("loads");
    assert_eq!(pairs_of(&d), vec![("hi".to_string(), "there".to_string())]);
}

#[test]
fn parse_rejects_malformed_documents() {
    assert!(parse_match_text("").is_none());
    assert!(parse_match_text("not yaml at all").is_none());
    assert!(parse_match_text("matches: 3\n").is_none());
    assert!(parse_match_text("matches:\n- trigger: a\n").is_none());
    assert!(parse_match_text("matches:\n- replace: a\n  trigger: b\n").is_none());
}

#[test]
fn empty_flow_list_parses_to_empty_document() {
    let d = parse_match_text("matches: []\n").expect("parses");
    assert_eq!(d.matches.len(), 0);
    let d2 = parse_match_text("matches: [ ]  \n# trailing comment\n").expect("parses");
    assert_eq!(d2.matches.len(), 0);
}

#[test]
fn validate_rejects_blank_fields() {
    assert!(!validate_for_save(&doc(&[("hi", "")])));
    assert!(!validate_for_save(&doc(&[("hi", "   ")])));
    assert!(!validate_for_save(&doc(&[("\t", "there")])));
    assert!(validate_for_save(&doc(&[("hi", "there")])));
    assert!(validate_for_save(&doc(&[])));
}

#[test]
fn emitted_text_is_yaml_serde_agrees() {
    let d = doc(&[("sig", "line one\nline two"), ("b", "c\u{16}d")]);
    let text = emit_match_text(&d);
    let v: serde_yaml::Value = serde_yaml::from_str(&text).expect("valid yaml");
    let entries = v.get("matches").and_then(|m| m.as_sequence()).expect("sequence");
    assert_eq!(entries.len(), 2);
    assert_eq!(
        entries[0].get("trigger").and_then(|x| x.as_str()),
        Some("sig")
    );
    assert_eq!(
        entries[0].get("replace").and_then(|x| x.as_str()),
        Some("line one\nline two")
    );
    assert_eq!(
        entries[1].get("replace").and_then(|x| x.as_str()),
        Some("c\u{16}d")
    );
}
