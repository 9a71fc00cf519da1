use espanso_gui::paths::{
    collect_yml_stems, config_dir_path, config_file_path, is_valid_file_name, match_dir_path,
    match_file_path, rename_allowed, strip_yml_suffix, trim_trailing_slashes, valid_espanso_dir,
    yml_stem, DirProbe,
};
use espanso_gui::prefs::{emit_prefs_text, parse_prefs_text, EGUIData};
use espanso_gui::separators::{get_default_word_separators, parse_sep_display, sep_display};

#[test]
fn directory_is_valid_only_with_all_three_entries() {
    for config in [false, true] {
        for matches in [false, true] {
            for default_yml in [false, true] {
                let probe = DirProbe {
                    config_is_dir: config,
                    match_is_dir: matches,
                    default_yml_is_file: default_yml,
                };
                assert_eq!(
                    valid_espanso_dir(probe),
                    config && matches && default_yml
                );
            }
        }
    }
}

#[test]
fn probe_paths_are_built_from_the_chosen_directory() {
    assert_eq!(config_dir_path("/home/u/espanso"), "/home/u/espanso/config");
    assert_eq!(match_dir_path("/home/u/espanso"), "/home/u/espanso/match");
    assert_eq!(
        config_file_path("/home/u/espanso"),
        "/home/u/espanso/config/default.yml"
    );
    assert_eq!(
        match_file_path("/home/u/espanso", "base"),
        "/home/u/espanso/match/base.yml"
    );
}

#[test]
fn file_name_rule_accepts_words_hyphens_periods_spaces() {
    assert!(is_valid_file_name("My Snippets-1"));
    assert!(is_valid_file_name("My Snippets-1.yml"));
    assert!(is_valid_file_name("base_2.old"));
    assert!(!is_valid_file_name(""));
    assert!(!is_valid_file_name("a/b"));
    assert!(!is_valid_file_name("a\\b"));
    assert!(!is_valid_file_name("semi;colon"));
    assert!(!is_valid_file_name("quo\"te"));
}

#[test]
fn file_name_rule_agrees_with_the_reference_pattern() {
    let pattern = regex::Regex::new(r"^[\w\-. ]+$").unwrap();
    for name in [
        "My Snippets-1",
        "base.yml",
        "a/b",
        "",
        "under_score",
        "semi;colon",
        "dot.dot.dot",
        " leading space",
        "tab\there",
    ] {
        assert_eq!(
            is_valid_file_name(name),
            pattern.is_match(name),
            "disagreement on {:?}",
            name
        );
    }
}

#[test]
fn rename_needs_a_new_valid_name() {
    assert!(rename_allowed("old", "new name"));
    assert!(!rename_allowed("same", "same"));
    assert!(!rename_allowed("old", "bad/name"));
    assert!(!rename_allowed("old", ""));
}

#[test]
fn yml_stems_come_off_yml_files_only() {
    assert_eq!(yml_stem("base.yml"), Some("base".to_string()));
    assert_eq!(yml_stem("a.b.yml"), Some("a.b".to_string()));
    assert_eq!(yml_stem(".yml"), None);
    assert_eq!(yml_stem("base.yaml"), None);
    assert_eq!(yml_stem("base"), None);
}

#[test]
fn stems_collect_in_walk_order() {
    let names = vec![
        "base.yml".to_string(),
        "notes.txt".to_string(),
        "emails.yml".to_string(),
        "nested.yml".to_string(),
        ".yml".to_string(),
    ];
    assert_eq!(
        collect_yml_stems(&names),
        vec![
            "base".to_string(),
            "emails".to_string(),
            "nested".to_string()
        ]
    );
}

#[test]
fn settings_location_drops_trailing_slashes() {
    assert_eq!(trim_trailing_slashes("/a/b/"), "/a/b");
    assert_eq!(trim_trailing_slashes("/a/b///"), "/a/b");
    assert_eq!(trim_trailing_slashes("/a/b"), "/a/b");
    assert_eq!(trim_trailing_slashes(""), "");
}

#[test]
fn new_file_names_lose_their_yml_suffixes() {
    assert_eq!(strip_yml_suffix("notes.yml"), "notes");
    assert_eq!(strip_yml_suffix("notes.yml.yml"), "notes");
    assert_eq!(strip_yml_suffix("notes"), "notes");
    assert_eq!(strip_yml_suffix(".yml"), "");
}

#[test]
fn preferences_round_trip() {
    let data = EGUIData {
        espanso_dir: "/home/u/Library/Application Support/espanso".to_string(),
    };
    let text = emit_prefs_text(&data);
    let back = parse_prefs_text(&text).expect("parses");
    assert_eq!(back.espanso_dir, data.espanso_dir);
}

#[test]
fn preferences_round_trip_with_escapes() {
    let data = EGUIData {
        espanso_dir: "C:\\Users\\u\\espanso \"dir\"".to_string(),
    };
    let back = parse_prefs_text(&emit_prefs_text(&data)).expect("parses");
    assert_eq!(back.espanso_dir, data.espanso_dir);
}

#[test]
fn preferences_text_is_json_serde_agrees() {
    let data = EGUIData {
        espanso_dir: "/tmp/espanso".to_string(),
    };
    let text = emit_prefs_text(&data);
    let v: serde_json::Value = serde_json::from_str(&text).expect("valid json");
    assert_eq!(
        v.get("espanso_dir").and_then(|x| x.as_str()),
        Some("/tmp/espanso")
    );
    let round: EGUIData = parse_prefs_text(&serde_json::to_string(&v).expect("emits"))
        .expect("reads serde's spelling");
    assert_eq!(round.espanso_dir, data.espanso_dir);
}

#[test]
fn preferences_parse_rejects_other_shapes() {
    assert!(parse_prefs_text("").is_none());
    assert!(parse_prefs_text("{}").is_none());
    assert!(parse_prefs_text("{\"other\": \"x\"}").is_none());
    assert!(parse_prefs_text("{\"espanso_dir\": 3}").is_none());
}

#[test]
fn default_separators_are_the_eight_known_ones() {
    let d = get_default_word_separators();
    assert_eq!(
        d,
        vec![
            " ".to_string(),
            ",".to_string(),
            ".".to_string(),
            "?".to_string(),
            "!".to_string(),
            "\r".to_string(),
            "\n".to_string(),
            "\u{16}".to_string()
        ]
    );
}

#[test]
fn separator_display_round_trips_the_defaults() {
    let d = get_default_word_separators();
    let shown = sep_display(&d);
    assert_eq!(
        shown,
        "[\" \", \",\", \".\", \"?\", \"!\", \"\\r\", \"\\n\", \"\\u0016\"]"
    );
    let back = parse_sep_display(&shown).expect("parses");
    assert_eq!(back, d);
}

#[test]
fn separator_display_round_trips_empty_and_plain_lists() {
    for list in [vec![], vec!["ab".to_string(), "\t".to_string()]] {
        let back = parse_sep_display(&sep_display(&list)).expect("parses");
        assert_eq!(back, list);
    }
}
