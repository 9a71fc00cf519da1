//! Edit sessions: the `original` and `edited` copies of the currently
//! open match file or configuration, with field-by-field updates,
//! dirty checking, reset/undo, and validation before save.

use vstd::prelude::*;
use crate::matches::{EspansoYaml, YamlPairs, all_pairs_filled, validate_for_save};
use crate::config::{ParsedConfig, ConfigView, all_unset};
use crate::match_codec::{emit_match_text, match_text_of};
use crate::config_codec::{emit_config_text, config_text_of};
use crate::separators::{
    sep_display_of, sep_display, parse_sep_doc, parse_sep_display, default_separators,
    get_default_word_separators,
};

verus! {

/// Which field of a match pair an edit touches.
#[derive(Clone, Copy, Debug, PartialEq, Eq, Structural)]
pub enum PairField {
    Trigger,
    Replace,
}

/// A pair with one field replaced.
pub open spec fn pair_with(p: (Seq<char>, Seq<char>), field: PairField, value: Seq<char>) -> (
    Seq<char>,
    Seq<char>,
) {
    match field {
        PairField::Trigger => (value, p.1),
        PairField::Replace => (p.0, value),
    }
}

/// The match-file edit session: the document as loaded or last saved,
/// and the working copy the form mutates.
#[derive(Debug)]
pub struct MatchSession {
    pub original_file: EspansoYaml,
    pub edited_file: EspansoYaml,
}

impl MatchSession {
    /// A fresh session, both copies empty, as on start and on every
    /// navigation.
    pub fn new() -> (r: MatchSession)
        ensures
            r.original_file@ =~= Seq::<(Seq<char>, Seq<char>)>::empty(),
            r.edited_file@ =~= Seq::<(Seq<char>, Seq<char>)>::empty(),
    {
        MatchSession { original_file: EspansoYaml::new(), edited_file: EspansoYaml::new() }
    }

    /// Takes a freshly loaded document: both copies become it, so a
    /// just-loaded session is never dirty.
    pub fn load(doc: EspansoYaml) -> (r: MatchSession)
        ensures
            r.original_file@ == doc@,
            r.edited_file@ == doc@,
    {
        let copy = doc.clone();
        MatchSession { original_file: copy, edited_file: doc }
    }

    /// The working copy differs from the loaded one.
    pub fn is_dirty(&self) -> (r: bool)
        ensures
            r == (self.edited_file@ != self.original_file@),
    {
        !self.edited_file.eq_doc(&self.original_file)
    }

    /// Appends a fresh, empty pair to the working copy.
    pub fn add_pair(&mut self)
        ensures
            final(self).edited_file@ == old(self).edited_file@.push(
                (Seq::<char>::empty(), Seq::<char>::empty()),
            ),
            final(self).original_file@ == old(self).original_file@,
    {
        let ghost before = self.edited_file@;
        self.edited_file.matches.push(YamlPairs::empty());
        proof {
            assert(self.edited_file@ =~= before.push((Seq::<char>::empty(), Seq::<char>::empty())));
        }
    }

    /// Sets one field of one pair of the working copy; rejected when
    /// the index is out of range.
    pub fn update_field(&mut self, index: usize, field: PairField, value: String) -> (r: Result<
        (),
        (),
    >)
        ensures
            match r {
                Ok(()) => old(self).edited_file@.len() > index && final(self).edited_file@ == old(
                    self,
                ).edited_file@.update(
                    index as int,
                    pair_with(old(self).edited_file@[index as int], field, value@),
                ),
                Err(()) => index >= old(self).edited_file@.len() && final(self).edited_file@ == old(self).edited_file@,
            },
            final(self).original_file@ == old(self).original_file@,
    {
        if index >= self.edited_file.matches.len() {
            return Err(());
        }
        let ghost before = self.edited_file@;
        match field {
            PairField::Trigger => {
                self.edited_file.matches[index].trigger = value;
            },
            PairField::Replace => {
                self.edited_file.matches[index].replace = value;
            },
        }
        proof {
            assert(self.edited_file@ =~= before.update(
                index as int,
                pair_with(before[index as int], field, value@),
            ));
        }
        Ok(())
    }

    /// Removes one pair of the working copy.
    pub fn remove_pair(&mut self, index: usize)
        requires
            index < old(self).edited_file@.len(),
        ensures
            final(self).edited_file@ == old(self).edited_file@.remove(index as int),
            final(self).original_file@ == old(self).original_file@,
    {
        let ghost before = self.edited_file@;
        let _ = self.edited_file.matches.remove(index);
        proof {
            assert(self.edited_file@ =~= before.remove(index as int));
        }
    }

    /// Discards the edits: the working copy becomes the loaded one
    /// again.
    pub fn reset(&mut self)
        ensures
            final(self).edited_file@ == old(self).original_file@,
            final(self).original_file@ == old(self).original_file@,
    {
        self.edited_file = self.original_file.clone();
    }

    /// The save-time validation: succeeds exactly when no pair of the
    /// working copy has an empty-after-trim trigger or replacement.
    pub fn validate_for_save(&self) -> (r: bool)
        ensures
            r == all_pairs_filled(self.edited_file@),
    {
        validate_for_save(&self.edited_file)
    }

    /// The text to write on save, produced only when validation
    /// passes; nothing changes on failure.
    pub fn save_text(&self) -> (r: Result<String, ()>)
        ensures
            match r {
                Ok(text) => all_pairs_filled(self.edited_file@) && text@ == match_text_of(
                    self.edited_file@,
                ),
                Err(()) => !all_pairs_filled(self.edited_file@),
            },
    {
        if validate_for_save(&self.edited_file) {
            Ok(emit_match_text(&self.edited_file))
        } else {
            Err(())
        }
    }

    /// After a successful write, the working copy becomes the loaded
    /// one.
    pub fn commit_saved(&mut self)
        ensures
            final(self).original_file@ == old(self).edited_file@,
            final(self).edited_file@ == old(self).edited_file@,
    {
        self.original_file = self.edited_file.clone();
    }
}

/// Dirty checking for the match session: a clean session stays clean
/// over load and reset, and any field update that actually changes a
/// value makes it dirty.
pub proof fn lemma_match_update_dirty(
    doc: Seq<(Seq<char>, Seq<char>)>,
    index: int,
    field: PairField,
    value: Seq<char>,
)
    requires
        0 <= index < doc.len(),
        pair_with(doc[index], field, value) != doc[index],
    ensures
        doc.update(index, pair_with(doc[index], field, value)) != doc,
{
    let updated = doc.update(index, pair_with(doc[index], field, value));
    assert(updated[index] != doc[index]);
}

/// A changed value is exactly what makes the updated pair differ: the
/// update leaves the document unchanged only when the value already
/// stood there.
pub proof fn lemma_match_update_clean(
    doc: Seq<(Seq<char>, Seq<char>)>,
    index: int,
    field: PairField,
    value: Seq<char>,
)
    requires
        0 <= index < doc.len(),
    ensures
        (pair_with(doc[index], field, value) == doc[index]) <==> (doc.update(
            index,
            pair_with(doc[index], field, value),
        ) == doc),
{
    let updated = doc.update(index, pair_with(doc[index], field, value));
    if pair_with(doc[index], field, value) == doc[index] {
        assert(updated =~= doc);
    } else {
        assert(updated[index] != doc[index]);
    }
}

/// The display coercions applied to a just-loaded configuration: an
/// unset backend shows as `Auto`, an unset toggle key as `OFF`.
pub open spec fn with_display_defaults(c: ConfigView) -> ConfigView {
    ConfigView {
        backend: if c.backend is Some {
            c.backend
        } else {
            Some("Auto"@)
        },
        toggle_key: if c.toggle_key is Some {
            c.toggle_key
        } else {
            Some("OFF"@)
        },
        ..c
    }
}

/// Applies the display coercions to a configuration record.
pub fn apply_display_defaults(c: &mut ParsedConfig)
    ensures
        final(c)@ == with_display_defaults(old(c)@),
{
    if c.backend.is_none() {
        c.backend = Some(String::from_str("Auto"));
    }
    if c.toggle_key.is_none() {
        c.toggle_key = Some(String::from_str("OFF"));
    }
    assert(c@ =~= with_display_defaults(old(c)@));
}

/// What the separators input shows for a configuration: the set list,
/// or the default list when the field is unset.
pub open spec fn seps_display_view(c: ConfigView) -> Seq<char> {
    match c.word_separators {
        Some(vs) => sep_display_of(vs),
        None => sep_display_of(default_separators()),
    }
}

/// The configuration edit session: the record as loaded or last
/// saved, the working copy the form mutates, and the word-separators
/// input's working buffer.
#[derive(Debug)]
pub struct ConfigSession {
    pub original_config: ParsedConfig,
    pub edited_config: ParsedConfig,
    pub temp_word_separators: String,
}

impl ConfigSession {
    /// A fresh session: both copies fully unset, the separators buffer
    /// showing the default list.
    pub fn new() -> (r: ConfigSession)
        ensures
            r.original_config@ == all_unset(),
            r.edited_config@ == all_unset(),
            r.temp_word_separators@ == seps_display_view(all_unset()),
    {
        let defaults = get_default_word_separators();
        ConfigSession {
            original_config: ParsedConfig::default(),
            edited_config: ParsedConfig::default(),
            temp_word_separators: sep_display(&defaults),
        }
    }

    /// The separators buffer a configuration calls for: its own list,
    /// or the default list when unset.
    fn display_separators(c: &ParsedConfig) -> (r: String)
        ensures
            r@ == seps_display_view(c@),
    {
        match &c.word_separators {
            Some(list) => sep_display(list),
            None => {
                let defaults = get_default_word_separators();
                sep_display(&defaults)
            },
        }
    }

    /// Takes a freshly loaded configuration: the display coercions are
    /// applied to both copies, so an untouched configuration is not
    /// dirty merely because the pickers need a concrete selection.
    pub fn load(mut config: ParsedConfig) -> (r: ConfigSession)
        ensures
            r.original_config@ == with_display_defaults(config@),
            r.edited_config@ == with_display_defaults(config@),
            r.temp_word_separators@ == seps_display_view(with_display_defaults(config@)),
    {
        apply_display_defaults(&mut config);
        let copy = config.clone();
        let buffer = Self::display_separators(&config);
        ConfigSession { original_config: copy, edited_config: config, temp_word_separators: buffer }
    }

    /// The working copy differs from the loaded one.
    pub fn is_dirty(&self) -> (r: bool)
        ensures
            r == (self.edited_config@ != self.original_config@),
    {
        !self.edited_config.eq_config(&self.original_config)
    }

    /// Discards the edits: the working copy becomes the loaded one
    /// again, the separators buffer included.
    pub fn undo(&mut self)
        ensures
            final(self).edited_config@ == old(self).original_config@,
            final(self).original_config@ == old(self).original_config@,
            final(self).temp_word_separators@ == seps_display_view(old(self).original_config@),
    {
        self.edited_config = self.original_config.clone();
        self.temp_word_separators = Self::display_separators(&self.edited_config);
    }

    /// Overwrites the separators buffer with what the user typed.
    pub fn set_separators_input(&mut self, value: String)
        ensures
            final(self).temp_word_separators@ == value@,
            final(self).edited_config@ == old(self).edited_config@,
            final(self).original_config@ == old(self).original_config@,
    {
        self.temp_word_separators = value;
    }

    /// The separators buffer no longer shows the working copy's list.
    pub fn seps_changed(&self) -> (r: bool)
        ensures
            r == (self.temp_word_separators@ != seps_display_view(self.edited_config@)),
    {
        let shown = Self::display_separators(&self.edited_config);
        !(self.temp_word_separators == shown)
    }

    /// Whether anything would be lost by leaving: a field edit or an
    /// unapplied separators edit.
    pub fn has_unsaved_changes(&self) -> (r: bool)
        ensures
            r == (self.edited_config@ != self.original_config@ || self.temp_word_separators@
                != seps_display_view(self.edited_config@)),
    {
        self.is_dirty() || self.seps_changed()
    }

    /// Folds an edited separators buffer back into the working copy
    /// before a save: a buffer that parses as a list replaces the
    /// field; an unchanged or unparsable buffer leaves it alone.
    pub fn apply_separators_input(&mut self)
        ensures
            final(self).original_config@ == old(self).original_config@,
            final(self).temp_word_separators@ == old(self).temp_word_separators@,
            final(self).edited_config@ == (if old(self).temp_word_separators@
                != seps_display_view(old(self).edited_config@) && parse_sep_doc(
                old(self).temp_word_separators@,
            ) is Some {
                ConfigView {
                    word_separators: Some(parse_sep_doc(old(self).temp_word_separators@)->0),
                    ..old(self).edited_config@
                }
            } else {
                old(self).edited_config@
            }),
    {
        if self.seps_changed() {
            match parse_sep_display(self.temp_word_separators.as_str()) {
                Some(list) => {
                    let ghost vv = list@.map_values(|x: String| x@);
                    self.edited_config.word_separators = Some(list);
                    assert(self.edited_config@ =~= (ConfigView { word_separators: Some(vv), ..old(
                        self,
                    ).edited_config@ }));
                },
                None => {
                },
            }
        }
    }

    /// Resets the working copy to the application's own defaults:
    /// everything unset but the two picker fields, which show their
    /// display defaults.
    pub fn reset_to_defaults(&mut self)
        ensures
            final(self).edited_config@ == with_display_defaults(all_unset()),
            final(self).original_config@ == old(self).original_config@,
    {
        let mut fresh = ParsedConfig::default();
        apply_display_defaults(&mut fresh);
        self.edited_config = fresh;
    }

    /// The text to write on save: exactly the set fields of the
    /// working copy.
    pub fn save_text(&self) -> (r: String)
        ensures
            r@ == config_text_of(self.edited_config@),
    {
        emit_config_text(&self.edited_config)
    }

    /// After a successful write, the working copy becomes the loaded
    /// one and the separators buffer is resynchronised from it.
    pub fn commit_saved(&mut self)
        ensures
            final(self).original_config@ == old(self).edited_config@,
            final(self).edited_config@ == old(self).edited_config@,
            final(self).temp_word_separators@ == seps_display_view(old(self).edited_config@),
    {
        self.original_config = self.edited_config.clone();
        self.temp_word_separators = Self::display_separators(&self.edited_config);
    }

    /// One field update of the working copy, as the form's toggles and
    /// inputs perform it.
    pub fn set_enable(&mut self, value: bool)
        ensures
            final(self).edited_config@ == (ConfigView { enable: Some(value), ..old(
                self,
            ).edited_config@ }),
            final(self).original_config@ == old(self).original_config@,
    {
        self.edited_config.enable = Some(value);
        assert(self.edited_config@ =~= (ConfigView { enable: Some(value), ..old(
            self,
        ).edited_config@ }));
    }

    /// One field update of the working copy.
    pub fn set_backend(&mut self, value: String)
        ensures
            final(self).edited_config@ == (ConfigView { backend: Some(value@), ..old(
                self,
            ).edited_config@ }),
            final(self).original_config@ == old(self).original_config@,
    {
        self.edited_config.backend = Some(value);
        assert(self.edited_config@ =~= (ConfigView { backend: Some(value@), ..old(
            self,
        ).edited_config@ }));
    }

    /// One field update of the working copy.
    pub fn set_toggle_key(&mut self, value: String)
        ensures
            final(self).edited_config@ == (ConfigView { toggle_key: Some(value@), ..old(
                self,
            ).edited_config@ }),
            final(self).original_config@ == old(self).original_config@,
    {
        self.edited_config.toggle_key = Some(value);
        assert(self.edited_config@ =~= (ConfigView { toggle_key: Some(value@), ..old(
            self,
        ).edited_config@ }));
    }

    /// One field update of the working copy.
    pub fn set_key_delay(&mut self, value: u64)
        ensures
            final(self).edited_config@ == (ConfigView { key_delay: Some(value), ..old(
                self,
            ).edited_config@ }),
            final(self).original_config@ == old(self).original_config@,
    {
        self.edited_config.key_delay = Some(value);
        assert(self.edited_config@ =~= (ConfigView { key_delay: Some(value), ..old(
            self,
        ).edited_config@ }));
    }

    /// One field update of the working copy.
    pub fn set_inject_delay(&mut self, value: u64)
        ensures
            final(self).edited_config@ == (ConfigView { inject_delay: Some(value), ..old(
                self,
            ).edited_config@ }),
            final(self).original_config@ == old(self).original_config@,
    {
        self.edited_config.inject_delay = Some(value);
        assert(self.edited_config@ =~= (ConfigView { inject_delay: Some(value), ..old(
            self,
        ).edited_config@ }));
    }

    /// One field update of the working copy.
    pub fn set_clipboard_threshold(&mut self, value: u64)
        ensures
            final(self).edited_config@ == (ConfigView { clipboard_threshold: Some(value), ..old(
                self,
            ).edited_config@ }),
            final(self).original_config@ == old(self).original_config@,
    {
        self.edited_config.clipboard_threshold = Some(value);
        assert(self.edited_config@ =~= (ConfigView { clipboard_threshold: Some(value), ..old(
            self,
        ).edited_config@ }));
    }

    /// One field update of the working copy.
    pub fn set_word_separators(&mut self, value: Vec<String>)
        ensures
            final(self).edited_config@ == (ConfigView {
                word_separators: Some(value@.map_values(|s: String| s@)),
                ..old(self).edited_config@
            }),
            final(self).original_config@ == old(self).original_config@,
    {
        let ghost vv = value@.map_values(|s: String| s@);
        self.edited_config.word_separators = Some(value);
        assert(self.edited_config@ =~= (ConfigView { word_separators: Some(vv), ..old(
            self,
        ).edited_config@ }));
    }

    /// Sets the single `layout` key of the keyboard-layout mapping, as
    /// the layout input does.
    pub fn set_keyboard_layout(&mut self, value: String)
        ensures
            final(self).edited_config@ == (ConfigView {
                keyboard_layout: Some(seq![("layout"@, value@)]),
                ..old(self).edited_config@
            }),
            final(self).original_config@ == old(self).original_config@,
    {
        let ghost vv = value@;
        let mut m: Vec<(String, String)> = Vec::new();
        m.push((String::from_str("layout"), value));
        self.edited_config.keyboard_layout = Some(m);
        assert(self.edited_config@.keyboard_layout == Some(seq![("layout"@, vv)])) by {
            assert(m@.map_values(|p: (String, String)| (p.0@, p.1@)) =~= seq![("layout"@, vv)]);
        }
        assert(self.edited_config@ =~= (ConfigView { keyboard_layout: Some(seq![("layout"@, vv)]), ..old(
            self,
        ).edited_config@ }));
    }
}

/// Dirty checking for the configuration session: updating a field of
/// a clean session to a value other than the one it held makes the
/// session dirty, shown here for the `enable` toggle; every setter
/// changes exactly its own field in the same way.
pub proof fn lemma_config_set_dirty(c: ConfigView, value: bool)
    requires
        c.enable != Some(value),
    ensures
        (ConfigView { enable: Some(value), ..c }) != c,
{
}

/// The first `layout` entry of a key-value list, if any.
pub open spec fn layout_lookup(ps: Seq<(Seq<char>, Seq<char>)>) -> Option<Seq<char>>
    decreases ps.len(),
{
    if ps.len() == 0 {
        None
    } else if ps[0].0 == "layout"@ {
        Some(ps[0].1)
    } else {
        layout_lookup(ps.drop_first())
    }
}

/// The display value of the keyboard layout: the mapping's first
/// `layout` entry, or `us` when the mapping or the key is absent.
pub open spec fn layout_display_of(o: Option<Seq<(Seq<char>, Seq<char>)>>) -> Seq<char> {
    match o {
        None => "us"@,
        Some(ps) => match layout_lookup(ps) {
            Some(v) => v,
            None => "us"@,
        },
    }
}

/// Reads the keyboard-layout display value from a configuration.
pub fn layout_display(c: &ParsedConfig) -> (r: String)
    ensures
        r@ == layout_display_of(c@.keyboard_layout),
{
    match &c.keyboard_layout {
        None => String::from_str("us"),
        Some(ps) => {
            let ghost psv = ps@.map_values(|p: (String, String)| (p.0@, p.1@));
            let n = ps.len();
            let mut i: usize = 0;
            proof {
                assert(psv.subrange(0, n as int) =~= psv);
            }
            while i < n
                invariant
                    i <= n,
                    n == ps@.len(),
                    psv == ps@.map_values(|p: (String, String)| (p.0@, p.1@)),
                    c@.keyboard_layout == Some(psv),
                    layout_lookup(psv) == layout_lookup(psv.subrange(i as int, n as int)),
                decreases n - i,
            {
                let ghost rest = psv.subrange(i as int, n as int);
                if crate::text::str_eq(ps[i].0.as_str(), "layout") {
                    proof {
                        assert(rest[0] == psv[i as int]);
                        assert(layout_lookup(rest) == Some(psv[i as int].1));
                    }
                    return ps[i].1.clone();
                }
                proof {
                    assert(rest[0] == psv[i as int]);
                    assert(rest.drop_first() =~= psv.subrange(i + 1 as int, n as int));
                }
                i += 1;
            }
            proof {
                assert(psv.subrange(n as int, n as int) =~= Seq::<(Seq<char>, Seq<char>)>::empty());
            }
            String::from_str("us")
        },
    }
}

} // verus!
