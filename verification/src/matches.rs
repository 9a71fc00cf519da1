//! The match-file data model: an ordered list of trigger/replacement
//! pairs, the load-time filter that drops pairs with an empty field,
//! and the save-time validation that rejects blank fields.

use vstd::prelude::*;
use crate::text::{is_blank, str_is_blank};

verus! {

/// One text-expansion rule: typing `trigger` produces `replace`.
#[derive(Debug)]
pub struct YamlPairs {
    pub trigger: String,
    pub replace: String,
}

impl Clone for YamlPairs {
    fn clone(&self) -> (r: Self)
        ensures
            r@ == self@,
    {
        YamlPairs { trigger: self.trigger.clone(), replace: self.replace.clone() }
    }
}

impl View for YamlPairs {
    type V = (Seq<char>, Seq<char>);

    open spec fn view(&self) -> (Seq<char>, Seq<char>) {
        (self.trigger@, self.replace@)
    }
}

impl YamlPairs {
    pub fn new(trigger: String, replace: String) -> (r: YamlPairs)
        ensures
            r@ == (trigger@, replace@),
    {
        YamlPairs { trigger, replace }
    }

    /// A fresh, still-empty pair, as appended by the "add" action.
    pub fn empty() -> (r: YamlPairs)
        ensures
            r@ == (Seq::<char>::empty(), Seq::<char>::empty()),
    {
        YamlPairs { trigger: String::new(), replace: String::new() }
    }

    pub fn eq_pair(&self, other: &YamlPairs) -> (r: bool)
        ensures
            r == (self@ == other@),
    {
        let r = self.trigger == other.trigger && self.replace == other.replace;
        if r {
            assert(self@ == other@);
        }
        r
    }
}

/// The contents of one match file: an ordered sequence of pairs.
/// Order matters only for display; duplicate triggers are allowed.
#[derive(Debug)]
pub struct EspansoYaml {
    pub matches: Vec<YamlPairs>,
}

impl Clone for EspansoYaml {
    fn clone(&self) -> (r: Self)
        ensures
            r@ == self@,
    {
        let n = self.matches.len();
        let mut out: Vec<YamlPairs> = Vec::new();
        let mut i: usize = 0;
        while i < n
            invariant
                i <= n,
                n == self.matches@.len(),
                out@.len() == i,
                forall|j: int| 0 <= j < i ==> out@[j]@ == self.matches@[j]@,
            decreases n - i,
        {
            out.push(self.matches[i].clone());
            i += 1;
        }
        let r = EspansoYaml { matches: out };
        assert(r@ =~= doc_view(self));
        r
    }
}

/// The view of a match document: the sequence of (trigger, replace)
/// character sequences.
pub open spec fn doc_view(m: &EspansoYaml) -> Seq<(Seq<char>, Seq<char>)> {
    m.matches@.map_values(|p: YamlPairs| p@)
}

impl View for EspansoYaml {
    type V = Seq<(Seq<char>, Seq<char>)>;

    open spec fn view(&self) -> Seq<(Seq<char>, Seq<char>)> {
        doc_view(self)
    }
}

impl EspansoYaml {
    pub fn new() -> (r: EspansoYaml)
        ensures
            r@ =~= Seq::<(Seq<char>, Seq<char>)>::empty(),
    {
        EspansoYaml { matches: Vec::new() }
    }

    pub fn from_pairs(matches: Vec<YamlPairs>) -> (r: EspansoYaml)
        ensures
            r@ == matches@.map_values(|p: YamlPairs| p@),
    {
        EspansoYaml { matches }
    }

    pub fn eq_doc(&self, other: &EspansoYaml) -> (r: bool)
        ensures
            r == (self@ == other@),
    {
        if self.matches.len() != other.matches.len() {
            assert(self@.len() == self.matches@.len());
            assert(other@.len() == other.matches@.len());
            return false;
        }
        let n = self.matches.len();
        let mut i: usize = 0;
        while i < n
            invariant
                i <= n,
                n == self.matches@.len(),
                n == other.matches@.len(),
                forall|j: int| 0 <= j < i ==> self.matches@[j]@ == other.matches@[j]@,
            decreases n - i,
        {
            if !self.matches[i].eq_pair(&other.matches[i]) {
                assert(self@[i as int] != other@[i as int]);
                return false;
            }
            i += 1;
        }
        assert(self@ =~= other@);
        true
    }
}

/// The raw shape of a match file as a list of key-value rows, an
/// alternative carrier for tools that do not know the pair type.
/// Nothing in the editor reads through it.
#[derive(Debug, Default, Clone)]
pub struct Triggers {
    pub matches: Vec<std::collections::HashMap<String, String>>,
}

/// A pair survives the load-time filter when neither field is the
/// empty string (whitespace-only fields survive; they are caught at
/// save time instead).
pub open spec fn pair_is_nonempty(p: (Seq<char>, Seq<char>)) -> bool {
    p.0.len() > 0 && p.1.len() > 0
}

/// Drops every pair with an empty trigger or an empty replacement,
/// keeping the order of the rest, as the loader does.
pub fn filter_nonempty_pairs(pairs: Vec<YamlPairs>) -> (r: Vec<YamlPairs>)
    ensures
        r@.map_values(|p: YamlPairs| p@) == pairs@.map_values(|p: YamlPairs| p@).filter(
            |q: (Seq<char>, Seq<char>)| pair_is_nonempty(q),
        ),
{
    let n = pairs.len();
    let mut out: Vec<YamlPairs> = Vec::new();
    let mut i: usize = 0;
    while i < n
        invariant
            i <= n,
            n == pairs@.len(),
            out@.map_values(|p: YamlPairs| p@) =~= pairs@.map_values(|p: YamlPairs| p@).subrange(
                0,
                i as int,
            ).filter(|q: (Seq<char>, Seq<char>)| pair_is_nonempty(q)),
        decreases n - i,
    {
        let ghost prefix = pairs@.map_values(|p: YamlPairs| p@).subrange(0, i as int);
        let p = pairs[i].clone();
        assert(p@ == pairs@.map_values(|q: YamlPairs| q@)[i as int]);
        if !p.trigger.as_str().is_empty() && !p.replace.as_str().is_empty() {
            out.push(p);
        }
        proof {
            let full = pairs@.map_values(|q: YamlPairs| q@);
            let pred = |q: (Seq<char>, Seq<char>)| pair_is_nonempty(q);
            let pushed = prefix.push(full[i as int]);
            assert(full.subrange(0, i + 1 as int) =~= pushed);
            reveal(Seq::filter);
            assert(pushed.drop_last() =~= prefix);
            assert(pushed.last() == full[i as int]);
            if pred(full[i as int]) {
                assert(pushed.filter(pred) =~= prefix.filter(pred).push(full[i as int]));
            } else {
                assert(pushed.filter(pred) =~= prefix.filter(pred));
            }
        }
        i += 1;
    }
    proof {
        let full = pairs@.map_values(|q: YamlPairs| q@);
        assert(full.subrange(0, n as int) =~= full);
    }
    out
}

/// A pair is filled when neither its trigger nor its replacement is
/// blank (empty after trimming).
pub open spec fn pair_is_filled(p: (Seq<char>, Seq<char>)) -> bool {
    !is_blank(p.0) && !is_blank(p.1)
}

/// A document is fit to save when every pair is filled.
pub open spec fn all_pairs_filled(doc: Seq<(Seq<char>, Seq<char>)>) -> bool {
    forall|i: int| 0 <= i < doc.len() ==> pair_is_filled(#[trigger] doc[i])
}

/// The save-time check: succeeds exactly when no pair has an
/// empty-after-trim trigger or replacement.
pub fn validate_for_save(doc: &EspansoYaml) -> (r: bool)
    ensures
        r == all_pairs_filled(doc@),
{
    let n = doc.matches.len();
    let mut i: usize = 0;
    while i < n
        invariant
            i <= n,
            n == doc.matches@.len(),
            forall|j: int| 0 <= j < i ==> pair_is_filled(#[trigger] doc@[j]),
        decreases n - i,
    {
        let p = &doc.matches[i];
        assert(p@ == doc@[i as int]);
        if str_is_blank(p.trigger.as_str()) || str_is_blank(p.replace.as_str()) {
            assert(i < doc@.len());
            assert(!pair_is_filled(doc@[i as int]));
            return false;
        }
        i += 1;
    }
    true
}

} // verus!
