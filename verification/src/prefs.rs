//! The preferences record: the chosen data-directory path, persisted
//! as a one-field JSON object.  Writing a record and reading it back
//! returns the same path.

use vstd::prelude::*;
use crate::quoted::{quoted, push_quoted, parse_qbody, lemma_parse_quoted};
use crate::scan::{skip_noise, skip_noise_exec, lemma_skip_noise_stops, lemma_seg_at};
use crate::text::{push_str_chars, chars_to_string, str_to_chars};

verus! {

/// What the editor remembers between runs: the data-directory path.
#[derive(Debug)]
pub struct EGUIData {
    pub espanso_dir: String,
}

impl View for EGUIData {
    type V = Seq<char>;

    open spec fn view(&self) -> Seq<char> {
        self.espanso_dir@
    }
}

impl Clone for EGUIData {
    fn clone(&self) -> (r: Self)
        ensures
            r@ == self@,
    {
        EGUIData { espanso_dir: self.espanso_dir.clone() }
    }
}

/// The record the editor starts from: what the preferences file held,
/// or a record built from the platform's default data directory when
/// the file was missing or unreadable.
pub fn startup_prefs(loaded: Option<EGUIData>, default_dir: String) -> (r: EGUIData)
    ensures
        match loaded {
            Some(d) => r@ == d@,
            None => r@ == default_dir@,
        },
{
    match loaded {
        Some(d) => d,
        None => EGUIData { espanso_dir: default_dir },
    }
}

/// The JSON text for a preferences record.
pub open spec fn prefs_text_of(dir: Seq<char>) -> Seq<char> {
    "{"@ + quoted("espanso_dir"@) + ": "@ + quoted(dir) + "}"@
}

/// Writes the preferences file, exactly as `prefs_text_of` states.
pub fn emit_prefs_text(data: &EGUIData) -> (r: String)
    ensures
        r@ == prefs_text_of(data@),
{
    let mut out: Vec<char> = Vec::new();
    push_str_chars(&mut out, "{");
    push_quoted(&mut out, "espanso_dir");
    push_str_chars(&mut out, ": ");
    push_quoted(&mut out, data.espanso_dir.as_str());
    push_str_chars(&mut out, "}");
    assert(out@ =~= prefs_text_of(data@));
    chars_to_string(&out)
}

/// A preferences document: an object holding the one `espanso_dir`
/// key, with whitespace allowed around the tokens.
pub open spec fn parse_prefs_doc(t: Seq<char>) -> Option<Seq<char>> {
    let i = skip_noise(t, 0, false);
    if i >= t.len() || t[i] != '{' {
        None
    } else {
        let j = skip_noise(t, i + 1, false);
        if j >= t.len() || t[j] != '"' {
            None
        } else {
            match parse_qbody(t, j + 1) {
                None => None,
                Some((k, p)) => {
                    if k != "espanso_dir"@ {
                        None
                    } else {
                        let q = skip_noise(t, p, false);
                        if q >= t.len() || t[q] != ':' {
                            None
                        } else {
                            let w = skip_noise(t, q + 1, false);
                            if w >= t.len() || t[w] != '"' {
                                None
                            } else {
                                match parse_qbody(t, w + 1) {
                                    None => None,
                                    Some((val, e)) => {
                                        let z = skip_noise(t, e, false);
                                        if z < t.len() && t[z] == '}' && skip_noise(t, z + 1, false)
                                            == t.len() {
                                            Some(val)
                                        } else {
                                            None
                                        }
                                    },
                                }
                            }
                        }
                    }
                },
            }
        }
    }
}

/// Parses a preferences file, exactly as `parse_prefs_doc` states.
pub fn parse_prefs_text(s: &str) -> (r: Option<EGUIData>)
    ensures
        match r {
            Some(d) => parse_prefs_doc(s@) == Some(d@),
            None => parse_prefs_doc(s@) is None,
        },
{
    let v = str_to_chars(s);
    let n = v.len();
    let i = skip_noise_exec(&v, 0);
    if i >= n || v[i] != '{' {
        return None;
    }
    let j = skip_noise_exec(&v, i + 1);
    if j >= n || v[j] != '"' {
        return None;
    }
    let (k, p) = match crate::quoted::parse_quoted_at(&v, j) {
        Some(q) => q,
        None => {
            return None;
        },
    };
    if !crate::text::chars_eq_str(&k, "espanso_dir") {
        return None;
    }
    let q = skip_noise_exec(&v, p);
    if q >= n || v[q] != ':' {
        return None;
    }
    let w = skip_noise_exec(&v, q + 1);
    if w >= n || v[w] != '"' {
        return None;
    }
    let (val, e) = match crate::quoted::parse_quoted_at(&v, w) {
        Some(x) => x,
        None => {
            return None;
        },
    };
    let z = skip_noise_exec(&v, e);
    if z < n && v[z] == '}' && skip_noise_exec(&v, z + 1) == n {
        Some(EGUIData { espanso_dir: chars_to_string(&val) })
    } else {
        None
    }
}

/// Writing a preferences record and reading it back returns the same
/// path.
pub proof fn lemma_prefs_round_trip(dir: Seq<char>)
    ensures
        parse_prefs_doc(prefs_text_of(dir)) == Some(dir),
{
    reveal_strlit("{");
    reveal_strlit("}");
    reveal_strlit(": ");
    let t = prefs_text_of(dir);
    let qk = quoted("espanso_dir"@);
    let qv = quoted(dir);
    assert(t =~= t.take(0) + "{"@ + (qk + ": "@ + qv + "}"@)) by {
        assert(t.take(0) =~= Seq::<char>::empty());
    }
    lemma_seg_at(t, 0, "{"@, qk + ": "@ + qv + "}"@);
    assert(t[0] == '{');
    lemma_skip_noise_stops(t, 0);
    assert(t =~= t.take(1) + qk + (": "@ + qv + "}"@));
    lemma_seg_at(t, 1, qk, ": "@ + qv + "}"@);
    assert(qk[0] == '"');
    assert(t[1] == '"');
    lemma_skip_noise_stops(t, 1);
    lemma_parse_quoted(t, 1, "espanso_dir"@, ": "@ + qv + "}"@);
    let p = 1 + qk.len() as int;
    assert(t =~= t.take(p) + ": "@ + (qv + "}"@));
    lemma_seg_at(t, p, ": "@, qv + "}"@);
    assert(t[p] == ':' && t[p + 1] == ' ');
    lemma_skip_noise_stops(t, p);
    assert(t =~= t.take(p + 2) + qv + "}"@);
    lemma_seg_at(t, p + 2, qv, "}"@);
    assert(qv[0] == '"');
    assert(t[p + 2] == '"');
    assert(skip_noise(t, p + 1, false) == p + 2) by {
        lemma_skip_noise_stops(t, p + 2);
    }
    lemma_parse_quoted(t, p + 2, dir, "}"@);
    let e = p + 2 + qv.len() as int;
    assert(t =~= t.take(e) + "}"@ + Seq::<char>::empty());
    lemma_seg_at(t, e, "}"@, Seq::empty());
    assert(t[e] == '}');
    lemma_skip_noise_stops(t, e);
    assert(e + 1 == t.len());
    assert(skip_noise(t, e + 1, false) == t.len());
    assert(parse_prefs_doc(t) == Some(dir));
}

} // verus!
