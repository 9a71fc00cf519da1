//! The match-file format: a `matches:` document holding a block
//! sequence of `- trigger: ... / replace: ...` records.  The writer
//! double-quotes every value; the reader also accepts plain and
//! single-quoted scalars, blank lines and `#` comments.  Reading back
//! what the writer wrote returns exactly the written entries.

use vstd::prelude::*;
use crate::matches::{EspansoYaml, YamlPairs, pair_is_nonempty, filter_nonempty_pairs};
use crate::quoted::{quoted, push_quoted};
use crate::scan::{
    skip_inline, skip_noise, seq_matches_at, parse_value, expect_eol, skip_inline_exec,
    skip_noise_exec, matches_at, parse_value_exec, expect_eol_exec, lemma_seg_at,
    lemma_skip_noise_stops,
};
use crate::quoted::lemma_parse_quoted;
use crate::text::{push_str_chars, chars_to_string, str_to_chars};

verus! {

/// The two lines one entry occupies in the file.
pub open spec fn entry_text(p: (Seq<char>, Seq<char>)) -> Seq<char> {
    "- trigger: "@ + quoted(p.0) + "\n"@ + "  replace: "@ + quoted(p.1) + "\n"@
}

/// The block of lines for a whole entry sequence.
pub open spec fn entries_text(es: Seq<(Seq<char>, Seq<char>)>) -> Seq<char>
    decreases es.len(),
{
    if es.len() == 0 {
        Seq::empty()
    } else {
        entry_text(es[0]) + entries_text(es.drop_first())
    }
}

/// The full text of a match file for the given entries.
pub open spec fn match_text_of(es: Seq<(Seq<char>, Seq<char>)>) -> Seq<char> {
    if es.len() == 0 {
        "matches: []\n"@
    } else {
        "matches:\n"@ + entries_text(es)
    }
}

proof fn lemma_entries_snoc(es: Seq<(Seq<char>, Seq<char>)>, e: (Seq<char>, Seq<char>))
    ensures
        entries_text(es.push(e)) == entries_text(es) + entry_text(e),
    decreases es.len(),
{
    reveal_with_fuel(entries_text, 2);
    if es.len() == 0 {
        assert(es.push(e)[0] == e);
        assert(es.push(e).drop_first() =~= es);
        assert(entries_text(es.push(e)) =~= entries_text(es) + entry_text(e));
    } else {
        assert(es.push(e).drop_first() =~= es.drop_first().push(e));
        lemma_entries_snoc(es.drop_first(), e);
        assert(es.push(e)[0] == es[0]);
        assert(entries_text(es.push(e)) =~= entries_text(es) + entry_text(e));
    }
}

/// Writes the document for `doc`, exactly as `match_text_of` states.
pub fn emit_match_text(doc: &EspansoYaml) -> (r: String)
    ensures
        r@ == match_text_of(doc@),
{
    let n = doc.matches.len();
    if n == 0 {
        return String::from_str("matches: []\n");
    }
    let mut out: Vec<char> = Vec::new();
    push_str_chars(&mut out, "matches:\n");
    let mut i: usize = 0;
    while i < n
        invariant
            i <= n,
            n == doc.matches@.len(),
            n == doc@.len(),
            out@ == "matches:\n"@ + entries_text(doc@.subrange(0, i as int)),
        decreases n - i,
    {
        let ghost prefix = doc@.subrange(0, i as int);
        let p = &doc.matches[i];
        assert(p@ == doc@[i as int]);
        push_str_chars(&mut out, "- trigger: ");
        push_quoted(&mut out, p.trigger.as_str());
        push_str_chars(&mut out, "\n");
        push_str_chars(&mut out, "  replace: ");
        push_quoted(&mut out, p.replace.as_str());
        push_str_chars(&mut out, "\n");
        proof {
            lemma_entries_snoc(prefix, doc@[i as int]);
            assert(doc@.subrange(0, i + 1 as int) =~= prefix.push(doc@[i as int]));
            assert(out@ =~= "matches:\n"@ + entries_text(doc@.subrange(0, i + 1 as int)));
        }
        i += 1;
    }
    proof {
        assert(doc@.subrange(0, n as int) =~= doc@);
    }
    chars_to_string(&out)
}

/// One entry after another, each a `- trigger:` line followed by a
/// `replace:` line, with noise allowed between entries; `i` must
/// already stand on the first real character.
pub open spec fn parse_entries(t: Seq<char>, i: int) -> Option<Seq<(Seq<char>, Seq<char>)>>
    decreases t.len() - i,
{
    if i < 0 || i > t.len() {
        None
    } else if i == t.len() {
        Some(Seq::empty())
    } else if t[i] != '-' {
        None
    } else {
        let a = skip_inline(t, i + 1);
        if !seq_matches_at(t, a, "trigger:"@) {
            None
        } else {
            let b = skip_inline(t, a + "trigger:"@.len());
            match parse_value(t, b) {
                None => None,
                Some((tr, c)) => match expect_eol(t, c) {
                    None => None,
                    Some(d) => {
                        let e = skip_noise(t, d, false);
                        if !seq_matches_at(t, e, "replace:"@) {
                            None
                        } else {
                            let f = skip_inline(t, e + "replace:"@.len());
                            match parse_value(t, f) {
                                None => None,
                                Some((rp, g)) => match expect_eol(t, g) {
                                    None => None,
                                    Some(h) => {
                                        let nxt = skip_noise(t, h, false);
                                        if nxt <= i || nxt > t.len() {
                                            None
                                        } else {
                                            match parse_entries(t, nxt) {
                                                Some(vs) => Some(seq![(tr, rp)] + vs),
                                                None => None,
                                            }
                                        }
                                    },
                                },
                            }
                        }
                    },
                },
            }
        }
    }
}

/// The whole document: a `matches:` key followed by either an empty
/// flow sequence `[]` or the block of entries.  A document whose
/// `matches:` key has nothing under it holds no entries.
pub open spec fn parse_match_doc(t: Seq<char>) -> Option<Seq<(Seq<char>, Seq<char>)>> {
    let i0 = skip_noise(t, 0, false);
    if !seq_matches_at(t, i0, "matches:"@) {
        None
    } else {
        let j = skip_inline(t, i0 + "matches:"@.len());
        if j < t.len() && t[j] == '[' {
            let j2 = skip_inline(t, j + 1);
            if j2 < t.len() && t[j2] == ']' && skip_noise(t, j2 + 1, false) == t.len() {
                Some(Seq::empty())
            } else {
                None
            }
        } else if j >= t.len() {
            Some(Seq::empty())
        } else if t[j] == '\n' || t[j] == '#' {
            parse_entries(t, skip_noise(t, j, false))
        } else {
            None
        }
    }
}

/// Walking the trigger line of one entry: the dash, the key, and the
/// quoted value parse as written, and the text goes on with `rest`.
#[verifier::spinoff_prover]
proof fn lemma_trigger_line(t: Seq<char>, i: int, tr: Seq<char>, rest: Seq<char>)
    requires
        0 <= i <= t.len(),
        t == t.take(i) + ("- trigger: "@ + quoted(tr) + "\n"@) + rest,
    ensures
        ({
            let c = i + 11 + quoted(tr).len() as int;
            &&& i < t.len()
            &&& t[i] == '-'
            &&& skip_inline(t, i + 1) == i + 2
            &&& seq_matches_at(t, i + 2, "trigger:"@)
            &&& skip_inline(t, i + 10) == i + 11
            &&& parse_value(t, i + 11) == Some((tr, c))
            &&& expect_eol(t, c) == Some(c + 1)
            &&& 0 <= c + 1 <= t.len()
            &&& t == t.take(c + 1) + rest
        }),
{
    reveal_strlit("- trigger: ");
    reveal_strlit("trigger:");
    reveal_strlit("\n");
    let k1 = "- trigger: "@;
    let q1 = quoted(tr);
    let nl = "\n"@;
    let rest1 = q1 + (nl + rest);
    assert(t =~= t.take(i) + k1 + rest1);
    lemma_seg_at(t, i, k1, rest1);
    assert(t[i] == '-');
    assert(skip_inline(t, i + 2) == i + 2);
    assert(skip_inline(t, i + 1) == i + 2);
    assert(seq_matches_at(t, i + 2, "trigger:"@)) by {
        assert(forall|m: int| 0 <= m < 8 ==> t[i + 2 + m] == #[trigger] (k1[2 + m]));
        assert(t.subrange(i + 2, i + 10) =~= "trigger:"@);
    }
    let b = i + 11;
    assert(t =~= t.take(b) + q1 + (nl + rest));
    lemma_seg_at(t, b, q1, nl + rest);
    assert(q1[0] == '"');
    assert(t[b] == '"');
    assert(skip_inline(t, b) == b);
    assert(skip_inline(t, i + 10) == b);
    lemma_parse_quoted(t, b, tr, nl + rest);
    let c = b + q1.len() as int;
    assert(parse_value(t, c - q1.len() as int) == Some((tr, c)));
    assert(t =~= t.take(c) + nl + rest);
    lemma_seg_at(t, c, nl, rest);
    assert(t[c] == '\n');
    assert(skip_inline(t, c) == c);
    assert(expect_eol(t, c) == Some(c + 1));
}

/// Walking the replace line of one entry, from the start of its
/// indentation.
#[verifier::spinoff_prover]
proof fn lemma_replace_line(t: Seq<char>, d: int, rp: Seq<char>, rest: Seq<char>)
    requires
        0 <= d <= t.len(),
        t == t.take(d) + ("  replace: "@ + quoted(rp) + "\n"@) + rest,
    ensures
        ({
            let g = d + 11 + quoted(rp).len() as int;
            &&& skip_noise(t, d, false) == d + 2
            &&& seq_matches_at(t, d + 2, "replace:"@)
            &&& skip_inline(t, d + 10) == d + 11
            &&& parse_value(t, d + 11) == Some((rp, g))
            &&& expect_eol(t, g) == Some(g + 1)
            &&& 0 <= g + 1 <= t.len()
            &&& t == t.take(g + 1) + rest
        }),
{
    reveal_strlit("  replace: ");
    reveal_strlit("replace:");
    reveal_strlit("\n");
    let k2 = "  replace: "@;
    let q2 = quoted(rp);
    let nl = "\n"@;
    let rest1 = q2 + (nl + rest);
    assert(t =~= t.take(d) + k2 + rest1);
    lemma_seg_at(t, d, k2, rest1);
    assert(t[d] == ' ' && t[d + 1] == ' ' && t[d + 2] == 'r');
    lemma_skip_noise_stops(t, d + 2);
    assert(skip_noise(t, d + 1, false) == d + 2);
    assert(skip_noise(t, d, false) == d + 2);
    assert(seq_matches_at(t, d + 2, "replace:"@)) by {
        assert(forall|m: int| 0 <= m < 8 ==> t[d + 2 + m] == #[trigger] (k2[2 + m]));
        assert(t.subrange(d + 2, d + 10) =~= "replace:"@);
    }
    let f = d + 11;
    assert(t =~= t.take(f) + q2 + (nl + rest));
    lemma_seg_at(t, f, q2, nl + rest);
    assert(q2[0] == '"');
    assert(t[f] == '"');
    assert(skip_inline(t, f) == f);
    assert(skip_inline(t, d + 10) == f);
    lemma_parse_quoted(t, f, rp, nl + rest);
    let g = f + q2.len() as int;
    assert(parse_value(t, g - q2.len() as int) == Some((rp, g)));
    assert(t =~= t.take(g) + nl + rest);
    lemma_seg_at(t, g, nl, rest);
    assert(t[g] == '\n');
    assert(skip_inline(t, g) == g);
    assert(expect_eol(t, g) == Some(g + 1));
}

/// Consuming one whole entry: the parser leaves position `i` with the
/// entry's pair prepended to whatever the rest of the block yields.
#[verifier::rlimit(60)]
#[verifier::spinoff_prover]
proof fn lemma_entry_step(t: Seq<char>, i: int, e: (Seq<char>, Seq<char>), tail: Seq<char>)
    requires
        0 <= i <= t.len(),
        t == t.take(i) + entry_text(e) + tail,
    ensures
        ({
            let h = i + entry_text(e).len() as int;
            let nxt = skip_noise(t, h, false);
            &&& i < h <= t.len()
            &&& t == t.take(h) + tail
            &&& parse_entries(t, i) == (match parse_entries(t, nxt) {
                Some(vs) => Some(seq![e] + vs),
                None => None,
            })
        }),
{
    let tr = e.0;
    let rp = e.1;
    let line1 = "- trigger: "@ + quoted(tr) + "\n"@;
    let line2 = "  replace: "@ + quoted(rp) + "\n"@;
    assert(t =~= t.take(i) + line1 + (line2 + tail)) by {
        assert(t.take(i) + entry_text(e) + tail =~= t.take(i) + line1 + (line2 + tail));
    }
    lemma_trigger_line(t, i, tr, line2 + tail);
    let c = i + 11 + quoted(tr).len() as int;
    let d = c + 1;
    assert(t =~= t.take(d) + line2 + tail);
    lemma_replace_line(t, d, rp, tail);
    let g = d + 11 + quoted(rp).len() as int;
    let h = g + 1;
    assert(t == t.take(h) + tail);
    assert(h == i + entry_text(e).len());
    crate::scan::lemma_skip_noise_bounds(t, h, false);
    let nxt = skip_noise(t, h, false);
    assert(parse_entries(t, i) == (match parse_entries(t, nxt) {
        Some(vs) => Some(seq![e] + vs),
        None => None,
    })) by {
        reveal_strlit("trigger:");
        reveal_strlit("replace:");
        assert("trigger:"@.len() == 8 && "replace:"@.len() == 8);
        assert(skip_inline(t, i + 1) == i + 2);
        assert(seq_matches_at(t, i + 2, "trigger:"@));
        assert(skip_inline(t, i + 10) == i + 11);
        assert(parse_value(t, i + 11) == Some((tr, c)));
        assert(expect_eol(t, c) == Some(d));
        assert(skip_noise(t, d, false) == d + 2);
        assert(seq_matches_at(t, d + 2, "replace:"@));
        assert(skip_inline(t, d + 10) == d + 11);
        assert(parse_value(t, d + 11) == Some((rp, g)));
        assert(expect_eol(t, g) == Some(h));
        assert(t[i] == '-');
        assert(nxt > i && nxt <= t.len());
    }
}

/// Reading the entry block back: at a position where the input ends
/// with exactly `entries_text(es)`, the entry parser returns `es`.
#[verifier::spinoff_prover]
pub proof fn lemma_entries_round_trip(t: Seq<char>, i: int, es: Seq<(Seq<char>, Seq<char>)>)
    requires
        0 <= i <= t.len(),
        t == t.take(i) + entries_text(es),
    ensures
        parse_entries(t, i) == Some(es),
    decreases es.len(),
{
    if es.len() == 0 {
        assert(t =~= t.take(i));
        assert(i == t.len());
    } else {
        let e = es[0];
        let es1 = es.drop_first();
        let tail = entries_text(es1);
        assert(entries_text(es) == entry_text(e) + tail);
        assert(t =~= t.take(i) + entry_text(e) + tail);
        lemma_entry_step(t, i, e, tail);
        let h = i + entry_text(e).len() as int;
        if es1.len() == 0 {
            assert(tail.len() == 0);
            assert(t =~= t.take(h));
            assert(h == t.len());
            assert(skip_noise(t, h, false) == h);
            assert(parse_entries(t, h) == Some(Seq::<(Seq<char>, Seq<char>)>::empty()));
        } else {
            assert(t =~= t.take(h) + tail + Seq::<char>::empty());
            lemma_seg_at(t, h, tail, Seq::empty());
            assert(tail[0] == '-') by {
                reveal_strlit("- trigger: ");
                assert(entries_text(es1) == entry_text(es1[0]) + entries_text(es1.drop_first()));
                assert(entry_text(es1[0])[0] == "- trigger: "@[0]);
            }
            assert(t[h] == '-');
            lemma_skip_noise_stops(t, h);
            assert(skip_noise(t, h, false) == h);
            lemma_entries_round_trip(t, h, es1);
        }
        assert(parse_entries(t, skip_noise(t, h, false)) == Some(es1));
        assert(parse_entries(t, i) == Some(seq![e] + es1));
        assert(seq![e] + es1 =~= es);
    }
}

/// Round trip at the document level: parsing what `match_text_of`
/// writes gives back exactly the written entries.
pub proof fn lemma_match_round_trip(es: Seq<(Seq<char>, Seq<char>)>)
    ensures
        parse_match_doc(match_text_of(es)) == Some(es),
{
    reveal_strlit("matches: []\n");
    reveal_strlit("matches:\n");
    reveal_strlit("matches:");
    let t = match_text_of(es);
    if es.len() == 0 {
        assert(t == "matches: []\n"@);
        assert(t.len() == 12);
        assert(t[0] == 'm');
        lemma_skip_noise_stops(t, 0);
        assert(skip_noise(t, 0, false) == 0);
        assert(seq_matches_at(t, 0, "matches:"@)) by {
            assert(t.subrange(0, 8) =~= "matches:"@);
        }
        assert(t[8] == ' ' && t[9] == '[' && t[10] == ']' && t[11] == '\n');
        assert(skip_inline(t, 9) == 9);
        assert(skip_inline(t, 8) == 9);
        assert(skip_inline(t, 10) == 10);
        assert(skip_noise(t, 12, false) == 12);
        assert(skip_noise(t, 11, false) == 12);
        assert(parse_match_doc(t) == Some(Seq::<(Seq<char>, Seq<char>)>::empty()));
        assert(Seq::<(Seq<char>, Seq<char>)>::empty() =~= es);
    } else {
        let hdr = "matches:\n"@;
        let body = entries_text(es);
        assert(t =~= t.take(0) + hdr + body) by {
            assert(t.take(0) =~= Seq::<char>::empty());
        }
        lemma_seg_at(t, 0, hdr, body);
        assert(t[0] == 'm');
        lemma_skip_noise_stops(t, 0);
        assert(skip_noise(t, 0, false) == 0);
        assert(seq_matches_at(t, 0, "matches:"@)) by {
            assert(forall|m: int| 0 <= m < 8 ==> t[m] == #[trigger] (hdr[m]));
            assert(t.subrange(0, 8) =~= "matches:"@);
        }
        assert(t[8] == '\n');
        assert(skip_inline(t, 8) == 8);
        assert(8 < t.len());
        assert(t == t.take(9) + body);
        assert(body[0] == '-') by {
            reveal_strlit("- trigger: ");
            assert(entries_text(es) == entry_text(es[0]) + entries_text(es.drop_first()));
            assert(entry_text(es[0])[0] == "- trigger: "@[0]);
        }
        assert(t =~= t.take(9) + body + Seq::<char>::empty());
        lemma_seg_at(t, 9, body, Seq::empty());
        assert(t[9] == body[0]);
        lemma_skip_noise_stops(t, 9);
        assert(skip_noise(t, 9, false) == 9);
        assert(skip_noise(t, 8, false) == 9);
        lemma_entries_round_trip(t, 9, es);
        assert(parse_match_doc(t) == Some(es));
    }
}

/// Parses the block of entries from `start`, which must already be
/// past any leading noise.
fn parse_entries_exec(v: &Vec<char>, start: usize) -> (r: Option<Vec<YamlPairs>>)
    requires
        start <= v@.len(),
    ensures
        match r {
            Some(ps) => parse_entries(v@, start as int) == Some(
                ps@.map_values(|p: YamlPairs| p@),
            ),
            None => parse_entries(v@, start as int) is None,
        },
{
    let ghost t = v@;
    let n = v.len();
    let mut acc: Vec<YamlPairs> = Vec::new();
    let mut cur = start;
    loop
        invariant
            start <= cur <= n,
            n == t.len(),
            v@ == t,
            match parse_entries(t, cur as int) {
                Some(vs) => parse_entries(t, start as int) == Some(
                    acc@.map_values(|p: YamlPairs| p@) + vs,
                ),
                None => parse_entries(t, start as int) is None,
            },
        decreases n - cur,
    {
        if cur >= n {
            proof {
                assert(parse_entries(t, cur as int) == Some(
                    Seq::<(Seq<char>, Seq<char>)>::empty(),
                ));
                assert(acc@.map_values(|p: YamlPairs| p@) + Seq::<(Seq<char>, Seq<char>)>::empty()
                    =~= acc@.map_values(|p: YamlPairs| p@));
            }
            return Some(acc);
        }
        if v[cur] != '-' {
            return None;
        }
        let a = skip_inline_exec(v, cur + 1);
        if !matches_at(v, a, "trigger:") {
            return None;
        }
        proof {
            reveal_strlit("trigger:");
            assert(a + 8 <= n);
        }
        let b = skip_inline_exec(v, a + 8);
        let (tr, c) = match parse_value_exec(v, b) {
            Some(p) => p,
            None => {
                return None;
            },
        };
        let d = match expect_eol_exec(v, c) {
            Some(d) => d,
            None => {
                return None;
            },
        };
        let e2 = skip_noise_exec(v, d);
        if !matches_at(v, e2, "replace:") {
            return None;
        }
        proof {
            reveal_strlit("replace:");
            assert(e2 + 8 <= n);
        }
        let f = skip_inline_exec(v, e2 + 8);
        let (rp, g) = match parse_value_exec(v, f) {
            Some(p) => p,
            None => {
                return None;
            },
        };
        let h = match expect_eol_exec(v, g) {
            Some(h) => h,
            None => {
                return None;
            },
        };
        let nxt = skip_noise_exec(v, h);
        if nxt <= cur {
            return None;
        }
        let ghost acc0 = acc@.map_values(|p: YamlPairs| p@);
        let pair = YamlPairs::new(chars_to_string(&tr), chars_to_string(&rp));
        acc.push(pair);
        proof {
            assert(parse_entries(t, cur as int) == (match parse_entries(t, nxt as int) {
                Some(vs) => Some(seq![(tr@, rp@)] + vs),
                None => None,
            }));
            assert(acc@.map_values(|p: YamlPairs| p@) =~= acc0.push((tr@, rp@)));
            if let Some(vs) = parse_entries(t, nxt as int) {
                assert(acc0 + (seq![(tr@, rp@)] + vs) =~= acc@.map_values(|p: YamlPairs| p@) + vs);
            }
        }
        cur = nxt;
    }
}

/// Parses a whole match document; `None` exactly when the text does
/// not fit the `matches:` shape the codec understands.
pub fn parse_match_text(s: &str) -> (r: Option<EspansoYaml>)
    ensures
        match r {
            Some(doc) => parse_match_doc(s@) == Some(doc@),
            None => parse_match_doc(s@) is None,
        },
{
    let v = str_to_chars(s);
    let n = v.len();
    let i0 = skip_noise_exec(&v, 0);
    if !matches_at(&v, i0, "matches:") {
        return None;
    }
    proof {
        reveal_strlit("matches:");
        assert(i0 + 8 <= n);
    }
    let j = skip_inline_exec(&v, i0 + 8);
    if j < n && v[j] == '[' {
        let j2 = skip_inline_exec(&v, j + 1);
        if j2 < n && v[j2] == ']' && skip_noise_exec(&v, j2 + 1) == n {
            let doc = EspansoYaml::new();
            return Some(doc);
        }
        return None;
    }
    if j >= n {
        let doc = EspansoYaml::new();
        return Some(doc);
    }
    if v[j] == '\n' || v[j] == '#' {
        let start = skip_noise_exec(&v, j);
        match parse_entries_exec(&v, start) {
            Some(ps) => Some(EspansoYaml::from_pairs(ps)),
            None => None,
        }
    } else {
        None
    }
}

/// Loads a match document as the store does: parses it and silently
/// drops every entry with an empty trigger or replacement.
pub fn load_match_text(s: &str) -> (r: Option<EspansoYaml>)
    ensures
        match r {
            Some(doc) => parse_match_doc(s@) is Some && doc@ == parse_match_doc(s@)->0.filter(
                |q: (Seq<char>, Seq<char>)| pair_is_nonempty(q),
            ),
            None => parse_match_doc(s@) is None,
        },
{
    match parse_match_text(s) {
        Some(doc) => Some(EspansoYaml::from_pairs(filter_nonempty_pairs(doc.matches))),
        None => None,
    }
}

/// A sequence in which every pair is nonempty passes the load filter
/// unchanged.
pub proof fn lemma_filter_nonempty_identity(es: Seq<(Seq<char>, Seq<char>)>)
    requires
        forall|i: int| 0 <= i < es.len() ==> pair_is_nonempty(#[trigger] es[i]),
    ensures
        es.filter(|q: (Seq<char>, Seq<char>)| pair_is_nonempty(q)) == es,
    decreases es.len(),
{
    reveal(Seq::filter);
    if es.len() == 0 {
        assert(es.filter(|q: (Seq<char>, Seq<char>)| pair_is_nonempty(q)) =~= es);
    } else {
        lemma_filter_nonempty_identity(es.drop_last());
        assert(pair_is_nonempty(es.last()));
        assert(es.filter(|q: (Seq<char>, Seq<char>)| pair_is_nonempty(q)) =~= es.drop_last().push(
            es.last(),
        ));
        assert(es.drop_last().push(es.last()) =~= es);
    }
}

/// Saving entries with no empty fields and loading them back yields
/// structurally identical data, in the same order: the parse returns
/// exactly what was written, and the load filter leaves it unchanged.
pub proof fn lemma_save_then_load(es: Seq<(Seq<char>, Seq<char>)>)
    requires
        forall|i: int| 0 <= i < es.len() ==> pair_is_nonempty(#[trigger] es[i]),
    ensures
        parse_match_doc(match_text_of(es)) == Some(es),
        parse_match_doc(match_text_of(es))->0.filter(|q: (Seq<char>, Seq<char>)| pair_is_nonempty(q))
            == es,
{
    lemma_match_round_trip(es);
    lemma_filter_nonempty_identity(es);
}

/// Loading a document, changing nothing, and saving it again
/// reproduces the same semantic content: the rewritten file parses
/// and loads back to exactly the same entries, in the same order.
pub proof fn lemma_load_save_idempotent(t: Seq<char>)
    requires
        parse_match_doc(t) is Some,
    ensures
        ({
            let loaded = parse_match_doc(t)->0.filter(|q: (Seq<char>, Seq<char>)| pair_is_nonempty(q));
            &&& parse_match_doc(match_text_of(loaded)) == Some(loaded)
            &&& parse_match_doc(match_text_of(loaded))->0.filter(
                |q: (Seq<char>, Seq<char>)| pair_is_nonempty(q),
            ) == loaded
        }),
{
    let pred = |q: (Seq<char>, Seq<char>)| pair_is_nonempty(q);
    let es = parse_match_doc(t)->0;
    let loaded = es.filter(pred);
    assert(forall|i: int| 0 <= i < loaded.len() ==> pair_is_nonempty(#[trigger] loaded[i])) by {
        broadcast use vstd::seq_lib::group_filter_ensures;

        assert(forall|i: int| 0 <= i < loaded.len() ==> pred(#[trigger] loaded[i])) by {
            assert(forall|i: int|
                0 <= i < es.filter(pred).len() ==> pred(#[trigger] es.filter(pred)[i]));
        }
    }
    lemma_save_then_load(loaded);
}

} // verus!
