//! The word-separators working buffer: the bracketed, human-editable
//! form of the separator list that the configuration form shows.  The
//! default list, its display form, and the parse of an edited buffer
//! back into a list; display and parse round-trip every list,
//! carriage return, newline and the 0x16 control code included.

use vstd::prelude::*;
use crate::config_codec::{list_items_text, list_rest_text, parse_list_rest, lemma_list_rest_snoc};
use crate::quoted::{quoted, push_quoted, lemma_parse_quoted};
use crate::scan::{skip_inline, skip_inline_exec, lemma_seg_at};
use crate::text::{push_str_chars, chars_to_string, str_to_chars};

verus! {

/// The separator list the external utility uses when none is set.
pub open spec fn default_separators() -> Seq<Seq<char>> {
    seq![
        seq![' '],
        seq![','],
        seq!['.'],
        seq!['?'],
        seq!['!'],
        seq!['\r'],
        seq!['\n'],
        seq!['\u{16}'],
    ]
}

/// The default word separators, shown when the field is unset.
pub fn get_default_word_separators() -> (r: Vec<String>)
    ensures
        r@.map_values(|s: String| s@) == default_separators(),
{
    let mut out: Vec<String> = Vec::new();
    out.push(String::from_str(" "));
    out.push(String::from_str(","));
    out.push(String::from_str("."));
    out.push(String::from_str("?"));
    out.push(String::from_str("!"));
    out.push(String::from_str("\r"));
    out.push(String::from_str("\n"));
    out.push(String::from_str("\u{16}"));
    proof {
        reveal_strlit(" ");
        reveal_strlit(",");
        reveal_strlit(".");
        reveal_strlit("?");
        reveal_strlit("!");
        reveal_strlit("\r");
        reveal_strlit("\n");
        reveal_strlit("\u{16}");
        assert(" "@ =~= seq![' '] && ","@ =~= seq![','] && "."@ =~= seq!['.'] && "?"@ =~= seq![
            '?',
        ] && "!"@ =~= seq!['!'] && "\r"@ =~= seq!['\r'] && "\n"@ =~= seq!['\n'] && "\u{16}"@
            =~= seq!['\u{16}']);
        assert(out@.map_values(|s: String| s@) =~= default_separators());
    }
    out
}

/// The buffer text for a separator list: a bracketed list of quoted
/// strings.
pub open spec fn sep_display_of(vs: Seq<Seq<char>>) -> Seq<char> {
    "["@ + list_items_text(vs) + "]"@
}

/// Renders a separator list into the working buffer's form.
pub fn sep_display(list: &Vec<String>) -> (r: String)
    ensures
        r@ == sep_display_of(list@.map_values(|s: String| s@)),
{
    let ghost vsv = list@.map_values(|s: String| s@);
    let mut out: Vec<char> = Vec::new();
    push_str_chars(&mut out, "[");
    let n = list.len();
    let mut i: usize = 0;
    while i < n
        invariant
            i <= n,
            n == list@.len(),
            vsv == list@.map_values(|s: String| s@),
            i == 0 ==> out@ == "["@,
            i > 0 ==> out@ == "["@ + quoted(vsv[0]) + list_rest_text(vsv.subrange(1, i as int)),
        decreases n - i,
    {
        if i > 0 {
            push_str_chars(&mut out, ", ");
        }
        push_quoted(&mut out, list[i].as_str());
        proof {
            assert(list[i as int]@ == vsv[i as int]);
            if i > 0 {
                lemma_list_rest_snoc(vsv.subrange(1, i as int), vsv[i as int]);
                assert(vsv.subrange(1, i + 1 as int) =~= vsv.subrange(1, i as int).push(
                    vsv[i as int],
                ));
                assert(out@ =~= "["@ + quoted(vsv[0]) + list_rest_text(
                    vsv.subrange(1, i + 1 as int),
                ));
            } else {
                assert(vsv.subrange(1, 1) =~= Seq::<Seq<char>>::empty());
                assert(out@ =~= "["@ + quoted(vsv[0]) + list_rest_text(vsv.subrange(1, 1)));
            }
        }
        i += 1;
    }
    push_str_chars(&mut out, "]");
    proof {
        if n > 0 {
            assert(vsv.subrange(1, n as int) =~= vsv.drop_first());
        }
        assert(out@ =~= sep_display_of(vsv));
    }
    chars_to_string(&out)
}

/// A whole separator buffer: a flow list and nothing else but
/// surrounding spaces.
pub open spec fn parse_sep_doc(t: Seq<char>) -> Option<Seq<Seq<char>>> {
    let i = skip_inline(t, 0);
    if i >= t.len() || t[i] != '[' {
        None
    } else {
        match parse_list_rest(t, i + 1) {
            None => None,
            Some((vs, p)) => {
                if skip_inline(t, p) == t.len() {
                    Some(vs)
                } else {
                    None
                }
            },
        }
    }
}

/// Parses an edited separator buffer, exactly as `parse_sep_doc`
/// states.
pub fn parse_sep_display(s: &str) -> (r: Option<Vec<String>>)
    ensures
        match r {
            Some(list) => parse_sep_doc(s@) == Some(list@.map_values(|x: String| x@)),
            None => parse_sep_doc(s@) is None,
        },
{
    let v = str_to_chars(s);
    let n = v.len();
    let i = skip_inline_exec(&v, 0);
    if i >= n || v[i] != '[' {
        return None;
    }
    let (list, p) = match crate::config_codec::parse_list_rest_pub(&v, i + 1) {
        Some(q) => q,
        None => {
            return None;
        },
    };
    if skip_inline_exec(&v, p) == n {
        Some(list)
    } else {
        None
    }
}

/// Reading the list items back: at a position where the input goes on
/// with the items, the closing bracket, and anything after it, the
/// list parser returns exactly the items.
#[verifier::rlimit(100)]
#[verifier::spinoff_prover]
pub proof fn lemma_list_round_trip(t: Seq<char>, i: int, vs: Seq<Seq<char>>, rest: Seq<char>)
    requires
        0 <= i <= t.len(),
        skip_inline(t, i) == i,
        t == t.take(i) + list_items_text(vs) + "]"@ + rest,
    ensures
        parse_list_rest(t, i) == Some((vs, i + list_items_text(vs).len() + 1)),
    decreases vs.len(),
{
    reveal_strlit("]");
    reveal_strlit(", ");
    if vs.len() == 0 {
        assert(t =~= t.take(i) + "]"@ + rest) by {
            assert(list_items_text(vs) =~= Seq::<char>::empty());
        }
        lemma_seg_at(t, i, "]"@, rest);
        assert(t[i] == ']');
        assert(parse_list_rest(t, i) == Some((Seq::<Seq<char>>::empty(), i + 1)));
        assert(Seq::<Seq<char>>::empty() =~= vs);
    } else {
        let x = vs[0];
        let vs1 = vs.drop_first();
        let q = quoted(x);
        let rt = list_rest_text(vs1);
        assert(list_items_text(vs) == q + rt);
        assert(t =~= t.take(i) + q + (rt + "]"@ + rest)) by {
            assert(t.take(i) + (q + rt) + "]"@ + rest =~= t.take(i) + q + (rt + "]"@ + rest));
        }
        lemma_seg_at(t, i, q, rt + "]"@ + rest);
        assert(q[0] == '"');
        assert(t[i] == '"');
        lemma_parse_quoted(t, i, x, rt + "]"@ + rest);
        let k = i + q.len() as int;
        assert(crate::config_codec::parse_flow_item(t, i) == Some((x, k)));
        if vs1.len() == 0 {
            assert(rt =~= Seq::<char>::empty());
            assert(t =~= t.take(k) + "]"@ + rest);
            lemma_seg_at(t, k, "]"@, rest);
            assert(t[k] == ']');
            assert(skip_inline(t, k) == k);
            assert(parse_list_rest(t, i) == Some((seq![x], k + 1)));
            assert(seq![x] =~= vs);
        } else {
            assert(rt == ", "@ + quoted(vs1[0]) + list_rest_text(vs1.drop_first()));
            assert(rt == ", "@ + list_items_text(vs1)) by {
                assert(list_items_text(vs1) == quoted(vs1[0]) + list_rest_text(vs1.drop_first()));
                assert(", "@ + quoted(vs1[0]) + list_rest_text(vs1.drop_first()) =~= ", "@ + (
                quoted(vs1[0]) + list_rest_text(vs1.drop_first())));
            }
            assert(t =~= t.take(k) + ", "@ + (list_items_text(vs1) + "]"@ + rest)) by {
                assert(t.take(k) + (", "@ + list_items_text(vs1)) + "]"@ + rest =~= t.take(k)
                    + ", "@ + (list_items_text(vs1) + "]"@ + rest));
            }
            lemma_seg_at(t, k, ", "@, list_items_text(vs1) + "]"@ + rest);
            assert(t[k] == ',' && t[k + 1] == ' ');
            assert(t =~= t.take(k + 2) + list_items_text(vs1) + "]"@ + rest);
            // The next item begins right after the separator's space.
            assert(list_items_text(vs1)[0] == '"') by {
                assert(list_items_text(vs1) == quoted(vs1[0]) + list_rest_text(vs1.drop_first()));
                assert(quoted(vs1[0])[0] == '"');
            }
            assert(t =~= t.take(k + 2) + list_items_text(vs1) + ("]"@ + rest));
            lemma_seg_at(t, k + 2, list_items_text(vs1), "]"@ + rest);
            assert(t[k + 2] == '"');
            assert(skip_inline(t, k + 2) == k + 2);
            assert(skip_inline(t, k + 1) == k + 2);
            assert(skip_inline(t, k) == k);
            lemma_list_round_trip(t, k + 2, vs1, rest);
            assert(parse_list_rest(t, k + 1) == Some(
                (vs1, k + 2 + list_items_text(vs1).len() + 1),
            ));
            assert(parse_list_rest(t, i) == Some((seq![x] + vs1, k + 2 + list_items_text(
                vs1,
            ).len() + 1)));
            assert(seq![x] + vs1 =~= vs);
        }
    }
}

/// Rendering a separator list and parsing the buffer back returns the
/// same list, for every list: the three control separators among the
/// defaults included.
pub proof fn lemma_sep_round_trip(vs: Seq<Seq<char>>)
    ensures
        parse_sep_doc(sep_display_of(vs)) == Some(vs),
{
    reveal_strlit("[");
    reveal_strlit("]");
    let t = sep_display_of(vs);
    assert(t =~= t.take(0) + "["@ + (list_items_text(vs) + "]"@)) by {
        assert(t.take(0) =~= Seq::<char>::empty());
        assert("["@ + list_items_text(vs) + "]"@ =~= "["@ + (list_items_text(vs) + "]"@));
    }
    lemma_seg_at(t, 0, "["@, list_items_text(vs) + "]"@);
    assert(t[0] == '[');
    assert(skip_inline(t, 0) == 0);
    assert(t =~= t.take(1) + list_items_text(vs) + "]"@ + Seq::<char>::empty());
    assert(skip_inline(t, 1) == 1) by {
        if 1 < t.len() {
            assert(t =~= t.take(1) + list_items_text(vs) + ("]"@ + Seq::<char>::empty()));
            lemma_seg_at(t, 1, list_items_text(vs), "]"@ + Seq::<char>::empty());
            if list_items_text(vs).len() > 0 {
                assert(t[1] == list_items_text(vs)[0]);
                assert(list_items_text(vs)[0] == '"') by {
                    assert(vs.len() > 0);
                    assert(list_items_text(vs) == quoted(vs[0]) + list_rest_text(vs.drop_first()));
                    assert(quoted(vs[0])[0] == '"');
                }
            } else {
                assert(t[1] == ']');
            }
        }
    }
    lemma_list_round_trip(t, 1, vs, Seq::empty());
    let p = 1 + list_items_text(vs).len() + 1;
    assert(p == t.len());
    assert(skip_inline(t, p as int) == p);
    assert(parse_sep_doc(t) == Some(vs));
}

} // verus!
