//! Positional scanning primitives shared by the YAML and JSON
//! parsers: skipping spaces, newlines and comment lines, recognising
//! literals, line ends, and plain (unquoted) scalar values.

use vstd::prelude::*;
use crate::quoted::parse_qbody;

verus! {

/// Space inside a line: blank, tab, or a carriage return (so CRLF
/// line ends are handled transparently).
pub open spec fn is_inline_space(c: char) -> bool {
    c == ' ' || c == '\t' || c == '\r'
}

pub fn char_is_inline_space(c: char) -> (r: bool)
    ensures
        r == is_inline_space(c),
{
    c == ' ' || c == '\t' || c == '\r'
}

/// The position of the first character at or after `i` that is not
/// inline space.
pub open spec fn skip_inline(t: Seq<char>, i: int) -> int
    decreases t.len() - i,
{
    if i < 0 || i >= t.len() {
        i
    } else if is_inline_space(t[i]) {
        skip_inline(t, i + 1)
    } else {
        i
    }
}

pub proof fn lemma_skip_inline_bounds(t: Seq<char>, i: int)
    requires
        0 <= i <= t.len(),
    ensures
        i <= skip_inline(t, i) <= t.len(),
    decreases t.len() - i,
{
    if i < t.len() && is_inline_space(t[i]) {
        lemma_skip_inline_bounds(t, i + 1);
    }
}

/// The position of the first character at or after `i` that is not
/// noise, where noise is inline space, newlines, and whole `#`
/// comment lines.  `in_comment` says whether position `i` itself is
/// already inside a comment.
pub open spec fn skip_noise(t: Seq<char>, i: int, in_comment: bool) -> int
    decreases t.len() - i,
{
    if i < 0 || i >= t.len() {
        i
    } else if in_comment {
        if t[i] == '\n' {
            skip_noise(t, i + 1, false)
        } else {
            skip_noise(t, i + 1, true)
        }
    } else if t[i] == '#' {
        skip_noise(t, i + 1, true)
    } else if is_inline_space(t[i]) || t[i] == '\n' {
        skip_noise(t, i + 1, false)
    } else {
        i
    }
}

pub proof fn lemma_skip_noise_bounds(t: Seq<char>, i: int, in_comment: bool)
    requires
        0 <= i <= t.len(),
    ensures
        i <= skip_noise(t, i, in_comment) <= t.len(),
    decreases t.len() - i,
{
    if i < t.len() {
        if in_comment {
            lemma_skip_noise_bounds(t, i + 1, t[i] != '\n');
        } else if t[i] == '#' {
            lemma_skip_noise_bounds(t, i + 1, true);
        } else if is_inline_space(t[i]) || t[i] == '\n' {
            lemma_skip_noise_bounds(t, i + 1, false);
        }
    }
}

/// Skipping noise stops right away on a character that is none of it.
pub proof fn lemma_skip_noise_stops(t: Seq<char>, i: int)
    requires
        0 <= i <= t.len(),
        i < t.len() ==> !is_inline_space(t[i]) && t[i] != '\n' && t[i] != '#',
    ensures
        skip_noise(t, i, false) == i,
{
}

/// The position of the newline that ends the line holding `i`, or the
/// end of the input.
pub open spec fn line_end(t: Seq<char>, i: int) -> int
    decreases t.len() - i,
{
    if i < 0 || i >= t.len() {
        t.len() as int
    } else if t[i] == '\n' {
        i
    } else {
        line_end(t, i + 1)
    }
}

pub proof fn lemma_line_end_bounds(t: Seq<char>, i: int)
    requires
        0 <= i <= t.len(),
    ensures
        i <= line_end(t, i) <= t.len(),
        line_end(t, i) < t.len() ==> t[line_end(t, i)] == '\n',
        forall|m: int| i <= m < line_end(t, i) ==> t[m] != '\n',
    decreases t.len() - i,
{
    if i < t.len() && t[i] != '\n' {
        lemma_line_end_bounds(t, i + 1);
    }
}

/// The line scan finds the first newline when nothing before it is
/// one.
pub proof fn lemma_line_end_at(t: Seq<char>, i: int, j: int)
    requires
        0 <= i <= j < t.len(),
        forall|m: int| i <= m < j ==> t[m] != '\n',
        t[j] == '\n',
    ensures
        line_end(t, i) == j,
    decreases j - i,
{
    if i < j {
        lemma_line_end_at(t, i + 1, j);
    }
}

/// `pat` occurs in `t` at position `i`.
pub open spec fn seq_matches_at(t: Seq<char>, i: int, pat: Seq<char>) -> bool {
    0 <= i && i + pat.len() <= t.len() && t.subrange(i, i + pat.len() as int) == pat
}

/// Compares the characters of `v` from `i` on with the whole of `pat`.
pub fn matches_at(v: &Vec<char>, i: usize, pat: &str) -> (r: bool)
    ensures
        r == seq_matches_at(v@, i as int, pat@),
{
    let n = v.len();
    let m = pat.unicode_len();
    if i > n || n - i < m {
        assert(!seq_matches_at(v@, i as int, pat@));
        return false;
    }
    let mut k: usize = 0;
    while k < m
        invariant
            k <= m,
            i + m <= n,
            n == v@.len(),
            m == pat@.len(),
            forall|j: int| 0 <= j < k ==> v@[i + j] == pat@[j],
        decreases m - k,
    {
        if v[i + k] != pat.get_char(k) {
            assert(v@.subrange(i as int, i + m as int)[k as int] != pat@[k as int]);
            return false;
        }
        k += 1;
    }
    assert(v@.subrange(i as int, i + m as int) =~= pat@);
    true
}

/// Walking a known text: when the input at `i` continues with `seg`,
/// the segment's characters stand at `i`, and the decomposition moves
/// past it.
pub proof fn lemma_seg_at(t: Seq<char>, i: int, seg: Seq<char>, rest: Seq<char>)
    requires
        0 <= i <= t.len(),
        t == t.take(i) + seg + rest,
    ensures
        i + seg.len() <= t.len(),
        seq_matches_at(t, i, seg),
        t.take(i + seg.len() as int) == t.take(i) + seg,
        t == t.take(i + seg.len() as int) + rest,
        forall|m: int| 0 <= m < seg.len() ==> t[i + m] == #[trigger] seg[m],
{
    let pre = t.take(i);
    assert(pre.len() == i);
    assert(t.len() == i + seg.len() + rest.len());
    assert(forall|m: int|
        0 <= m < seg.len() ==> t[i + m] == #[trigger] (pre + seg + rest)[i + m]);
    assert(forall|m: int| 0 <= m < seg.len() ==> (pre + seg + rest)[i + m] == #[trigger] seg[m]);
    assert(t.take(i + seg.len() as int) =~= pre + seg) by {
        assert(forall|m: int|
            0 <= m < i + seg.len() ==> t[m] == #[trigger] (pre + seg + rest)[m]);
    }
    assert(t =~= t.take(i + seg.len() as int) + rest) by {
        assert(forall|m: int| 0 <= m < t.len() ==> t[m] == #[trigger] (pre + seg + rest)[m]);
        assert(forall|m: int|
            0 <= m < t.len() ==> ((pre + seg) + rest)[m] == (pre + seg + rest)[m]);
    }
    assert(t.subrange(i, i + seg.len() as int) =~= seg);
}

/// Trailing inline space removed.
pub open spec fn rtrim_inline(s: Seq<char>) -> Seq<char>
    decreases s.len(),
{
    if s.len() > 0 && is_inline_space(s.last()) {
        rtrim_inline(s.drop_last())
    } else {
        s
    }
}

/// The end of a line, allowing trailing inline space: yields the
/// position just past the terminating newline, or the end of input.
pub open spec fn expect_eol(t: Seq<char>, i: int) -> Option<int> {
    let j = skip_inline(t, i);
    if j >= t.len() {
        Some(t.len() as int)
    } else if t[j] == '\n' {
        Some(j + 1)
    } else {
        None
    }
}

pub fn skip_inline_exec(v: &Vec<char>, i: usize) -> (r: usize)
    requires
        i <= v@.len(),
    ensures
        r == skip_inline(v@, i as int),
        i <= r <= v@.len(),
{
    let n = v.len();
    let mut cur = i;
    while cur < n && char_is_inline_space(v[cur])
        invariant
            i <= cur <= n,
            n == v@.len(),
            skip_inline(v@, i as int) == skip_inline(v@, cur as int),
        decreases n - cur,
    {
        cur += 1;
    }
    cur
}

pub fn skip_noise_exec(v: &Vec<char>, i: usize) -> (r: usize)
    requires
        i <= v@.len(),
    ensures
        r == skip_noise(v@, i as int, false),
        i <= r <= v@.len(),
{
    let n = v.len();
    let mut cur = i;
    let mut in_comment = false;
    while cur < n && (in_comment || v[cur] == '#' || char_is_inline_space(v[cur]) || v[cur] == '\n')
        invariant
            i <= cur <= n,
            n == v@.len(),
            skip_noise(v@, i as int, false) == skip_noise(v@, cur as int, in_comment),
        decreases n - cur,
    {
        if in_comment {
            if v[cur] == '\n' {
                in_comment = false;
            }
        } else if v[cur] == '#' {
            in_comment = true;
        }
        cur += 1;
    }
    proof {
        if cur < n {
        } else {
            assert(skip_noise(v@, cur as int, in_comment) == cur);
        }
    }
    cur
}

pub fn line_end_exec(v: &Vec<char>, i: usize) -> (r: usize)
    requires
        i <= v@.len(),
    ensures
        r == line_end(v@, i as int),
        i <= r <= v@.len(),
{
    let n = v.len();
    let mut cur = i;
    while cur < n && v[cur] != '\n'
        invariant
            i <= cur <= n,
            n == v@.len(),
            line_end(v@, i as int) == line_end(v@, cur as int),
        decreases n - cur,
    {
        cur += 1;
    }
    cur
}

pub fn expect_eol_exec(v: &Vec<char>, i: usize) -> (r: Option<usize>)
    requires
        i <= v@.len(),
    ensures
        match r {
            Some(j) => expect_eol(v@, i as int) == Some(j as int) && i <= j <= v@.len(),
            None => expect_eol(v@, i as int) is None,
        },
{
    let j = skip_inline_exec(v, i);
    if j >= v.len() {
        Some(v.len())
    } else if v[j] == '\n' {
        Some(j + 1)
    } else {
        None
    }
}

/// The body of a single-quoted YAML scalar, starting just after the
/// opening quote; a doubled quote stands for one literal quote.
pub open spec fn parse_sqbody(t: Seq<char>, i: int) -> Option<(Seq<char>, int)>
    decreases t.len() - i,
{
    if i < 0 || i >= t.len() {
        None
    } else if t[i] == '\'' {
        if i + 1 < t.len() && t[i + 1] == '\'' {
            match parse_sqbody(t, i + 2) {
                Some((v, j)) => Some((seq!['\''] + v, j)),
                None => None,
            }
        } else {
            Some((Seq::empty(), i + 1))
        }
    } else {
        match parse_sqbody(t, i + 1) {
            Some((v, j)) => Some((seq![t[i]] + v, j)),
            None => None,
        }
    }
}

pub proof fn lemma_parse_sqbody_bounds(t: Seq<char>, i: int)
    requires
        parse_sqbody(t, i) is Some,
    ensures
        ({
            let p = parse_sqbody(t, i)->0;
            i < p.1 <= t.len()
        }),
    decreases t.len() - i,
{
    if t[i] == '\'' {
        if i + 1 < t.len() && t[i + 1] == '\'' {
            lemma_parse_sqbody_bounds(t, i + 2);
        }
    } else {
        lemma_parse_sqbody_bounds(t, i + 1);
    }
}

/// One scalar value at `i`: a double-quoted literal, a single-quoted
/// literal, or a plain scalar running to the end of the line with
/// trailing space dropped.
pub open spec fn parse_value(t: Seq<char>, i: int) -> Option<(Seq<char>, int)> {
    if i < 0 || i > t.len() {
        None
    } else if i == t.len() {
        Some((Seq::empty(), i))
    } else if t[i] == '"' {
        parse_qbody(t, i + 1)
    } else if t[i] == '\'' {
        parse_sqbody(t, i + 1)
    } else {
        let e = line_end(t, i);
        Some((rtrim_inline(t.subrange(i, e)), e))
    }
}

pub fn parse_sqbody_pub(v: &Vec<char>, start: usize) -> (r: Option<(Vec<char>, usize)>)
    requires
        start <= v@.len(),
    ensures
        match r {
            Some(p) => parse_sqbody(v@, start as int) == Some((p.0@, p.1 as int)) && start < p.1
                <= v@.len(),
            None => parse_sqbody(v@, start as int) is None,
        },
{
    let ghost t = v@;
    let n = v.len();
    let mut acc: Vec<char> = Vec::new();
    let mut cur: usize = start;
    loop
        invariant
            start <= cur <= n,
            n == t.len(),
            v@ == t,
            match parse_sqbody(t, cur as int) {
                Some(p) => parse_sqbody(t, start as int) == Some((acc@ + p.0, p.1)),
                None => parse_sqbody(t, start as int) is None,
            },
        decreases n - cur,
    {
        if cur >= n {
            return None;
        }
        let c = v[cur];
        if c == '\'' {
            if cur + 1 < n && v[cur + 1] == '\'' {
                let ghost acc0 = acc@;
                acc.push('\'');
                proof {
                    if let Some(p) = parse_sqbody(t, cur + 2 as int) {
                        assert(acc0 + (seq!['\''] + p.0) =~= acc@ + p.0);
                    }
                }
                cur = cur + 2;
            } else {
                proof {
                    assert(parse_sqbody(t, cur as int) == Some((Seq::<char>::empty(), cur + 1 as int)));
                    assert(acc@ + Seq::<char>::empty() =~= acc@);
                    lemma_parse_sqbody_bounds(t, start as int);
                }
                return Some((acc, cur + 1));
            }
        } else {
            let ghost acc0 = acc@;
            acc.push(c);
            proof {
                if let Some(p) = parse_sqbody(t, cur + 1 as int) {
                    assert(acc0 + (seq![c] + p.0) =~= acc@ + p.0);
                }
            }
            cur = cur + 1;
        }
    }
}

pub fn parse_value_exec(v: &Vec<char>, i: usize) -> (r: Option<(Vec<char>, usize)>)
    requires
        i <= v@.len(),
    ensures
        match r {
            Some(p) => parse_value(v@, i as int) == Some((p.0@, p.1 as int)) && i <= p.1
                <= v@.len(),
            None => parse_value(v@, i as int) is None,
        },
{
    let n = v.len();
    if i == n {
        let out: Vec<char> = Vec::new();
        return Some((out, i));
    }
    let c = v[i];
    if c == '"' {
        match crate::quoted::parse_quoted_at(v, i) {
            Some(p) => Some(p),
            None => None,
        }
    } else if c == '\'' {
        parse_sqbody_pub(v, i + 1)
    } else {
        let e = line_end_exec(v, i);
        let mut out: Vec<char> = Vec::new();
        let mut k: usize = i;
        while k < e
            invariant
                i <= k <= e <= v@.len(),
                out@ == v@.subrange(i as int, k as int),
            decreases e - k,
        {
            out.push(v[k]);
            assert(out@ =~= v@.subrange(i as int, k + 1 as int));
            k += 1;
        }
        while out.len() > 0 && char_is_inline_space(out[out.len() - 1])
            invariant
                rtrim_inline(out@) == rtrim_inline(v@.subrange(i as int, line_end(v@, i as int))),
            decreases out@.len(),
        {
            let _ = out.pop();
        }
        proof {
            assert(rtrim_inline(out@) == out@);
        }
        Some((out, e))
    }
}

} // verus!
