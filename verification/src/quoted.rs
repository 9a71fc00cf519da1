//! Double-quoted string literals with backslash escapes, as both the
//! YAML and the JSON codecs write them: `"` and `\` are escaped, the
//! common control characters get `\n`, `\r`, `\t`, and any other
//! control character becomes `\u00XX`.  The parser also accepts the
//! `\u{XX}` spelling that debug-formatted lists use.  Writing and
//! reading a quoted literal round-trips every string exactly.

use vstd::prelude::*;

verus! {

/// The lower-case hex digit for a value below 16.
pub open spec fn hex_digit(n: int) -> char {
    if n == 0 {
        '0'
    } else if n == 1 {
        '1'
    } else if n == 2 {
        '2'
    } else if n == 3 {
        '3'
    } else if n == 4 {
        '4'
    } else if n == 5 {
        '5'
    } else if n == 6 {
        '6'
    } else if n == 7 {
        '7'
    } else if n == 8 {
        '8'
    } else if n == 9 {
        '9'
    } else if n == 10 {
        'a'
    } else if n == 11 {
        'b'
    } else if n == 12 {
        'c'
    } else if n == 13 {
        'd'
    } else if n == 14 {
        'e'
    } else {
        'f'
    }
}

/// The value of a hex digit, upper or lower case.
pub open spec fn hex_val(c: char) -> Option<int> {
    if '0' <= c && c <= '9' {
        Some(c as u32 - '0' as u32)
    } else if 'a' <= c && c <= 'f' {
        Some(c as u32 - 'a' as u32 + 10)
    } else if 'A' <= c && c <= 'F' {
        Some(c as u32 - 'A' as u32 + 10)
    } else {
        None
    }
}

/// How one character appears inside a double-quoted literal.
pub open spec fn escape_char(c: char) -> Seq<char> {
    if c == '"' {
        seq!['\\', '"']
    } else if c == '\\' {
        seq!['\\', '\\']
    } else if c == '\n' {
        seq!['\\', 'n']
    } else if c == '\r' {
        seq!['\\', 'r']
    } else if c == '\t' {
        seq!['\\', 't']
    } else if (c as u32) < 0x20 {
        seq!['\\', 'u', '0', '0', hex_digit(c as u32 as int / 16), hex_digit(c as u32 as int % 16)]
    } else {
        seq![c]
    }
}

/// The escaped body of a double-quoted literal.
pub open spec fn escape_str(s: Seq<char>) -> Seq<char>
    decreases s.len(),
{
    if s.len() == 0 {
        Seq::empty()
    } else {
        escape_char(s[0]) + escape_str(s.drop_first())
    }
}

/// The full double-quoted literal for a string.
pub open spec fn quoted(s: Seq<char>) -> Seq<char> {
    seq!['"'] + escape_str(s) + seq!['"']
}

pub proof fn lemma_escape_snoc(s: Seq<char>, c: char)
    ensures
        escape_str(s.push(c)) == escape_str(s) + escape_char(c),
    decreases s.len(),
{
    reveal_with_fuel(escape_str, 2);
    if s.len() == 0 {
        assert(s.push(c)[0] == c);
        assert(s.push(c).drop_first() =~= s);
        assert(escape_str(s.push(c)) =~= escape_str(s) + escape_char(c));
    } else {
        assert(s.push(c).drop_first() =~= s.drop_first().push(c));
        lemma_escape_snoc(s.drop_first(), c);
        assert(s.push(c)[0] == s[0]);
        assert(escape_str(s.push(c)) =~= escape_str(s) + escape_char(c));
    }
}

pub fn hex_digit_exec(n: u32) -> (r: char)
    requires
        n < 16,
    ensures
        r == hex_digit(n as int),
{
    if n == 0 {
        '0'
    } else if n == 1 {
        '1'
    } else if n == 2 {
        '2'
    } else if n == 3 {
        '3'
    } else if n == 4 {
        '4'
    } else if n == 5 {
        '5'
    } else if n == 6 {
        '6'
    } else if n == 7 {
        '7'
    } else if n == 8 {
        '8'
    } else if n == 9 {
        '9'
    } else if n == 10 {
        'a'
    } else if n == 11 {
        'b'
    } else if n == 12 {
        'c'
    } else if n == 13 {
        'd'
    } else if n == 14 {
        'e'
    } else {
        'f'
    }
}

fn hex_val_exec(c: char) -> (r: Option<u32>)
    ensures
        match r {
            Some(v) => hex_val(c) == Some(v as int) && v < 16,
            None => hex_val(c) is None,
        },
{
    if '0' <= c && c <= '9' {
        Some(c as u32 - '0' as u32)
    } else if 'a' <= c && c <= 'f' {
        Some(c as u32 - 'a' as u32 + 10)
    } else if 'A' <= c && c <= 'F' {
        Some(c as u32 - 'A' as u32 + 10)
    } else {
        None
    }
}

/// Appends the escape of one character.
fn push_escaped_char(out: &mut Vec<char>, c: char)
    ensures
        final(out)@ == old(out)@ + escape_char(c),
{
    if c == '"' {
        out.push('\\');
        out.push('"');
    } else if c == '\\' {
        out.push('\\');
        out.push('\\');
    } else if c == '\n' {
        out.push('\\');
        out.push('n');
    } else if c == '\r' {
        out.push('\\');
        out.push('r');
    } else if c == '\t' {
        out.push('\\');
        out.push('t');
    } else if (c as u32) < 0x20 {
        let v = c as u32;
        out.push('\\');
        out.push('u');
        out.push('0');
        out.push('0');
        out.push(hex_digit_exec(v / 16));
        out.push(hex_digit_exec(v % 16));
    } else {
        out.push(c);
    }
    assert(final(out)@ =~= old(out)@ + escape_char(c));
}

/// Appends the double-quoted literal for `s`.
pub fn push_quoted(out: &mut Vec<char>, s: &str)
    ensures
        final(out)@ == old(out)@ + quoted(s@),
{
    out.push('"');
    let n = s.unicode_len();
    let mut i: usize = 0;
    while i < n
        invariant
            i <= n,
            n == s@.len(),
            out@ == old(out)@ + seq!['"'] + escape_str(s@.subrange(0, i as int)),
        decreases n - i,
    {
        let ghost prefix = s@.subrange(0, i as int);
        let c = s.get_char(i);
        push_escaped_char(out, c);
        proof {
            lemma_escape_snoc(prefix, c);
            assert(s@.subrange(0, i + 1 as int) =~= prefix.push(c));
            assert(out@ =~= old(out)@ + seq!['"'] + escape_str(s@.subrange(0, i + 1 as int)));
        }
        i += 1;
    }
    proof {
        assert(s@.subrange(0, n as int) =~= s@);
    }
    out.push('"');
    assert(final(out)@ =~= old(out)@ + quoted(s@));
}

/// Parses the body of a double-quoted literal starting just after the
/// opening quote at position `i`; on success yields the decoded string
/// and the position just past the closing quote.  Accepts `\u00XX` and
/// `\u{XX}` escapes for code points up to 0xff.
pub open spec fn parse_qbody(s: Seq<char>, i: int) -> Option<(Seq<char>, int)>
    decreases s.len() - i,
{
    if i < 0 || i >= s.len() {
        None
    } else if s[i] == '"' {
        Some((Seq::empty(), i + 1))
    } else if s[i] == '\\' {
        if i + 1 >= s.len() {
            None
        } else {
            let e = s[i + 1];
            if e == '"' || e == '\\' || e == 'n' || e == 'r' || e == 't' {
                let d = if e == '"' {
                    '"'
                } else if e == '\\' {
                    '\\'
                } else if e == 'n' {
                    '\n'
                } else if e == 'r' {
                    '\r'
                } else {
                    '\t'
                };
                match parse_qbody(s, i + 2) {
                    Some((v, j)) => Some((seq![d] + v, j)),
                    None => None,
                }
            } else if e == 'u' {
                if i + 5 < s.len() && s[i + 2] == '0' && s[i + 3] == '0' && hex_val(s[i + 4]) is Some
                    && hex_val(s[i + 5]) is Some {
                    let v = 16 * hex_val(s[i + 4])->0 + hex_val(s[i + 5])->0;
                    let d = (v as u32) as char;
                    match parse_qbody(s, i + 6) {
                        Some((w, j)) => Some((seq![d] + w, j)),
                        None => None,
                    }
                } else if i + 4 < s.len() && s[i + 2] == '{' && hex_val(s[i + 3]) is Some && s[i + 4]
                    == '}' {
                    let d = (hex_val(s[i + 3])->0 as u32) as char;
                    match parse_qbody(s, i + 5) {
                        Some((w, j)) => Some((seq![d] + w, j)),
                        None => None,
                    }
                } else if i + 5 < s.len() && s[i + 2] == '{' && hex_val(s[i + 3]) is Some && hex_val(
                    s[i + 4],
                ) is Some && s[i + 5] == '}' {
                    let v = 16 * hex_val(s[i + 3])->0 + hex_val(s[i + 4])->0;
                    let d = (v as u32) as char;
                    match parse_qbody(s, i + 6) {
                        Some((w, j)) => Some((seq![d] + w, j)),
                        None => None,
                    }
                } else {
                    None
                }
            } else {
                None
            }
        }
    } else {
        match parse_qbody(s, i + 1) {
            Some((v, j)) => Some((seq![s[i]] + v, j)),
            None => None,
        }
    }
}

/// A successful body parse ends within the input, past its start.
pub proof fn lemma_parse_qbody_bounds(s: Seq<char>, i: int)
    requires
        parse_qbody(s, i) is Some,
    ensures
        ({
            let p = parse_qbody(s, i)->0;
            i < p.1 <= s.len()
        }),
    decreases s.len() - i,
{
    if s[i] == '"' {
    } else if s[i] == '\\' {
        let e = s[i + 1];
        if e == '"' || e == '\\' || e == 'n' || e == 'r' || e == 't' {
            lemma_parse_qbody_bounds(s, i + 2);
        } else if i + 5 < s.len() && s[i + 2] == '0' && s[i + 3] == '0' && hex_val(s[i + 4]) is Some
            && hex_val(s[i + 5]) is Some {
            lemma_parse_qbody_bounds(s, i + 6);
        } else if i + 4 < s.len() && s[i + 2] == '{' && hex_val(s[i + 3]) is Some && s[i + 4]
            == '}' {
            lemma_parse_qbody_bounds(s, i + 5);
        } else {
            lemma_parse_qbody_bounds(s, i + 6);
        }
    } else {
        lemma_parse_qbody_bounds(s, i + 1);
    }
}

/// Reading back what `push_quoted` wrote: at a position where the
/// input continues with the escaped body and the closing quote, the
/// parser returns exactly the original string and stops just past the
/// closing quote, whatever follows it.
pub proof fn lemma_parse_escaped(t: Seq<char>, i: int, s: Seq<char>, rest: Seq<char>)
    requires
        0 <= i <= t.len(),
        t == t.take(i) + escape_str(s) + seq!['"'] + rest,
    ensures
        parse_qbody(t, i) == Some((s, i + escape_str(s).len() + 1)),
    decreases s.len(),
{
    let es = escape_str(s);
    let pre = t.take(i);
    assert(pre.len() == i);
    if s.len() == 0 {
        assert(t[i] == (pre + es + seq!['"'] + rest)[i]);
        assert(t[i] == '"');
        assert(Seq::<char>::empty() =~= s);
    } else {
        let c = s[0];
        let e = escape_char(c);
        let s1 = s.drop_first();
        let es1 = escape_str(s1);
        assert(es == e + es1);
        let k = e.len() as int;
        assert(t.len() == i + es.len() + 1 + rest.len());
        assert(forall|m: int|
            0 <= m < k ==> t[i + m] == #[trigger] (pre + es + seq!['"'] + rest)[i + m]);
        assert(forall|m: int| 0 <= m < k ==> (pre + es + seq!['"'] + rest)[i + m] == es[m]);
        assert(forall|m: int| 0 <= m < k ==> es[m] == e[m]);
        // Set up the recursive call at the position after this escape.
        assert(t.take(i + k) =~= pre + e) by {
            assert(forall|m: int|
                0 <= m < i + k ==> t[m] == #[trigger] (pre + es + seq!['"'] + rest)[m]);
        }
        assert(t =~= t.take(i + k) + es1 + seq!['"'] + rest) by {
            assert(forall|m: int|
                0 <= m < t.len() ==> t[m] == #[trigger] (pre + es + seq!['"'] + rest)[m]);
            assert(forall|m: int|
                0 <= m < t.len() ==> ((pre + e) + es1 + seq!['"'] + rest)[m] == (pre + (e + es1)
                    + seq!['"'] + rest)[m]);
        }
        lemma_parse_escaped(t, i + k, s1, rest);
        if c == '"' || c == '\\' || c == '\n' || c == '\r' || c == '\t' {
            assert(t[i] == e[0] && t[i + 1] == e[1]);
            assert(parse_qbody(t, i) == Some((seq![c] + s1, i + k + es1.len() + 1)));
            assert(seq![c] + s1 =~= s);
        } else if (c as u32) < 0x20 {
            let v = c as u32 as int;
            assert(e == seq!['\\', 'u', '0', '0', hex_digit(v / 16), hex_digit(v % 16)]);
            assert(t[i] == '\\' && t[i + 1] == 'u' && t[i + 2] == '0' && t[i + 3] == '0');
            assert(t[i + 4] == hex_digit(v / 16) && t[i + 5] == hex_digit(v % 16));
            assert(0 <= v / 16 < 2 && 0 <= v % 16 < 16);
            assert(hex_val(hex_digit(v / 16)) == Some(v / 16));
            assert(hex_val(hex_digit(v % 16)) == Some(v % 16));
            assert(16 * (v / 16) + v % 16 == v);
            assert((v as u32) as char == c) by {
                vstd::utf8::char_u32_cast(c, c as u32);
            }
            assert(i + 5 < t.len());
            assert(parse_qbody(t, i) == Some((seq![c] + s1, i + k + es1.len() + 1)));
            assert(seq![c] + s1 =~= s);
        } else {
            assert(e == seq![c]);
            assert(t[i] == c);
            assert(c != '"' && c != '\\');
            assert(parse_qbody(t, i) == Some((seq![c] + s1, i + k + es1.len() + 1)));
            assert(seq![c] + s1 =~= s);
        }
    }
}

/// The corollary at the level of whole literals: if the input at `i`
/// continues with `quoted(s)`, the opening quote stands at `i` and the
/// body parse from `i + 1` yields exactly `s`.
pub proof fn lemma_parse_quoted(t: Seq<char>, i: int, s: Seq<char>, rest: Seq<char>)
    requires
        0 <= i <= t.len(),
        t == t.take(i) + quoted(s) + rest,
    ensures
        i + quoted(s).len() <= t.len(),
        t[i] == '"',
        parse_qbody(t, i + 1) == Some((s, i + quoted(s).len())),
{
    let q = quoted(s);
    let pre = t.take(i);
    assert(pre.len() == i);
    assert(t.len() == i + q.len() + rest.len());
    assert(t[i] == (pre + q + rest)[i]);
    assert(q[0] == '"');
    assert(t[i] == '"');
    assert(t.take(i + 1) =~= pre + seq!['"']) by {
        assert(forall|m: int| 0 <= m < i + 1 ==> t[m] == #[trigger] (pre + q + rest)[m]);
    }
    assert(t =~= t.take(i + 1) + escape_str(s) + seq!['"'] + rest) by {
        assert(forall|m: int| 0 <= m < t.len() ==> t[m] == #[trigger] (pre + q + rest)[m]);
        assert(forall|m: int|
            0 <= m < t.len() ==> ((pre + seq!['"']) + escape_str(s) + seq!['"'] + rest)[m] == (pre
                + (seq!['"'] + escape_str(s) + seq!['"']) + rest)[m]);
    }
    lemma_parse_escaped(t, i + 1, s, rest);
}

/// Parses a double-quoted literal whose opening quote stands at
/// `start`; on success returns the decoded string and the position
/// just past the closing quote.
pub fn parse_quoted_at(v: &Vec<char>, start: usize) -> (r: Option<(Vec<char>, usize)>)
    requires
        start < v@.len(),
        v@[start as int] == '"',
    ensures
        match r {
            Some(p) => {
                &&& parse_qbody(v@, start + 1) == Some((p.0@, p.1 as int))
                &&& start < p.1 <= v@.len()
            },
            None => parse_qbody(v@, start + 1) is None,
        },
{
    let ghost t = v@;
    let n = v.len();
    let mut acc: Vec<char> = Vec::new();
    let mut cur: usize = start + 1;
    loop
        invariant
            start + 1 <= cur <= n,
            n == t.len(),
            v@ == t,
            match parse_qbody(t, cur as int) {
                Some(p) => parse_qbody(t, start + 1 as int) == Some((acc@ + p.0, p.1)),
                None => parse_qbody(t, start + 1 as int) is None,
            },
        decreases n - cur,
    {
        if cur >= n {
            return None;
        }
        let c = v[cur];
        if c == '"' {
            proof {
                assert(parse_qbody(t, cur as int) == Some((Seq::<char>::empty(), cur + 1 as int)));
                assert(acc@ + Seq::<char>::empty() =~= acc@);
                lemma_parse_qbody_bounds(t, start + 1 as int);
            }
            return Some((acc, cur + 1));
        } else if c == '\\' {
            if cur + 1 >= n {
                return None;
            }
            let e = v[cur + 1];
            if e == '"' || e == '\\' || e == 'n' || e == 'r' || e == 't' {
                let d = if e == '"' {
                    '"'
                } else if e == '\\' {
                    '\\'
                } else if e == 'n' {
                    '\n'
                } else if e == 'r' {
                    '\r'
                } else {
                    '\t'
                };
                let ghost acc0 = acc@;
                acc.push(d);
                proof {
                    if let Some(p) = parse_qbody(t, cur + 2 as int) {
                        assert(parse_qbody(t, cur as int) == Some((seq![d] + p.0, p.1)));
                        assert(acc0 + (seq![d] + p.0) =~= acc@ + p.0);
                    }
                }
                cur = cur + 2;
            } else if e == 'u' {
                if n - cur > 5 && v[cur + 2] == '0' && v[cur + 3] == '0'
                    && hex_val_exec(v[cur + 4]).is_some() && hex_val_exec(v[cur + 5]).is_some() {
                    let h1 = hex_val_exec(v[cur + 4]).unwrap();
                    let h2 = hex_val_exec(v[cur + 5]).unwrap();
                    let b: u8 = (16 * h1 + h2) as u8;
                    let d = b as char;
                    let ghost acc0 = acc@;
                    acc.push(d);
                    proof {
                        if let Some(p) = parse_qbody(t, cur + 6 as int) {
                            assert(parse_qbody(t, cur as int) == Some((seq![d] + p.0, p.1)));
                            assert(acc0 + (seq![d] + p.0) =~= acc@ + p.0);
                        }
                    }
                    cur = cur + 6;
                } else if n - cur > 4 && v[cur + 2] == '{' && hex_val_exec(v[cur + 3]).is_some()
                    && v[cur + 4] == '}' {
                    let h = hex_val_exec(v[cur + 3]).unwrap();
                    let b: u8 = h as u8;
                    let d = b as char;
                    let ghost acc0 = acc@;
                    acc.push(d);
                    proof {
                        if let Some(p) = parse_qbody(t, cur + 5 as int) {
                            assert(parse_qbody(t, cur as int) == Some((seq![d] + p.0, p.1)));
                            assert(acc0 + (seq![d] + p.0) =~= acc@ + p.0);
                        }
                    }
                    cur = cur + 5;
                } else if n - cur > 5 && v[cur + 2] == '{' && hex_val_exec(v[cur + 3]).is_some()
                    && hex_val_exec(v[cur + 4]).is_some() && v[cur + 5] == '}' {
                    let h1 = hex_val_exec(v[cur + 3]).unwrap();
                    let h2 = hex_val_exec(v[cur + 4]).unwrap();
                    let b: u8 = (16 * h1 + h2) as u8;
                    let d = b as char;
                    let ghost acc0 = acc@;
                    acc.push(d);
                    proof {
                        if let Some(p) = parse_qbody(t, cur + 6 as int) {
                            assert(parse_qbody(t, cur as int) == Some((seq![d] + p.0, p.1)));
                            assert(acc0 + (seq![d] + p.0) =~= acc@ + p.0);
                        }
                    }
                    cur = cur + 6;
                } else {
                    return None;
                }
            } else {
                return None;
            }
        } else {
            let ghost acc0 = acc@;
            acc.push(c);
            proof {
                if let Some(p) = parse_qbody(t, cur + 1 as int) {
                    assert(parse_qbody(t, cur as int) == Some((seq![c] + p.0, p.1)));
                    assert(acc0 + (seq![c] + p.0) =~= acc@ + p.0);
                }
            }
            cur = cur + 1;
        }
    }
}

} // verus!
