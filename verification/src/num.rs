//! Decimal text for the numeric configuration fields: writing a
//! number and reading it back returns the same value.

use vstd::prelude::*;

verus! {

pub open spec fn is_digit(c: char) -> bool {
    '0' <= c && c <= '9'
}

pub fn char_is_digit(c: char) -> (r: bool)
    ensures
        r == is_digit(c),
{
    '0' <= c && c <= '9'
}

/// The decimal digits of `n`, most significant first.
pub open spec fn dec_digits(n: nat) -> Seq<char>
    decreases n,
{
    if n < 10 {
        seq![hex_digit_of(n as int)]
    } else {
        dec_digits(n / 10) + seq![hex_digit_of((n % 10) as int)]
    }
}

/// The digit character for a value below ten.
pub open spec fn hex_digit_of(n: int) -> char {
    crate::quoted::hex_digit(n)
}

/// The value of an all-digit string (0 for the empty string).
pub open spec fn digits_val(s: Seq<char>) -> int
    decreases s.len(),
{
    if s.len() == 0 {
        0
    } else {
        digits_val(s.drop_last()) * 10 + (s.last() as u32 - '0' as u32)
    }
}

pub open spec fn all_digits(s: Seq<char>) -> bool {
    forall|i: int| 0 <= i < s.len() ==> is_digit(#[trigger] s[i])
}

/// What an unsigned numeric field accepts: one or more digits whose
/// value fits in 64 bits.
pub open spec fn parse_u64_str(s: Seq<char>) -> Option<u64> {
    if s.len() > 0 && all_digits(s) && digits_val(s) <= u64::MAX {
        Some(digits_val(s) as u64)
    } else {
        None
    }
}

/// What a signed numeric field accepts: an optional minus sign, then
/// digits, with the value in the 64-bit signed range.
pub open spec fn parse_i64_str(s: Seq<char>) -> Option<i64> {
    if s.len() > 0 && s[0] == '-' {
        let d = s.drop_first();
        if d.len() > 0 && all_digits(d) && -digits_val(d) >= i64::MIN {
            Some((-digits_val(d)) as i64)
        } else {
            None
        }
    } else if s.len() > 0 && all_digits(s) && digits_val(s) <= i64::MAX {
        Some(digits_val(s) as i64)
    } else {
        None
    }
}

pub proof fn lemma_digits_val_nonneg(s: Seq<char>)
    requires
        all_digits(s),
    ensures
        digits_val(s) >= 0,
    decreases s.len(),
{
    if s.len() > 0 {
        assert(all_digits(s.drop_last())) by {
            assert(forall|i: int| 0 <= i < s.len() - 1 ==> s.drop_last()[i] == #[trigger] s[i]);
        }
        lemma_digits_val_nonneg(s.drop_last());
    }
}

/// The digits of `n` are digits, and their value is `n`.
pub proof fn lemma_dec_digits_val(n: nat)
    ensures
        dec_digits(n).len() > 0,
        all_digits(dec_digits(n)),
        digits_val(dec_digits(n)) == n,
    decreases n,
{
    if n < 10 {
        assert(dec_digits(n) == seq![hex_digit_of(n as int)]);
        assert(is_digit(hex_digit_of(n as int)));
        assert(digits_val(dec_digits(n)) == digits_val(Seq::<char>::empty()) * 10 + (hex_digit_of(
            n as int,
        ) as u32 - '0' as u32)) by {
            assert(dec_digits(n).drop_last() =~= Seq::<char>::empty());
        }
        assert(hex_digit_of(n as int) as u32 - '0' as u32 == n);
    } else {
        lemma_dec_digits_val(n / 10);
        let pre = dec_digits(n / 10);
        let d = hex_digit_of((n % 10) as int);
        assert(is_digit(d));
        assert(d as u32 - '0' as u32 == n % 10);
        let s = pre + seq![d];
        assert(s.drop_last() =~= pre);
        assert(s.last() == d);
        assert(all_digits(s)) by {
            assert(forall|i: int| 0 <= i < pre.len() ==> s[i] == #[trigger] pre[i]);
        }
        assert(digits_val(s) == digits_val(pre) * 10 + n % 10);
        assert(digits_val(s) == (n / 10) * 10 + n % 10);
        assert((n / 10) * 10 + n % 10 == n);
    }
}

/// Writing a 64-bit value and parsing it back gives the value.
pub proof fn lemma_u64_round_trip(n: u64)
    ensures
        parse_u64_str(dec_digits(n as nat)) == Some(n),
{
    lemma_dec_digits_val(n as nat);
}

/// Writing a signed 64-bit value and parsing it back gives the value.
pub proof fn lemma_i64_round_trip(n: i64)
    ensures
        parse_i64_str(crate::config_codec::i64_text(n)) == Some(n),
{
    if n >= 0 {
        lemma_dec_digits_val(n as nat);
        assert(dec_digits(n as nat)[0] != '-') by {
            assert(is_digit(dec_digits(n as nat)[0]));
        }
    } else {
        let m = (-(n as int)) as nat;
        lemma_dec_digits_val(m);
        let t = seq!['-'] + dec_digits(m);
        assert(t[0] == '-');
        assert(t.drop_first() =~= dec_digits(m));
    }
}

/// Appends the decimal digits of `n`.
pub fn push_u64(out: &mut Vec<char>, n: u64)
    ensures
        final(out)@ == old(out)@ + dec_digits(n as nat),
    decreases n,
{
    if n < 10 {
        out.push(crate::quoted::hex_digit_exec(n as u32));
        assert(final(out)@ =~= old(out)@ + dec_digits(n as nat));
    } else {
        push_u64(out, n / 10);
        out.push(crate::quoted::hex_digit_exec((n % 10) as u32));
        assert(final(out)@ =~= old(out)@ + dec_digits(n as nat));
    }
}

/// Appends the decimal form of a signed value.
pub fn push_i64(out: &mut Vec<char>, n: i64)
    ensures
        n >= 0 ==> final(out)@ == old(out)@ + dec_digits(n as nat),
        n < 0 ==> final(out)@ == old(out)@ + seq!['-'] + dec_digits((-(n as int)) as nat),
{
    if n >= 0 {
        push_u64(out, n as u64);
    } else {
        out.push('-');
        let m = ((-(n as i128)) as u64);
        assert(m == -(n as int));
        push_u64(out, m);
        assert(final(out)@ =~= old(out)@ + seq!['-'] + dec_digits((-(n as int)) as nat));
    }
}

/// Parses an all-digit string into a 64-bit value, exactly as
/// `parse_u64_str` states.
pub fn parse_u64_chars(v: &Vec<char>) -> (r: Option<u64>)
    ensures
        r == parse_u64_str(v@),
{
    let n = v.len();
    if n == 0 {
        return None;
    }
    let mut acc: u64 = 0;
    let mut i: usize = 0;
    while i < n
        invariant
            i <= n,
            n == v@.len(),
            n > 0,
            all_digits(v@.subrange(0, i as int)),
            acc == digits_val(v@.subrange(0, i as int)),
        decreases n - i,
    {
        let ghost prefix = v@.subrange(0, i as int);
        let c = v[i];
        if !char_is_digit(c) {
            assert(!all_digits(v@));
            return None;
        }
        let d = (c as u32 - '0' as u32) as u64;
        let shifted = match acc.checked_mul(10) {
            Some(x) => x,
            None => {
                proof {
                    if all_digits(v@) {
                        lemma_digits_overflow(v@, i as int);
                    }
                }
                return None;
            },
        };
        let next = match shifted.checked_add(d) {
            Some(x) => x,
            None => {
                proof {
                    if all_digits(v@) {
                        lemma_digits_overflow(v@, i as int);
                    }
                }
                return None;
            },
        };
        acc = next;
        proof {
            assert(v@.subrange(0, i + 1 as int) =~= prefix.push(c));
            assert(prefix.push(c).drop_last() =~= prefix);
            assert(all_digits(prefix.push(c))) by {
                assert(forall|j: int| 0 <= j < prefix.len() ==> prefix.push(c)[j] == #[trigger] prefix[j]);
            }
        }
        i += 1;
    }
    proof {
        assert(v@.subrange(0, n as int) =~= v@);
    }
    Some(acc)
}

/// If one more digit no longer fits in 64 bits, the whole string's
/// value does not either.
proof fn lemma_digits_overflow(s: Seq<char>, i: int)
    requires
        0 <= i < s.len(),
        all_digits(s),
        digits_val(s.subrange(0, i)) * 10 + (s[i] as u32 - '0' as u32) > u64::MAX,
    ensures
        digits_val(s) > u64::MAX,
{
    lemma_digits_prefix_le(s, i + 1);
    assert(s.subrange(0, i + 1).drop_last() =~= s.subrange(0, i));
    assert(s.subrange(0, i + 1).last() == s[i]);
    assert(digits_val(s.subrange(0, i + 1)) == digits_val(s.subrange(0, i)) * 10 + (s[i] as u32
        - '0' as u32));
}

/// A digit string's value only grows as digits are appended.
proof fn lemma_digits_prefix_le(s: Seq<char>, j: int)
    requires
        0 <= j <= s.len(),
        all_digits(s),
    ensures
        digits_val(s.subrange(0, j)) <= digits_val(s),
    decreases s.len() - j,
{
    assert(all_digits(s.subrange(0, j))) by {
        assert(forall|m: int| 0 <= m < j ==> s.subrange(0, j)[m] == #[trigger] s[m]);
    }
    if j == s.len() {
        assert(s.subrange(0, j) =~= s);
    } else {
        lemma_digits_prefix_le(s, j + 1);
        let p = s.subrange(0, j + 1);
        assert(p.drop_last() =~= s.subrange(0, j));
        assert(p.last() == s[j]);
        lemma_digits_val_nonneg(s.subrange(0, j));
        assert(digits_val(p) == digits_val(s.subrange(0, j)) * 10 + (s[j] as u32 - '0' as u32));
        assert(digits_val(s.subrange(0, j)) <= digits_val(p)) by (nonlinear_arith)
            requires
                digits_val(p) == digits_val(s.subrange(0, j)) * 10 + (s[j] as u32 - '0' as u32),
                digits_val(s.subrange(0, j)) >= 0,
                s[j] as u32 >= '0' as u32,
        ;
    }
}

/// Parses an optionally signed digit string into a signed 64-bit
/// value, exactly as `parse_i64_str` states.
pub fn parse_i64_chars(v: &Vec<char>) -> (r: Option<i64>)
    ensures
        r == parse_i64_str(v@),
{
    let n = v.len();
    if n == 0 {
        return None;
    }
    if v[0] == '-' {
        let mut rest: Vec<char> = Vec::new();
        let mut i: usize = 1;
        while i < n
            invariant
                1 <= i <= n,
                n == v@.len(),
                rest@ == v@.subrange(1, i as int),
            decreases n - i,
        {
            rest.push(v[i]);
            assert(rest@ =~= v@.subrange(1, i + 1 as int));
            i += 1;
        }
        assert(rest@ =~= v@.drop_first());
        let ghost d = v@.drop_first();
        match parse_u64_chars(&rest) {
            Some(m) => {
                proof {
                    lemma_digits_val_nonneg(d);
                    assert(digits_val(d) == m);
                }
                if m <= 9223372036854775808u64 {
                    let r = ((-(m as i128)) as i64);
                    proof {
                        assert(r as int == -(m as int));
                        assert(parse_i64_str(v@) == Some(r));
                    }
                    Some(r)
                } else {
                    proof {
                        assert(-digits_val(d) < i64::MIN);
                        assert(parse_i64_str(v@) is None);
                    }
                    None
                }
            },
            None => {
                proof {
                    assert(parse_i64_str(v@) is None) by {
                        if d.len() > 0 && all_digits(d) && -digits_val(d) >= i64::MIN {
                            lemma_digits_val_nonneg(d);
                            assert(digits_val(d) <= u64::MAX);
                            assert(parse_u64_str(d) is Some);
                        }
                    }
                }
                None
            },
        }
    } else {
        match parse_u64_chars(v) {
            Some(m) => {
                proof {
                    assert(v@.len() > 0 && all_digits(v@));
                    lemma_digits_val_nonneg(v@);
                    assert(digits_val(v@) == m);
                }
                if m <= 9223372036854775807u64 {
                    let r = m as i64;
                    proof {
                        assert(parse_i64_str(v@) == Some(r));
                    }
                    Some(r)
                } else {
                    proof {
                        assert(parse_i64_str(v@) is None);
                    }
                    None
                }
            },
            None => {
                proof {
                    assert(parse_i64_str(v@) is None);
                }
                None
            },
        }
    }
}

} // verus!
