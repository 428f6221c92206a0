//! Decimal text of integers, and parsing it back as Rust's `str::parse` does.
use vstd::prelude::*;

use super::text::{digit_char, push_digit};

verus! {

/// The decimal digits of `n`, most significant first, with no leading zero
/// (`"0"` for zero) — what `format!("{n}")` writes for an unsigned integer.
pub open spec fn decimal_digits(n: nat) -> Seq<char>
    decreases n,
{
    if n < 10 {
        seq![digit_char(n as int)]
    } else {
        decimal_digits(n / 10).push(digit_char((n % 10) as int))
    }
}

/// The decimal text of a signed integer: a `-` before the digits of its
/// magnitude when it is negative — what `format!("{i}")` writes.
pub open spec fn signed_decimal(i: int) -> Seq<char> {
    if i < 0 {
        seq!['-'] + decimal_digits((-i) as nat)
    } else {
        decimal_digits(i as nat)
    }
}

/// Whether `c` is one of the ASCII digits `0`–`9`.
pub open spec fn is_digit(c: char) -> bool {
    '0' <= c && c <= '9'
}

/// Whether every character of `s` is an ASCII digit.
pub open spec fn all_digits(s: Seq<char>) -> bool {
    forall|i: int| 0 <= i < s.len() ==> #[trigger] is_digit(s[i])
}

/// The number a string of ASCII digits spells in base ten.
pub open spec fn digits_value(s: Seq<char>) -> nat
    decreases s.len(),
{
    if s.len() == 0 {
        0
    } else {
        digits_value(s.drop_last()) * 10 + (s.last() as int - '0' as int) as nat
    }
}

/// The magnitude spelled by a non-empty run of digits, if it is one.
pub open spec fn digit_run_value(s: Seq<char>) -> Option<nat> {
    if s.len() > 0 && all_digits(s) {
        Some(digits_value(s))
    } else {
        None
    }
}

/// `s` without one leading `+`, if it has one.
pub open spec fn strip_plus(s: Seq<char>) -> Seq<char> {
    if s.len() > 0 && s[0] == '+' {
        s.drop_first()
    } else {
        s
    }
}

/// What `s.parse::<u64>()` yields: an optional `+`, then one or more ASCII
/// digits whose value fits in a `u64`; anything else is an error (`None`).
pub open spec fn parsed_u64(s: Seq<char>) -> Option<u64> {
    match digit_run_value(strip_plus(s)) {
        Some(v) => if v <= u64::MAX {
            Some(v as u64)
        } else {
            None
        },
        None => None,
    }
}

/// What `s.parse::<i64>()` yields: a `-` then digits of a magnitude up to
/// 2^63, or an optional `+` then digits of a value up to `i64::MAX`.
pub open spec fn parsed_i64(s: Seq<char>) -> Option<i64> {
    if s.len() > 0 && s[0] == '-' {
        match digit_run_value(s.drop_first()) {
            Some(v) => if v <= 0x8000_0000_0000_0000 {
                Some((-v) as i64)
            } else {
                None
            },
            None => None,
        }
    } else {
        match digit_run_value(strip_plus(s)) {
            Some(v) => if v <= i64::MAX {
                Some(v as i64)
            } else {
                None
            },
            None => None,
        }
    }
}

/// Append the decimal digits of `n` to `s`.
pub fn push_decimal(s: &mut String, n: u64)
    ensures
        final(s)@ == old(s)@ + decimal_digits(n as nat),
    decreases n,
{
    if n >= 10 {
        push_decimal(s, n / 10);
    }
    push_digit(s, (n % 10) as u8);
    proof {
        if n >= 10 {
            assert(decimal_digits(n as nat) == decimal_digits((n / 10) as nat).push(
                digit_char((n % 10) as int),
            ));
        }
    }
}

/// Append the decimal text of the signed `i` to `s`.
pub fn push_signed_decimal(s: &mut String, i: i64)
    ensures
        final(s)@ == old(s)@ + signed_decimal(i as int),
{
    if i < 0 {
        proof {
            reveal_strlit("-");
        }
        s.append("-");
        let magnitude: u64 = if i == i64::MIN {
            0x8000_0000_0000_0000u64
        } else {
            (-i) as u64
        };
        push_decimal(s, magnitude);
    } else {
        push_decimal(s, i as u64);
    }
}

/// Each prefix of a digit run spells at most the run's value.
proof fn lemma_prefix_value_le(s: Seq<char>, k: int)
    requires
        0 <= k <= s.len(),
        all_digits(s),
    ensures
        digits_value(s.take(k)) <= digits_value(s),
    decreases s.len(),
{
    if k < s.len() {
        assert(all_digits(s.drop_last()));
        assert(s.drop_last().take(k) =~= s.take(k));
        lemma_prefix_value_le(s.drop_last(), k);
        assert(is_digit(s[s.len() - 1]));
    } else {
        assert(s.take(k) =~= s);
    }
}

/// The value of a digit run, if it is non-empty, all digits, and fits in a
/// `u64`.
fn parse_digit_run(cs: &Vec<char>, lo: usize, hi: usize) -> (r: Option<u64>)
    requires
        lo <= hi <= cs@.len(),
    ensures
        ({
            let s = cs@.subrange(lo as int, hi as int);
            match digit_run_value(s) {
                Some(v) => if v <= u64::MAX {
                    r == Some(v as u64)
                } else {
                    r is None
                },
                None => r is None,
            }
        }),
{
    let ghost s = cs@.subrange(lo as int, hi as int);
    if lo == hi {
        return None;
    }
    let mut v: u64 = 0;
    let mut k: usize = lo;
    while k < hi
        invariant
            lo <= k <= hi <= cs@.len(),
            s == cs@.subrange(lo as int, hi as int),
            all_digits(s.take(k - lo)),
            v as nat == digits_value(s.take(k - lo)),
        decreases hi - k,
    {
        let c = cs[k];
        if !('0' <= c && c <= '9') {
            assert(!is_digit(s[k - lo]));
            return None;
        }
        let d = (c as u32 - '0' as u32) as u64;
        let ghost t = s.take(k - lo + 1);
        assert(t.drop_last() =~= s.take(k - lo));
        assert(digits_value(t) == digits_value(s.take(k - lo)) * 10 + d);
        assert(all_digits(t));
        let step = match v.checked_mul(10) {
            Some(v10) => v10.checked_add(d),
            None => None,
        };
        match step {
            Some(nv) => {
                v = nv;
            },
            None => {
                proof {
                    if all_digits(s) {
                        lemma_prefix_value_le(s, k - lo + 1);
                    }
                }
                return None;
            },
        }
        k = k + 1;
    }
    assert(s.take(hi - lo) =~= s);
    Some(v)
}

/// Parse `cs[lo..hi]` as `str::parse::<u64>` does.
pub fn parse_u64(cs: &Vec<char>, lo: usize, hi: usize) -> (r: Option<u64>)
    requires
        lo <= hi <= cs@.len(),
    ensures
        r == parsed_u64(cs@.subrange(lo as int, hi as int)),
{
    let ghost s = cs@.subrange(lo as int, hi as int);
    if lo < hi && cs[lo] == '+' {
        assert(strip_plus(s) =~= cs@.subrange(lo + 1, hi as int));
        parse_digit_run(cs, lo + 1, hi)
    } else {
        assert(strip_plus(s) == s);
        parse_digit_run(cs, lo, hi)
    }
}

/// Parse `cs[lo..hi]` as `str::parse::<i64>` does.
pub fn parse_i64(cs: &Vec<char>, lo: usize, hi: usize) -> (r: Option<i64>)
    requires
        lo <= hi <= cs@.len(),
    ensures
        r == parsed_i64(cs@.subrange(lo as int, hi as int)),
{
    let ghost s = cs@.subrange(lo as int, hi as int);
    if lo < hi && cs[lo] == '-' {
        assert(s.drop_first() =~= cs@.subrange(lo + 1, hi as int));
        match parse_digit_run(cs, lo + 1, hi) {
            Some(m) => {
                if m < 0x8000_0000_0000_0000u64 {
                    Some(-(m as i64))
                } else if m == 0x8000_0000_0000_0000u64 {
                    Some(i64::MIN)
                } else {
                    None
                }
            },
            None => None,
        }
    } else {
        let start = if lo < hi && cs[lo] == '+' {
            lo + 1
        } else {
            lo
        };
        assert(strip_plus(s) =~= cs@.subrange(start as int, hi as int));
        match parse_digit_run(cs, start, hi) {
            Some(m) => {
                if m <= 0x7fff_ffff_ffff_ffffu64 {
                    Some(m as i64)
                } else {
                    None
                }
            },
            None => None,
        }
    }
}

/// The decimal digits of `n` are a non-empty digit run spelling `n`.
pub proof fn lemma_decimal_digits(n: nat)
    ensures
        decimal_digits(n).len() > 0,
        all_digits(decimal_digits(n)),
        digits_value(decimal_digits(n)) == n,
    decreases n,
{
    let s = decimal_digits(n);
    if n < 10 {
        assert(s.drop_last() =~= Seq::<char>::empty());
        assert(s.last() as int == '0' as int + n);
        assert(digits_value(s.drop_last()) == 0);
        assert(digits_value(s) == digits_value(s.drop_last()) * 10 + (s.last() as int - '0' as int) as nat);
        assert(is_digit(s[0]));
    } else {
        lemma_decimal_digits(n / 10);
        let p = decimal_digits(n / 10);
        assert(s.drop_last() =~= p);
        assert(s.last() as int == '0' as int + n % 10);
        assert(digits_value(s) == digits_value(s.drop_last()) * 10 + (s.last() as int - '0' as int) as nat);
        assert forall|i: int| 0 <= i < s.len() implies #[trigger] is_digit(s[i]) by {
            if i < p.len() {
                assert(s[i] == p[i]);
            }
        }
    }
}

/// Parsing the decimal text of a `u64` gives it back.
pub proof fn lemma_parse_u64_round_trip(x: u64)
    ensures
        parsed_u64(decimal_digits(x as nat)) == Some(x),
{
    let s = decimal_digits(x as nat);
    lemma_decimal_digits(x as nat);
    assert(is_digit(s[0]));
    assert(strip_plus(s) == s);
}

/// Parsing the decimal text of an `i64` gives it back.
pub proof fn lemma_parse_i64_round_trip(x: i64)
    ensures
        parsed_i64(signed_decimal(x as int)) == Some(x),
{
    let s = signed_decimal(x as int);
    if x < 0 {
        let m = (-x) as nat;
        lemma_decimal_digits(m);
        assert(s.drop_first() =~= decimal_digits(m));
    } else {
        lemma_decimal_digits(x as nat);
        assert(is_digit(s[0]));
        assert(strip_plus(s) == s);
    }
}

} // verus!
