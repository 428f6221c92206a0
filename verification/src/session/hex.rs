//! Lower-case hexadecimal encoding of MAC tags, and its lenient decoding.
use vstd::prelude::*;

use super::text::{chars_of, digit_char, push_digit};

verus! {

/// The lower-case hex text of `bytes`: two digits per byte, high nibble first.
pub open spec fn hex_encoding(bytes: Seq<u8>) -> Seq<char> {
    Seq::new(
        2 * bytes.len(),
        |i: int|
            if i % 2 == 0 {
                digit_char((bytes[i / 2] / 16) as int)
            } else {
                digit_char((bytes[i / 2] % 16) as int)
            },
    )
}

/// The value of one hex digit in either case (`0`–`9`, `a`–`f`, `A`–`F`), as
/// `char::to_digit(16)` reads it; `None` for any other character.
pub open spec fn hex_value(c: char) -> Option<u8> {
    if '0' <= c && c <= '9' {
        Some((c as int - '0' as int) as u8)
    } else if 'a' <= c && c <= 'f' {
        Some((c as int - 'a' as int + 10) as u8)
    } else if 'A' <= c && c <= 'F' {
        Some((c as int - 'A' as int + 10) as u8)
    } else {
        None
    }
}

/// Whether every character of `s` is a hex digit.
pub open spec fn all_hex(s: Seq<char>) -> bool {
    forall|i: int| 0 <= i < s.len() ==> (#[trigger] hex_value(s[i])) is Some
}

/// The byte spelled by the two hex digits `hi` and `lo`.
pub open spec fn hex_pair(hi: char, lo: char) -> u8 {
    (hex_value(hi)->0 * 16 + hex_value(lo)->0) as u8
}

/// The bytes that hex text `s` spells: `None` when its length is odd or it
/// holds a character that is not a hex digit.
pub open spec fn hex_decoding(s: Seq<char>) -> Option<Seq<u8>> {
    if s.len() % 2 == 0 && all_hex(s) {
        Some(Seq::new(s.len() / 2, |i: int| hex_pair(s[2 * i], s[2 * i + 1])))
    } else {
        None
    }
}

/// Encode bytes as lower-case hex.
pub fn encode_hex(bytes: &[u8]) -> (s: String)
    requires
        2 * bytes@.len() <= usize::MAX,
    ensures
        s@ == hex_encoding(bytes@),
{
    let mut s = String::new();
    let n = bytes.len();
    let mut i: usize = 0;
    while i < n
        invariant
            n == bytes@.len(),
            i <= n,
            s@ == hex_encoding(bytes@.take(i as int)),
        decreases n - i,
    {
        let b = bytes[i];
        push_digit(&mut s, b / 16);
        push_digit(&mut s, b % 16);
        assert(hex_encoding(bytes@.take(i + 1)) =~= hex_encoding(bytes@.take(i as int)).push(
            digit_char((b / 16) as int),
        ).push(digit_char((b % 16) as int)));
        i = i + 1;
    }
    assert(bytes@.take(n as int) =~= bytes@);
    s
}

/// The value of one hex digit, as `char::to_digit(16)` computes it.
fn hex_digit_value(c: char) -> (r: Option<u8>)
    ensures
        r == hex_value(c),
{
    if '0' <= c && c <= '9' {
        Some((c as u32 - '0' as u32) as u8)
    } else if 'a' <= c && c <= 'f' {
        Some((c as u32 - 'a' as u32 + 10) as u8)
    } else if 'A' <= c && c <= 'F' {
        Some((c as u32 - 'A' as u32 + 10) as u8)
    } else {
        None
    }
}

/// Decode hex text (either case) into bytes; `None` if its length is odd or it
/// holds a non-hex character.
pub fn decode_hex(s: &str) -> (r: Option<Vec<u8>>)
    ensures
        r matches Some(v) ==> hex_decoding(s@) == Some(v@),
        r is None ==> hex_decoding(s@) is None,
{
    let cs = chars_of(s);
    decode_hex_chars(&cs)
}

/// `decode_hex` over a character vector.
pub fn decode_hex_chars(cs: &Vec<char>) -> (r: Option<Vec<u8>>)
    ensures
        r matches Some(v) ==> hex_decoding(cs@) == Some(v@),
        r is None ==> hex_decoding(cs@) is None,
{
    let n = cs.len();
    if n % 2 != 0 {
        return None;
    }
    let mut out: Vec<u8> = Vec::new();
    let mut k: usize = 0;
    while k < n / 2
        invariant
            n == cs@.len(),
            n % 2 == 0,
            k <= n / 2,
            out@.len() == k,
            forall|j: int| 0 <= j < 2 * k ==> (#[trigger] hex_value(cs@[j])) is Some,
            forall|j: int| 0 <= j < k ==> #[trigger] out@[j] == hex_pair(cs@[2 * j], cs@[2 * j + 1]),
        decreases n / 2 - k,
    {
        let hi = hex_digit_value(cs[2 * k]);
        let lo = hex_digit_value(cs[2 * k + 1]);
        match (hi, lo) {
            (Some(h), Some(l)) => {
                out.push(h * 16 + l);
            },
            _ => {
                assert(!all_hex(cs@));
                return None;
            },
        }
        k = k + 1;
    }
    assert(all_hex(cs@)) by {
        assert forall|j: int| 0 <= j < cs@.len() implies (#[trigger] hex_value(cs@[j])) is Some by {
            assert(j < 2 * k);
        }
    }
    assert(out@ =~= Seq::new(cs@.len() / 2, |i: int| hex_pair(cs@[2 * i], cs@[2 * i + 1])));
    Some(out)
}

/// Decoding inverts encoding.
pub proof fn lemma_hex_round_trip(bytes: Seq<u8>)
    ensures
        hex_decoding(hex_encoding(bytes)) == Some(bytes),
{
    let s = hex_encoding(bytes);
    assert forall|i: int| 0 <= i < s.len() implies (#[trigger] hex_value(s[i])) is Some by {
        let b = bytes[i / 2];
        assert(b / 16 < 16);
    }
    let decoded = Seq::new(s.len() / 2, |i: int| hex_pair(s[2 * i], s[2 * i + 1]));
    assert forall|i: int| 0 <= i < bytes.len() implies decoded[i] == bytes[i] by {
        let b = bytes[i];
        assert(s[2 * i] == digit_char((b / 16) as int));
        assert(s[2 * i + 1] == digit_char((b % 16) as int));
        assert((b / 16) * 16 + b % 16 == b);
    }
    assert(decoded =~= bytes);
}

} // verus!
