//! Signs and verifies session cookie values, keyed by a server-held secret.
use std::sync::Arc;

use hmac::{Hmac, Mac};
use rand_core::{OsRng, RngCore};
use sha2::Sha256;
use vstd::prelude::*;

use super::decimal::{
    decimal_digits, is_digit, lemma_decimal_digits, lemma_parse_i64_round_trip,
    lemma_parse_u64_round_trip, parse_i64, parse_u64, parsed_i64, parsed_u64, push_decimal,
    push_signed_decimal, signed_decimal,
};
use super::hex::{decode_hex_chars, encode_hex, hex_decoding, hex_encoding, lemma_hex_round_trip};
use super::text::chars_of;

verus! {

/// The HMAC-SHA256 tag of `msg` under `key`, as the `hmac` and `sha2` crates
/// compute it.
pub uninterp spec fn hmac_sha256(key: Seq<u8>, msg: Seq<u8>) -> Seq<u8>;

/// Trusted: `Hmac::<Sha256>::new_from_slice(key)`, one `update(msg)`, then
/// `finalize().into_bytes()`. Claims the tag is the named HMAC of exactly
/// these key and message bytes, and is 32 bytes long (SHA-256's output
/// size). `new_from_slice` cannot fail for HMAC: its source hashes or pads
/// any key length.
#[verifier::external_body]
fn hmac_sha256_tag(key: &[u8], msg: &[u8]) -> (tag: Vec<u8>)
    ensures
        tag@ == hmac_sha256(key@, msg@),
        tag@.len() == 32,
{
    let mut mac = Hmac::<Sha256>::new_from_slice(key).expect("HMAC accepts any key length");
    mac.update(msg);
    mac.finalize().into_bytes().to_vec()
}

/// Trusted: `Hmac::<Sha256>::new_from_slice(key)`, one `update(msg)`, then
/// `verify_slice(tag)`. Claims, as digest's source shows, that the check
/// succeeds exactly when `tag` equals the computed tag byte for byte
/// (compared in constant time), and only for a tag of SHA-256's 32-byte
/// output length (`verify_slice` checks the length first).
#[verifier::external_body]
fn hmac_sha256_matches(key: &[u8], msg: &[u8], tag: &[u8]) -> (ok: bool)
    ensures
        ok == (tag@ == hmac_sha256(key@, msg@)),
        ok ==> tag@.len() == 32,
{
    let mut mac = Hmac::<Sha256>::new_from_slice(key).expect("HMAC accepts any key length");
    mac.update(msg);
    mac.verify_slice(tag).is_ok()
}

/// Trusted: fills a 32-byte buffer from `rand_core::OsRng::fill_bytes`.
/// Only the length is claimed; the bytes come from the operating system's
/// random source (rand_core's `fill_bytes` panics if that source fails).
#[verifier::external_body]
fn random_key() -> (key: Vec<u8>)
    ensures
        key@.len() == 32,
{
    let mut key = [0u8; 32];
    OsRng.fill_bytes(&mut key);
    key.to_vec()
}

/// The little-endian bytes of `x`, as `u64::to_le_bytes` lays them out.
pub open spec fn le_bytes(x: u64) -> Seq<u8> {
    Seq::new(8, |i: int| ((x >> ((8 * i) as u64)) & 0xff) as u8)
}

/// The MAC input for a user id and expiry: the little-endian bytes of the id
/// followed by those of the expiry. Both are eight bytes, so the
/// concatenation is unambiguous.
pub open spec fn mac_message(uid: u64, expires_at: i64) -> Seq<u8> {
    le_bytes(uid) + le_bytes(expires_at as u64)
}

/// The cookie text for an id, expiry and tag: `"<id>.<expires_at>.<hex-tag>"`.
pub open spec fn cookie_text(uid: u64, expires_at: i64, tag: Seq<u8>) -> Seq<char> {
    decimal_digits(uid as nat) + seq!['.'] + signed_decimal(expires_at as int) + seq!['.']
        + hex_encoding(tag)
}

/// The signed cookie a signer with `key` issues for `uid` and `expires_at`.
pub open spec fn signed_cookie(key: Seq<u8>, uid: u64, expires_at: i64) -> Seq<char> {
    cookie_text(uid, expires_at, hmac_sha256(key, mac_message(uid, expires_at)))
}

/// Whether `i` is the index of the first `.` in `s`.
pub open spec fn is_first_dot(s: Seq<char>, i: int) -> bool {
    &&& 0 <= i < s.len()
    &&& s[i] == '.'
    &&& forall|j: int| 0 <= j < i ==> s[j] != '.'
}

/// `s` split around its first `.`, as `str::split_once('.')` does.
pub open spec fn split_at_first_dot(s: Seq<char>) -> Option<(Seq<char>, Seq<char>)> {
    if exists|i: int| is_first_dot(s, i) {
        let i = choose|i: int| is_first_dot(s, i);
        Some((s.take(i), s.skip(i + 1)))
    } else {
        None
    }
}

/// The `(user id, expires_at)` that a cookie value authenticates under `key`:
/// the value must read `<id>.<expiry>.<hex>` (split at its first two dots),
/// the id and expiry must parse as `u64` and `i64`, the hex must decode, and
/// the decoded bytes must equal the HMAC of the id and expiry.
pub open spec fn cookie_claims(key: Seq<u8>, value: Seq<char>) -> Option<(u64, i64)> {
    match split_at_first_dot(value) {
        None => None,
        Some((id_text, rest)) => match split_at_first_dot(rest) {
            None => None,
            Some((exp_text, tag_text)) => match (
                parsed_u64(id_text),
                parsed_i64(exp_text),
                hex_decoding(tag_text),
            ) {
                (Some(uid), Some(expires_at), Some(tag)) => if tag == hmac_sha256(
                    key,
                    mac_message(uid, expires_at),
                ) {
                    Some((uid, expires_at))
                } else {
                    None
                },
                _ => None,
            },
        },
    }
}

/// Signs and verifies session cookie values, keyed by a server-held secret.
///
/// Cheap to clone (the key is shared behind an `Arc`), so it can live in the
/// per-request handler state.
#[derive(Clone)]
pub struct SessionSigner {
    key: Arc<Vec<u8>>,
}

impl SessionSigner {
    /// The secret key this signer uses.
    pub closed spec fn key(&self) -> Seq<u8> {
        self.key@
    }

    /// Build a signer from a caller-supplied secret (e.g. an env var), so that
    /// signed cookies survive a restart and are valid across every node that
    /// shares the secret. HMAC accepts a key of any length, but short keys
    /// weaken it.
    pub fn from_secret(secret: &[u8]) -> (signer: Self)
        ensures
            signer.key() == secret@,
    {
        SessionSigner { key: Arc::new(vstd::slice::slice_to_vec(secret)) }
    }

    /// Build a signer with a fresh random 256-bit key. The key is ephemeral:
    /// existing sessions are invalidated on restart, and it is not shared
    /// across a cluster. Prefer [`from_secret`](Self::from_secret) in any real
    /// deployment.
    pub fn ephemeral() -> (signer: Self)
        ensures
            signer.key().len() == 32,
    {
        SessionSigner { key: Arc::new(random_key()) }
    }

    /// The signed cookie value for a user id and its absolute expiry (a Unix
    /// timestamp, in seconds): `"<id>.<expires_at>.<hex-mac>"`. The tag covers
    /// both id and expiry, so neither can be altered.
    pub fn sign(&self, uid: u64, expires_at: i64) -> (cookie: String)
        ensures
            cookie@ == signed_cookie(self.key(), uid, expires_at),
            hmac_sha256(self.key(), mac_message(uid, expires_at)).len() == 32,
            hex_encoding(hmac_sha256(self.key(), mac_message(uid, expires_at))).len() == 64,
    {
        let mut cookie = String::new();
        push_decimal(&mut cookie, uid);
        proof {
            reveal_strlit(".");
        }
        cookie.append(".");
        push_signed_decimal(&mut cookie, expires_at);
        cookie.append(".");
        let tag = self.tag(uid, expires_at);
        cookie.append(tag.as_str());
        assert(cookie@ =~= signed_cookie(self.key(), uid, expires_at));
        cookie
    }

    /// Recover `(user id, expires_at)` from a signed cookie value, or `None` if
    /// the value is malformed or its tag doesn't verify. The tag comparison is
    /// constant-time. The clock is not checked: the caller compares
    /// `expires_at` against now.
    pub fn verify(&self, value: &str) -> (claims: Option<(u64, i64)>)
        ensures
            claims == cookie_claims(self.key(), value@),
            claims matches Some((uid, expires_at)) ==> hmac_sha256(self.key(), mac_message(uid, expires_at)).len()
                == 32,
    {
        let cs = chars_of(value);
        let n = cs.len();
        let ghost s = cs@;
        assert(s.skip(0) =~= s);
        let first = find_dot(&cs, 0);
        let i = match first {
            None => {
                proof {
                    lemma_no_dot_no_split(s, 0);
                }
                return None;
            },
            Some(i) => i,
        };
        proof {
            lemma_split_at(s, 0, i as int);
        }
        let ghost rest = s.skip(i + 1);
        let second = find_dot(&cs, i + 1);
        let j = match second {
            None => {
                proof {
                    lemma_no_dot_no_split(s, i + 1);
                }
                return None;
            },
            Some(j) => j,
        };
        proof {
            lemma_split_at(s, i + 1, j as int);
            assert(s.skip(i + 1).take(j - (i + 1)) =~= s.subrange(i + 1, j as int));
            assert(s.skip(i + 1).skip(j - (i + 1) + 1) =~= s.subrange(j + 1, n as int));
            assert(s.take(i as int) =~= s.subrange(0, i as int));
        }
        let uid = match parse_u64(&cs, 0, i) {
            Some(u) => u,
            None => {
                return None;
            },
        };
        let expires_at = match parse_i64(&cs, i + 1, j) {
            Some(e) => e,
            None => {
                return None;
            },
        };
        let tag_chars = sub_chars(&cs, j + 1, n);
        let provided = match decode_hex_chars(&tag_chars) {
            Some(t) => t,
            None => {
                return None;
            },
        };
        let msg = mac_input(uid, expires_at);
        if hmac_sha256_matches((*self.key).as_slice(), msg.as_slice(), provided.as_slice()) {
            Some((uid, expires_at))
        } else {
            None
        }
    }

    /// The hex-encoded HMAC tag over a user id and its expiry.
    fn tag(&self, uid: u64, expires_at: i64) -> (t: String)
        ensures
            t@ == hex_encoding(hmac_sha256(self.key(), mac_message(uid, expires_at))),
            hmac_sha256(self.key(), mac_message(uid, expires_at)).len() == 32,
    {
        let msg = mac_input(uid, expires_at);
        let bytes = hmac_sha256_tag((*self.key).as_slice(), msg.as_slice());
        encode_hex(bytes.as_slice())
    }
}

/// Append the little-endian bytes of `x` to `out`.
fn push_le_bytes(out: &mut Vec<u8>, x: u64)
    ensures
        final(out)@ == old(out)@ + le_bytes(x),
{
    let ghost start = out@;
    let mut i: u64 = 0;
    while i < 8
        invariant
            i <= 8,
            out@ == start + le_bytes(x).take(i as int),
        decreases 8 - i,
    {
        out.push(((x >> (8 * i)) & 0xff) as u8);
        assert(le_bytes(x).take(i + 1) =~= le_bytes(x).take(i as int).push(
            ((x >> ((8 * i) as u64)) & 0xff) as u8,
        ));
        i = i + 1;
    }
    assert(le_bytes(x).take(8) =~= le_bytes(x));
}

/// The MAC input bytes for a user id and expiry.
fn mac_input(uid: u64, expires_at: i64) -> (msg: Vec<u8>)
    ensures
        msg@ == mac_message(uid, expires_at),
{
    let mut msg: Vec<u8> = Vec::new();
    push_le_bytes(&mut msg, uid);
    push_le_bytes(&mut msg, expires_at as u64);
    assert(msg@ =~= mac_message(uid, expires_at));
    msg
}

/// The index of the first `.` at or after `from`.
fn find_dot(cs: &Vec<char>, from: usize) -> (r: Option<usize>)
    requires
        from <= cs@.len(),
    ensures
        match r {
            Some(i) => from <= i < cs@.len() && cs@[i as int] == '.' && forall|j: int|
                from <= j < i ==> cs@[j] != '.',
            None => forall|j: int| from <= j < cs@.len() ==> cs@[j] != '.',
        },
{
    let mut k = from;
    while k < cs.len()
        invariant
            from <= k <= cs@.len(),
            forall|j: int| from <= j < k ==> cs@[j] != '.',
        decreases cs@.len() - k,
    {
        if cs[k] == '.' {
            return Some(k);
        }
        k = k + 1;
    }
    None
}

/// The characters `cs[lo..hi]` as a new vector.
fn sub_chars(cs: &Vec<char>, lo: usize, hi: usize) -> (v: Vec<char>)
    requires
        lo <= hi <= cs@.len(),
    ensures
        v@ == cs@.subrange(lo as int, hi as int),
{
    let mut v: Vec<char> = Vec::new();
    let mut k = lo;
    while k < hi
        invariant
            lo <= k <= hi <= cs@.len(),
            v@ == cs@.subrange(lo as int, k as int),
        decreases hi - k,
    {
        v.push(cs[k]);
        assert(cs@.subrange(lo as int, k + 1) =~= cs@.subrange(lo as int, k as int).push(cs@[k as int]));
        k = k + 1;
    }
    v
}

/// Two first-dot indexes of one string coincide.
proof fn lemma_first_dot_unique(s: Seq<char>, a: int, b: int)
    requires
        is_first_dot(s, a),
        is_first_dot(s, b),
    ensures
        a == b,
{
    if a < b {
        assert(s[a] != '.');
    } else if b < a {
        assert(s[b] != '.');
    }
}

/// With the first `.` of `s.skip(from)` at absolute index `i`, the split of
/// that suffix is at `i`.
proof fn lemma_split_at(s: Seq<char>, from: int, i: int)
    requires
        0 <= from <= i < s.len(),
        s[i] == '.',
        forall|j: int| from <= j < i ==> s[j] != '.',
    ensures
        split_at_first_dot(s.skip(from)) == Some(
            (s.skip(from).take(i - from), s.skip(from).skip(i - from + 1)),
        ),
{
    let t = s.skip(from);
    assert(is_first_dot(t, i - from));
    let c = choose|k: int| is_first_dot(t, k);
    lemma_first_dot_unique(t, c, i - from);
}

/// Without a `.` in `s.skip(from)`, that suffix does not split.
proof fn lemma_no_dot_no_split(s: Seq<char>, from: int)
    requires
        0 <= from <= s.len(),
        forall|j: int| from <= j < s.len() ==> s[j] != '.',
    ensures
        split_at_first_dot(s.skip(from)) is None,
{
    let t = s.skip(from);
    assert forall|k: int| !is_first_dot(t, k) by {
        if 0 <= k < t.len() {
            assert(t[k] == s[from + k]);
        }
    }
}

/// No character of an integer's decimal text is a `.`.
proof fn lemma_decimal_has_no_dot(uid: u64, expires_at: i64)
    ensures
        forall|j: int| 0 <= j < decimal_digits(uid as nat).len() ==> decimal_digits(uid as nat)[j] != '.',
        forall|j: int| 0 <= j < signed_decimal(expires_at as int).len() ==> signed_decimal(expires_at as int)[j] != '.',
{
    lemma_decimal_digits(uid as nat);
    let d = decimal_digits(uid as nat);
    assert forall|j: int| 0 <= j < d.len() implies d[j] != '.' by {
        assert(is_digit(d[j]));
    }
    let e = signed_decimal(expires_at as int);
    if expires_at < 0 {
        let m = decimal_digits((-expires_at) as nat);
        lemma_decimal_digits((-expires_at) as nat);
        assert forall|j: int| 0 <= j < e.len() implies e[j] != '.' by {
            if j > 0 {
                assert(e[j] == m[j - 1]);
                assert(is_digit(m[j - 1]));
            }
        }
    } else {
        lemma_decimal_digits(expires_at as nat);
        assert forall|j: int| 0 <= j < e.len() implies e[j] != '.' by {
            assert(is_digit(e[j]));
        }
    }
}

/// A cookie reading `<id>.<expiry>.<hex>` is accepted exactly when its tag is
/// the HMAC of that id and expiry under the key, and then yields that id and
/// expiry.
pub proof fn law_cookie_accepted_iff_tag_matches(key: Seq<u8>, uid: u64, expires_at: i64, tag: Seq<u8>)
    ensures
        cookie_claims(key, cookie_text(uid, expires_at, tag)) == if tag == hmac_sha256(
            key,
            mac_message(uid, expires_at),
        ) {
            Some((uid, expires_at))
        } else {
            None::<(u64, i64)>
        },
{
    let d = decimal_digits(uid as nat);
    let e = signed_decimal(expires_at as int);
    let h = hex_encoding(tag);
    let c = cookie_text(uid, expires_at, tag);
    let r = e + seq!['.'] + h;
    lemma_decimal_has_no_dot(uid, expires_at);
    assert(c =~= d + seq!['.'] + r);
    assert(c.skip(0) =~= c);
    assert forall|j: int| 0 <= j < d.len() implies c[j] != '.' by {
        assert(c[j] == d[j]);
    }
    lemma_split_at(c, 0, d.len() as int);
    assert(c.take(d.len() as int) =~= d);
    assert(c.skip(d.len() as int + 1) =~= r);
    assert(r.skip(0) =~= r);
    assert forall|j: int| 0 <= j < e.len() implies r[j] != '.' by {
        assert(r[j] == e[j]);
    }
    lemma_split_at(r, 0, e.len() as int);
    assert(r.take(e.len() as int) =~= e);
    assert(r.skip(e.len() as int + 1) =~= h);
    lemma_parse_u64_round_trip(uid);
    lemma_parse_i64_round_trip(expires_at);
    lemma_hex_round_trip(tag);
}

/// A signer accepts every cookie it signed, and recovers exactly the id and
/// expiry it signed: `verify(sign(uid, expires_at)) == Some((uid, expires_at))`.
pub proof fn lemma_signed_cookie_verifies(key: Seq<u8>, uid: u64, expires_at: i64)
    ensures
        cookie_claims(key, signed_cookie(key, uid, expires_at)) == Some((uid, expires_at)),
{
    law_cookie_accepted_iff_tag_matches(key, uid, expires_at, hmac_sha256(key, mac_message(uid, expires_at)));
}

/// The MAC input is unambiguous: two different `(id, expiry)` pairs never
/// share one, so a tag speaks for exactly one id and one expiry.
pub proof fn law_mac_message_is_unambiguous(uid1: u64, expires1: i64, uid2: u64, expires2: i64)
    requires
        mac_message(uid1, expires1) == mac_message(uid2, expires2),
    ensures
        uid1 == uid2,
        expires1 == expires2,
{
    let m1 = mac_message(uid1, expires1);
    let m2 = mac_message(uid2, expires2);
    let x1 = expires1 as u64;
    let x2 = expires2 as u64;
    assert(le_bytes(x1) =~= m1.skip(8));
    assert(le_bytes(x2) =~= m2.skip(8));
    assert(le_bytes(uid1) =~= m1.take(8));
    assert(le_bytes(uid2) =~= m2.take(8));
    lemma_le_bytes_injective(uid1, uid2);
    lemma_le_bytes_injective(x1, x2);
    assert(expires1 == expires2) by (bit_vector)
        requires
            expires1 as u64 == expires2 as u64,
    ;
}

/// A tag lifted from one signed cookie onto another id or expiry is accepted
/// only if HMAC-SHA256 gives the two different MAC inputs the same tag.
pub proof fn law_moved_tag_needs_a_collision(key: Seq<u8>, uid: u64, expires_at: i64, other_uid: u64, other_expiry: i64)
    requires
        (uid, expires_at) != (other_uid, other_expiry),
        cookie_claims(key, cookie_text(other_uid, other_expiry, hmac_sha256(key, mac_message(uid, expires_at))))
            is Some,
    ensures
        mac_message(uid, expires_at) != mac_message(other_uid, other_expiry),
        hmac_sha256(key, mac_message(uid, expires_at)) == hmac_sha256(key, mac_message(other_uid, other_expiry)),
{
    law_cookie_accepted_iff_tag_matches(key, other_uid, other_expiry, hmac_sha256(key, mac_message(uid, expires_at)));
    if mac_message(uid, expires_at) == mac_message(other_uid, other_expiry) {
        law_mac_message_is_unambiguous(uid, expires_at, other_uid, other_expiry);
    }
}

/// Byte `k` (from the least significant) of `x`.
spec fn byte_of(x: u64, k: int) -> u8 {
    ((x >> ((8 * k) as u64)) & 0xff) as u8
}

/// Equal little-endian bytes mean equal numbers.
proof fn lemma_le_bytes_injective(x: u64, y: u64)
    requires
        le_bytes(x) == le_bytes(y),
    ensures
        x == y,
{
    assert(le_bytes(x)[0] == byte_of(x, 0));
    assert(le_bytes(x)[1] == byte_of(x, 1));
    assert(le_bytes(x)[2] == byte_of(x, 2));
    assert(le_bytes(x)[3] == byte_of(x, 3));
    assert(le_bytes(x)[4] == byte_of(x, 4));
    assert(le_bytes(x)[5] == byte_of(x, 5));
    assert(le_bytes(x)[6] == byte_of(x, 6));
    assert(le_bytes(x)[7] == byte_of(x, 7));
    assert(le_bytes(y)[0] == byte_of(y, 0));
    assert(le_bytes(y)[1] == byte_of(y, 1));
    assert(le_bytes(y)[2] == byte_of(y, 2));
    assert(le_bytes(y)[3] == byte_of(y, 3));
    assert(le_bytes(y)[4] == byte_of(y, 4));
    assert(le_bytes(y)[5] == byte_of(y, 5));
    assert(le_bytes(y)[6] == byte_of(y, 6));
    assert(le_bytes(y)[7] == byte_of(y, 7));
    assert(x == y) by (bit_vector)
        requires
            ((x >> 0u64) & 0xff) as u8 == ((y >> 0u64) & 0xff) as u8,
            ((x >> 8u64) & 0xff) as u8 == ((y >> 8u64) & 0xff) as u8,
            ((x >> 16u64) & 0xff) as u8 == ((y >> 16u64) & 0xff) as u8,
            ((x >> 24u64) & 0xff) as u8 == ((y >> 24u64) & 0xff) as u8,
            ((x >> 32u64) & 0xff) as u8 == ((y >> 32u64) & 0xff) as u8,
            ((x >> 40u64) & 0xff) as u8 == ((y >> 40u64) & 0xff) as u8,
            ((x >> 48u64) & 0xff) as u8 == ((y >> 48u64) & 0xff) as u8,
            ((x >> 56u64) & 0xff) as u8 == ((y >> 56u64) & 0xff) as u8,
    ;
}

} // verus!
