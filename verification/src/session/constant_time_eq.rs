//! Constant-time byte-string comparison for secret material.
use subtle::ConstantTimeEq;
use vstd::prelude::*;

verus! {

/// Trusted: `subtle::ConstantTimeEq::ct_eq` on two byte slices, with the
/// resulting `Choice` turned into a `bool`. Claims what subtle's source shows:
/// the choice is 1 exactly when the lengths agree and every byte pair agrees.
#[verifier::external_body]
fn ct_eq_bytes(a: &[u8], b: &[u8]) -> (r: bool)
    ensures
        r == (a@ == b@),
{
    a.ct_eq(b).into()
}

/// Compare two byte strings in constant time (with respect to their contents).
///
/// Use this for any secret comparison — bearer tokens, API keys — where a plain
/// `==` would short-circuit on the first differing byte and leak, through
/// response timing, how long a matching prefix an attacker guessed. Lengths may
/// still differ observably; that's fine for fixed-length or high-entropy secrets.
pub fn constant_time_eq(a: &[u8], b: &[u8]) -> (r: bool)
    ensures
        r == (a@ == b@),
{
    ct_eq_bytes(a, b)
}

} // verus!
