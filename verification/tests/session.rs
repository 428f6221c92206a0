use democratos_app::session::constant_time_eq::constant_time_eq;
use democratos_app::session::hex::{decode_hex, encode_hex};
use democratos_app::session::session_signer::SessionSigner;

#[test]
fn constant_time_eq_matches_semantics_of_eq() {
    assert!(constant_time_eq(b"Bearer secret", b"Bearer secret"));
    assert!(!constant_time_eq(b"Bearer secret", b"Bearer secreT"));
    assert!(!constant_time_eq(b"Bearer secret", b"Bearer"));
    assert!(!constant_time_eq(b"", b"x"));
    assert!(constant_time_eq(b"", b""));
}

#[test]
fn round_trips_a_signed_id() {
    let signer = SessionSigner::from_secret(b"a-test-secret-key");
    let cookie = signer.sign(42, 1_000);
    assert_eq!(signer.verify(&cookie), Some((42, 1_000)));
}

#[test]
fn rejects_a_forged_id() {
    let signer = SessionSigner::from_secret(b"a-test-secret-key");
    assert_eq!(signer.verify("1"), None);
    assert_eq!(signer.verify("1."), None);
    assert_eq!(signer.verify("1.deadbeef"), None);
    assert_eq!(signer.verify("1.1000.deadbeef"), None);
    assert_eq!(signer.verify("garbage"), None);
}

#[test]
fn rejects_a_tag_swapped_onto_another_id_or_expiry() {
    let signer = SessionSigner::from_secret(b"a-test-secret-key");
    let one = signer.sign(1, 1_000);
    let tag = one.rsplit_once('.').unwrap().1;
    assert_eq!(signer.verify(&format!("2.1000.{tag}")), None);
    assert_eq!(signer.verify(&format!("1.9999.{tag}")), None);
}

#[test]
fn a_cookie_from_another_key_is_rejected() {
    let issuer = SessionSigner::from_secret(b"issuer-secret");
    let attacker = SessionSigner::from_secret(b"different-secret");
    let cookie = issuer.sign(7, 1_000);
    assert_eq!(attacker.verify(&cookie), None);
    assert_eq!(issuer.verify(&cookie), Some((7, 1_000)));
}

#[test]
fn signed_cookie_has_the_documented_shape() {
    let signer = SessionSigner::from_secret(b"k");
    let cookie = signer.sign(42, -5);
    let parts: Vec<&str> = cookie.split('.').collect();
    assert_eq!(parts.len(), 3);
    assert_eq!(parts[0], "42");
    assert_eq!(parts[1], "-5");
    assert_eq!(parts[2].len(), 64);
    assert!(parts[2].chars().all(|c| c.is_ascii_hexdigit() && !c.is_ascii_uppercase()));
    assert_eq!(signer.verify(&cookie), Some((42, -5)));
}

#[test]
fn extreme_ids_and_expiries_round_trip() {
    let signer = SessionSigner::from_secret(b"k");
    for (uid, exp) in [(0u64, 0i64), (u64::MAX, i64::MIN), (u64::MAX, i64::MAX), (10, -10)] {
        let cookie = signer.sign(uid, exp);
        assert_eq!(signer.verify(&cookie), Some((uid, exp)));
    }
}

#[test]
fn verify_accepts_what_str_parse_accepts() {
    // `+` signs, leading zeros and an upper-case tag still name the same claims.
    let signer = SessionSigner::from_secret(b"k");
    let cookie = signer.sign(7, 30);
    let tag = cookie.rsplit_once('.').unwrap().1.to_string();
    assert_eq!(signer.verify(&format!("+007.+30.{tag}")), Some((7, 30)));
    assert_eq!(signer.verify(&format!("7.030.{}", tag.to_uppercase())), Some((7, 30)));
    assert_eq!(signer.verify(&format!("-7.30.{tag}")), None);
    assert_eq!(signer.verify(&format!("7.30.{tag}0")), None);
    assert_eq!(signer.verify(&format!("18446744073709551616.30.{tag}")), None);
}

#[test]
fn ephemeral_signers_round_trip_but_do_not_share_keys() {
    let a = SessionSigner::ephemeral();
    let b = SessionSigner::ephemeral();
    let cookie = a.sign(3, 9);
    assert_eq!(a.verify(&cookie), Some((3, 9)));
    assert_eq!(b.verify(&cookie), None);
}

#[test]
fn hex_codec_round_trips_and_rejects_bad_text() {
    assert_eq!(encode_hex(&[0x00, 0xab, 0xff]), "00abff");
    assert_eq!(decode_hex("00abff"), Some(vec![0x00, 0xab, 0xff]));
    assert_eq!(decode_hex("00ABFF"), Some(vec![0x00, 0xab, 0xff]));
    assert_eq!(decode_hex("abc"), None);
    assert_eq!(decode_hex("zz"), None);
    assert_eq!(decode_hex(""), Some(vec![]));
}
