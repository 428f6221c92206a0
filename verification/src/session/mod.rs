//! Session-cookie signing: an HMAC-SHA256 tag over the user id and expiry,
//! keyed by a server secret, so a browser holds a session only for an id the
//! server itself signed.
pub mod constant_time_eq;
pub mod text;
pub mod hex;
pub mod decimal;
pub mod session_signer;
