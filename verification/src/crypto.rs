//! The outside primitives the token subsystem stands on: HMAC-SHA256
//! signing, fresh unique ids, and raw randomness. Each is a thin trusted
//! wrapper; everything built on them is verified.

use vstd::prelude::*;
use crate::base64::b64_encode_spec;
use crate::text::ascii_view;

verus! {

/// A character of the hyphenated lowercase-hex form of a unique id.
pub open spec fn is_uuid_char(c: char) -> bool {
    ('0' <= c <= '9') || ('a' <= c <= 'f') || c == '-'
}

/// The HMAC-SHA256 tag of a message under a key: a pure function of the
/// two arguments.
pub uninterp spec fn sig_raw_of(msg: Seq<u8>, key: Seq<u8>) -> Seq<u8>;

/// Relies on `jsonwebtoken::crypto::sign` with `Algorithm::HS256`: it
/// returns the URL-safe unpadded base64 spelling of the HMAC-SHA256 tag of
/// `msg` under `key`, a deterministic function of the two; HMAC accepts
/// keys of any length, so signing cannot fail.
#[verifier::external_body]
pub fn hs256_sign(msg: &Vec<u8>, key: &Vec<u8>) -> (r: String)
    ensures
        r@ == ascii_view(b64_encode_spec(sig_raw_of(msg@, key@))),
{
    jsonwebtoken::crypto::sign(
        msg.as_slice(),
        &jsonwebtoken::EncodingKey::from_secret(key.as_slice()),
        jsonwebtoken::Algorithm::HS256,
    ).expect("HMAC signing accepts any key")
}

/// Relies on `uuid::Uuid::new_v4` and its `Display` form: a fresh random
/// id spelled as 36 hyphenated lowercase hexadecimal characters.
#[verifier::external_body]
pub fn fresh_jti() -> (r: String)
    ensures
        r@.len() == 36,
        forall|i: int| 0 <= i < r@.len() ==> is_uuid_char(#[trigger] r@[i]),
{
    uuid::Uuid::new_v4().to_string()
}

/// Relies on `rand::random`: one byte from the thread-local generator.
/// Nothing can be promised of its value.
#[verifier::external_body]
pub fn random_byte() -> u8 {
    rand::random::<u8>()
}

} // verus!
