//! The credential verifier: passwords are stored as keyed HMAC-SHA256
//! digests and checked by recomputing the digest. Stateless; the key is
//! the password secret of the process configuration.

use vstd::prelude::*;
use vstd::string::StringSliceAdditionalSpecFns;
use crate::base64::b64_encode_spec;
use crate::crypto::{hs256_sign, sig_raw_of};
use crate::text::ascii_view;

verus! {

/// The digest stored for a password under a key.
pub open spec fn spec_digest(password_bytes: Seq<u8>, key: Seq<u8>) -> Seq<char> {
    ascii_view(b64_encode_spec(sig_raw_of(password_bytes, key)))
}

/// Digests a password under the key.
pub fn hash_password(password: &str, key: &Vec<u8>) -> (r: String)
    ensures
        r@ == spec_digest(password.spec_bytes(), key@),
{
    let pb = vstd::string::StrSliceExecFns::as_bytes_vec(password);
    hs256_sign(&pb, key)
}

/// Whether a password matches a stored digest under the key.
pub fn verify_password(password: &str, digest: &String, key: &Vec<u8>) -> (r: bool)
    ensures
        r == (digest@ == spec_digest(password.spec_bytes(), key@)),
{
    let fresh = hash_password(password, key);
    fresh == *digest
}

} // verus!
