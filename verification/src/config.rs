//! Process-wide signing configuration: loaded once at startup, immutable
//! thereafter, and passed explicitly to whatever needs it.

use vstd::prelude::*;

verus! {

/// The three secrets the subsystem signs with: access tokens, refresh
/// tokens, and password digests each use their own key.
pub struct AuthConfig {
    pub access_secret: Vec<u8>,
    pub refresh_secret: Vec<u8>,
    pub password_secret: Vec<u8>,
}

impl AuthConfig {
    pub fn new(access_secret: Vec<u8>, refresh_secret: Vec<u8>, password_secret: Vec<u8>) -> (r:
        AuthConfig)
        ensures
            r.access_secret@ == access_secret@,
            r.refresh_secret@ == refresh_secret@,
            r.password_secret@ == password_secret@,
    {
        AuthConfig { access_secret, refresh_secret, password_secret }
    }
}

} // verus!
