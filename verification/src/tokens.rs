//! The token codec: minting and checking the signed bearer tokens, spelled
//! `base64url(header).base64url(claims).base64url(tag)` and signed with
//! HMAC-SHA256 under the access or the refresh secret.

use vstd::prelude::*;
use crate::base64::{b64_decode, b64_decode_spec, b64_encode, b64_encode_spec,
    lemma_b64_byte_plain, lemma_b64_encode_alphabet, lemma_b64_roundtrip};
use crate::claims::{claims_json, claims_wf, copy_range, encode_claims, json_safe_chars,
    lemma_parse_claims_roundtrip, lemma_parse_claims_wf, parse_claims,
    spec_parse_claims};
use crate::config::AuthConfig;
use crate::crypto::{fresh_jti, hs256_sign, is_uuid_char, sig_raw_of};
use crate::text::{ascii_bytes, ascii_to_string, ascii_view, chars_to_bytes,
    lemma_ascii_view_roundtrip};
use crate::{ACCESS_TOKEN_TTL_SECS, REFRESH_TOKEN_TTL_SECS};

verus! {

/// The claims a valid access token carries.
pub struct AccessTokenClaims {
    pub sub: u64,
    pub jti: String,
    pub exp: i64,
    pub iat: i64,
}

/// The claims a valid refresh token carries.
pub struct RefreshTokenClaims {
    pub sub: u64,
    pub jti: String,
    pub exp: i64,
    pub iat: i64,
}

/// Why a token failed to check: not ours, or ours but past its expiry.
#[derive(Clone, Copy, Debug, PartialEq, Eq, Structural)]
pub enum TokenError {
    Invalid,
    Expired,
}

/// The hyphenated form of a fresh unique id.
pub open spec fn is_uuid_seq(s: Seq<char>) -> bool {
    s.len() == 36 && forall|i: int| 0 <= i < s.len() ==> is_uuid_char(#[trigger] s[i])
}

pub proof fn lemma_uuid_seq_json_safe(s: Seq<char>)
    requires
        forall|i: int| 0 <= i < s.len() ==> is_uuid_char(#[trigger] s[i]),
    ensures
        json_safe_chars(s),
{
    assert forall|i: int| 0 <= i < s.len() implies (' ' <= #[trigger] s[i] < '\u{7f}' && s[i]
        != '"' && s[i] != '\\') by {
        assert(is_uuid_char(s[i]));
    }
}

/// The JSON bytes of the fixed token header.
pub open spec fn header_json() -> Seq<u8> {
    seq![
        0x7bu8, 0x22, 0x61, 0x6c, 0x67, 0x22, 0x3a, 0x22, 0x48, 0x53, 0x32, 0x35, 0x36, 0x22,
        0x2c, 0x22, 0x74, 0x79, 0x70, 0x22, 0x3a, 0x22, 0x4a, 0x57, 0x54, 0x22, 0x7d,
    ]
}

/// The part of the token that gets signed: encoded header, a dot, encoded
/// claims.
pub open spec fn signing_input(sub: u64, jti: Seq<char>, exp: i64, iat: i64) -> Seq<u8> {
    b64_encode_spec(header_json()) + seq![0x2eu8] + b64_encode_spec(claims_json(sub, jti, exp, iat))
}

/// The bytes of the whole token: signing input, a dot, the encoded tag.
pub open spec fn token_bytes(sub: u64, jti: Seq<char>, exp: i64, iat: i64, key: Seq<u8>) -> Seq<
    u8,
> {
    signing_input(sub, jti, exp, iat) + seq![0x2eu8] + b64_encode_spec(
        sig_raw_of(signing_input(sub, jti, exp, iat), key),
    )
}

/// The token string minted for a claims record under a key.
pub open spec fn spec_token(sub: u64, jti: Seq<char>, exp: i64, iat: i64, key: Seq<u8>) -> Seq<
    char,
> {
    ascii_view(token_bytes(sub, jti, exp, iat, key))
}

/// First position at or after `from` that holds a dot.
pub open spec fn dot_run_end(s: Seq<u8>, from: int) -> int
    decreases s.len() - from,
{
    if from < 0 || from >= s.len() {
        from
    } else if s[from] == 0x2e {
        from
    } else {
        dot_run_end(s, from + 1)
    }
}

pub proof fn lemma_dot_run_exact(s: Seq<u8>, from: int, to: int)
    requires
        0 <= from <= to <= s.len(),
        forall|i: int| from <= i < to ==> #[trigger] s[i] != 0x2e,
        to == s.len() || s[to as int] == 0x2e,
    ensures
        dot_run_end(s, from) == to,
    decreases to - from,
{
    if from < to {
        lemma_dot_run_exact(s, from + 1, to);
    }
}

/// The one claims record a token spells and properly signs under `key`,
/// if any: the deterministic mirror of the executable check.
pub open spec fn spec_extract(token: Seq<char>, key: Seq<u8>) -> Option<(u64, Seq<char>, i64, i64)> {
    if !vstd::utf8::is_ascii_chars(token) {
        None
    } else {
        let bytes = chars_to_bytes(token);
        let p1 = dot_run_end(bytes, 0);
        if p1 >= bytes.len() {
            None
        } else {
            let p2 = dot_run_end(bytes, p1 + 1);
            if p2 >= bytes.len() {
                None
            } else {
                match b64_decode_spec(bytes.subrange(p1 + 1, p2)) {
                    None => None,
                    Some(cj) => match spec_parse_claims(cj) {
                        None => None,
                        Some(c) => if token == spec_token(c.0, c.1, c.2, c.3, key) {
                            Some(c)
                        } else {
                            None
                        },
                    },
                }
            }
        }
    }
}

/// A checked token is exactly the minted spelling of its claims.
pub proof fn lemma_extract_sound(token: Seq<char>, key: Seq<u8>)
    requires
        spec_extract(token, key) is Some,
    ensures
        ({
            let c = spec_extract(token, key)->Some_0;
            claims_wf(c.0, c.1, c.2, c.3) && token == spec_token(c.0, c.1, c.2, c.3, key)
        }),
{
    let bytes = chars_to_bytes(token);
    let p1 = dot_run_end(bytes, 0);
    let p2 = dot_run_end(bytes, p1 + 1);
    let cj = b64_decode_spec(bytes.subrange(p1 + 1, p2))->Some_0;
    lemma_parse_claims_wf(cj);
}

proof fn lemma_signing_input_ascii(sub: u64, jti: Seq<char>, exp: i64, iat: i64)
    ensures
        ascii_bytes(signing_input(sub, jti, exp, iat)),
        forall|i: int|
            0 <= i < signing_input(sub, jti, exp, iat).len() ==> (
            #[trigger] signing_input(sub, jti, exp, iat)[i] == 0x2e <==> i == b64_encode_spec(
                header_json(),
            ).len()),
{
    let hb = b64_encode_spec(header_json());
    let cb = b64_encode_spec(claims_json(sub, jti, exp, iat));
    let si = signing_input(sub, jti, exp, iat);
    lemma_b64_encode_alphabet(header_json());
    lemma_b64_encode_alphabet(claims_json(sub, jti, exp, iat));
    assert forall|i: int| 0 <= i < si.len() implies si[i] < 128 && (#[trigger] si[i] == 0x2e
        <==> i == hb.len()) by {
        if i < hb.len() {
            assert(si[i] == hb[i]);
            lemma_b64_byte_plain(hb[i]);
        } else if i == hb.len() {
            assert(si[i] == 0x2e);
        } else {
            assert(si[i] == cb[i - hb.len() - 1]);
            lemma_b64_byte_plain(cb[i - hb.len() - 1]);
        }
    }
}

proof fn lemma_token_bytes_ascii(sub: u64, jti: Seq<char>, exp: i64, iat: i64, key: Seq<u8>)
    ensures
        ascii_bytes(token_bytes(sub, jti, exp, iat, key)),
{
    let si = signing_input(sub, jti, exp, iat);
    let sb = b64_encode_spec(sig_raw_of(si, key));
    let tb = token_bytes(sub, jti, exp, iat, key);
    lemma_signing_input_ascii(sub, jti, exp, iat);
    lemma_b64_encode_alphabet(sig_raw_of(si, key));
    assert forall|i: int| 0 <= i < tb.len() implies tb[i] < 128 by {
        if i < si.len() {
            assert(tb[i] == si[i]);
        } else if i == si.len() {
            assert(tb[i] == 0x2e);
        } else {
            assert(tb[i] == sb[i - si.len() - 1]);
            lemma_b64_byte_plain(sb[i - si.len() - 1]);
        }
    }
}

/// Checking a minted token finds exactly the claims it was minted for.
pub proof fn lemma_extract_complete(sub: u64, jti: Seq<char>, exp: i64, iat: i64, key: Seq<u8>)
    requires
        claims_wf(sub, jti, exp, iat),
    ensures
        spec_extract(spec_token(sub, jti, exp, iat, key), key) == Some((sub, jti, exp, iat)),
{
    let hb = b64_encode_spec(header_json());
    let cj = claims_json(sub, jti, exp, iat);
    let cb = b64_encode_spec(cj);
    let si = signing_input(sub, jti, exp, iat);
    let sb = b64_encode_spec(sig_raw_of(si, key));
    let tb = token_bytes(sub, jti, exp, iat, key);
    let token = spec_token(sub, jti, exp, iat, key);
    lemma_token_bytes_ascii(sub, jti, exp, iat, key);
    lemma_ascii_view_roundtrip(tb);
    assert(chars_to_bytes(token) =~= tb);
    assert(vstd::utf8::is_ascii_chars(token));
    lemma_signing_input_ascii(sub, jti, exp, iat);
    lemma_b64_encode_alphabet(sig_raw_of(si, key));
    let p1 = hb.len() as int;
    let p2 = si.len() as int;
    assert(tb.len() == si.len() + 1 + sb.len());
    assert forall|i: int| 0 <= i < p1 implies #[trigger] tb[i] != 0x2e by {
        assert(tb[i] == si[i]);
    }
    assert(tb[p1] == si[p1] && si[p1] == 0x2e);
    lemma_dot_run_exact(tb, 0, p1);
    assert forall|i: int| p1 + 1 <= i < p2 implies #[trigger] tb[i] != 0x2e by {
        if i < si.len() {
            assert(tb[i] == si[i]);
        }
    }
    assert(tb[p2] == 0x2e);
    lemma_dot_run_exact(tb, p1 + 1, p2);
    assert(tb.subrange(p1 + 1, p2) =~= cb);
    lemma_b64_roundtrip(cj);
    lemma_parse_claims_roundtrip(sub, jti, exp, iat);
    assert(spec_parse_claims(cj) == Some((sub, jti, exp, iat)));
}

fn build_header() -> (r: Vec<u8>)
    ensures
        r@ == header_json(),
{
    let mut h: Vec<u8> = Vec::new();
    h.push(0x7b);
    h.push(0x22);
    h.push(0x61);
    h.push(0x6c);
    h.push(0x67);
    h.push(0x22);
    h.push(0x3a);
    h.push(0x22);
    h.push(0x48);
    h.push(0x53);
    h.push(0x32);
    h.push(0x35);
    h.push(0x36);
    h.push(0x22);
    h.push(0x2c);
    h.push(0x22);
    h.push(0x74);
    h.push(0x79);
    h.push(0x70);
    h.push(0x22);
    h.push(0x3a);
    h.push(0x22);
    h.push(0x4a);
    h.push(0x57);
    h.push(0x54);
    h.push(0x22);
    h.push(0x7d);
    proof {
        assert(h@ =~= header_json());
    }
    h
}

/// Mints the token spelling a claims record under a key.
pub fn mint_token(sub: u64, jti: &str, exp: i64, iat: i64, key: &Vec<u8>) -> (r: String)
    requires
        claims_wf(sub, jti@, exp, iat),
    ensures
        r@ == spec_token(sub, jti@, exp, iat, key@),
{
    let header = build_header();
    let mut si = b64_encode(&header);
    si.push(0x2e);
    let mut cb = b64_encode(&encode_claims(sub, jti, exp, iat));
    si.append(&mut cb);
    proof {
        assert(si@ =~= signing_input(sub, jti@, exp, iat));
    }
    let sig = hs256_sign(&si, key);
    let mut tb = si;
    tb.push(0x2e);
    proof {
        lemma_signing_input_ascii(sub, jti@, exp, iat);
        assert(ascii_bytes(tb@));
    }
    let mut token = ascii_to_string(tb);
    vstd::string::StringExecFns::append(&mut token, sig.as_str());
    proof {
        let sb = b64_encode_spec(sig_raw_of(signing_input(sub, jti@, exp, iat), key@));
        assert(token@ =~= spec_token(sub, jti@, exp, iat, key@));
    }
    token
}

fn scan_to_dot(s: &Vec<u8>, from: usize) -> (end: usize)
    requires
        from <= s@.len(),
    ensures
        from <= end <= s@.len(),
        end == dot_run_end(s@, from as int),
{
    let mut i = from;
    while i < s.len() && s[i] != 0x2e
        invariant
            from <= i <= s@.len(),
            forall|k: int| from <= k < i ==> #[trigger] s@[k] != 0x2e,
        decreases s@.len() - i,
    {
        i = i + 1;
    }
    proof {
        lemma_dot_run_exact(s@, from as int, i as int);
    }
    i
}

/// Checks a token against a key: the claims it spells, or nothing.
fn check_token(token: &str, key: &Vec<u8>) -> (r: Option<(u64, String, i64, i64)>)
    ensures
        match r {
            Some(c) => spec_extract(token@, key@) == Some((c.0, c.1@, c.2, c.3)),
            None => spec_extract(token@, key@) is None,
        },
{
    broadcast use vstd::string::is_ascii_spec_bytes;

    if !token.is_ascii() {
        return None;
    }
    let bytes = vstd::string::StrSliceExecFns::as_bytes_vec(token);
    proof {
        assert(bytes@ =~= chars_to_bytes(token@));
    }
    let p1 = scan_to_dot(&bytes, 0);
    if p1 == bytes.len() {
        return None;
    }
    let p2 = scan_to_dot(&bytes, p1 + 1);
    if p2 == bytes.len() {
        return None;
    }
    let claims_b64 = copy_range(&bytes, p1 + 1, p2);
    let cj = match b64_decode(&claims_b64) {
        Some(v) => v,
        None => { return None; },
    };
    let (sub, jti, exp, iat) = match parse_claims(&cj) {
        Some(c) => c,
        None => { return None; },
    };
    proof {
        lemma_parse_claims_wf(cj@);
    }
    let minted = mint_token(sub, jti.as_str(), exp, iat, key);
    let owned: String = token.to_owned();
    if minted == owned {
        Some((sub, jti, exp, iat))
    } else {
        None
    }
}

/// Mints an access token for `user_id`: issued at `now`, expiring
/// [`ACCESS_TOKEN_TTL_SECS`] later, under the access secret.
pub fn generate_access_token(cfg: &AuthConfig, user_id: u64, now: i64) -> (r: String)
    requires
        0 <= now,
        now + ACCESS_TOKEN_TTL_SECS <= i64::MAX,
    ensures
        exists|jti: Seq<char>|
            is_uuid_seq(jti) && r@ == spec_token(
                user_id,
                jti,
                (now + ACCESS_TOKEN_TTL_SECS) as i64,
                now,
                cfg.access_secret@,
            ),
{
    let jti = fresh_jti();
    proof {
        lemma_uuid_seq_json_safe(jti@);
    }
    let r = mint_token(user_id, jti.as_str(), now + ACCESS_TOKEN_TTL_SECS, now, &cfg.access_secret);
    proof {
        assert(is_uuid_seq(jti@) && r@ == spec_token(
            user_id,
            jti@,
            (now + ACCESS_TOKEN_TTL_SECS) as i64,
            now,
            cfg.access_secret@,
        ));
    }
    r
}

/// Mints a refresh token for `user_id`: issued at `now`, expiring
/// [`REFRESH_TOKEN_TTL_SECS`] later, under the refresh secret.
pub fn generate_refresh_token(cfg: &AuthConfig, user_id: u64, now: i64) -> (r: String)
    requires
        0 <= now,
        now + REFRESH_TOKEN_TTL_SECS <= i64::MAX,
    ensures
        exists|jti: Seq<char>|
            is_uuid_seq(jti) && r@ == spec_token(
                user_id,
                jti,
                (now + REFRESH_TOKEN_TTL_SECS) as i64,
                now,
                cfg.refresh_secret@,
            ),
{
    let jti = fresh_jti();
    proof {
        lemma_uuid_seq_json_safe(jti@);
    }
    let r = mint_token(user_id, jti.as_str(), now + REFRESH_TOKEN_TTL_SECS, now, &cfg.refresh_secret);
    proof {
        assert(is_uuid_seq(jti@) && r@ == spec_token(
            user_id,
            jti@,
            (now + REFRESH_TOKEN_TTL_SECS) as i64,
            now,
            cfg.refresh_secret@,
        ));
    }
    r
}

/// Checks an access token: signature under the access secret, then the
/// explicit expiry test against `now`.
pub fn validate_access_token(cfg: &AuthConfig, token: &str, now: i64) -> (r: Result<
    AccessTokenClaims,
    TokenError,
>)
    ensures
        match r {
            Ok(c) => spec_extract(token@, cfg.access_secret@) == Some((c.sub, c.jti@, c.exp, c.iat))
                && c.exp >= now,
            Err(TokenError::Expired) => spec_extract(token@, cfg.access_secret@) matches Some(c)
                && c.2 < now,
            Err(TokenError::Invalid) => spec_extract(token@, cfg.access_secret@) is None,
        },
{
    match check_token(token, &cfg.access_secret) {
        Some((sub, jti, exp, iat)) => {
            if exp < now {
                Err(TokenError::Expired)
            } else {
                Ok(AccessTokenClaims { sub, jti, exp, iat })
            }
        },
        None => Err(TokenError::Invalid),
    }
}

/// Checks a refresh token: signature under the refresh secret, then the
/// explicit expiry test against `now`.
pub fn validate_refresh_token(cfg: &AuthConfig, token: &str, now: i64) -> (r: Result<
    RefreshTokenClaims,
    TokenError,
>)
    ensures
        match r {
            Ok(c) => spec_extract(token@, cfg.refresh_secret@) == Some((c.sub, c.jti@, c.exp,
                c.iat)) && c.exp >= now,
            Err(TokenError::Expired) => spec_extract(token@, cfg.refresh_secret@) matches Some(c)
                && c.2 < now,
            Err(TokenError::Invalid) => spec_extract(token@, cfg.refresh_secret@) is None,
        },
{
    match check_token(token, &cfg.refresh_secret) {
        Some((sub, jti, exp, iat)) => {
            if exp < now {
                Err(TokenError::Expired)
            } else {
                Ok(RefreshTokenClaims { sub, jti, exp, iat })
            }
        },
        None => Err(TokenError::Invalid),
    }
}

} // verus!
