//! The session manager: the flows that mint, rotate and revoke
//! credentials against the store. Each flow that draws randomness exists
//! twice: a deterministic core taking the fresh unique ids as arguments,
//! with an exact contract, and a public entry that draws them and calls
//! the core.

use vstd::prelude::*;
use crate::claims::json_safe_chars;
use crate::config::AuthConfig;
use crate::crypto::fresh_jti;
use crate::dto::{AuthResponse, ForgotPasswordRequest, LoginRequest, RefreshTokenRequest,
    RegisterRequest, ResetPasswordRequest, UserInfo};
use crate::errors::{ApiError, ApiResult};
use crate::hashing::{hash_password, spec_digest, verify_password};
use crate::store::{AuthStore, NewRefreshToken, NewUser, RefreshToken, StoreError, User};
use crate::tokens::{is_uuid_seq, lemma_uuid_seq_json_safe, mint_token, spec_token};
use crate::{ACCESS_TOKEN_TTL_SECS, REFRESH_TOKEN_TTL_SECS};

verus! {

/// The public view of a user row.
pub fn user_to_info(user: User) -> (r: UserInfo)
    ensures
        r.id == user.id,
        r.first_name@ == user.first_name@,
        r.last_name@ == user.last_name@,
        r.email@ == user.email@,
{
    UserInfo {
        id: user.id,
        first_name: user.first_name,
        last_name: user.last_name,
        email: user.email,
    }
}

/// What a successful registration or login leaves and returns: a fresh
/// refresh row for `user_id`, and a response carrying the minted pair.
pub open spec fn issued_pair_ok(
    store_before: AuthStore,
    store_after: AuthStore,
    resp: AuthResponse,
    cfg: AuthConfig,
    user_id: u64,
    now: i64,
    jti_a: Seq<char>,
    jti_r: Seq<char>,
) -> bool {
    &&& resp.access_token@ == spec_token(
        user_id,
        jti_a,
        (now + ACCESS_TOKEN_TTL_SECS) as i64,
        now,
        cfg.access_secret@,
    )
    &&& resp.refresh_token@ == spec_token(
        user_id,
        jti_r,
        (now + REFRESH_TOKEN_TTL_SECS) as i64,
        now,
        cfg.refresh_secret@,
    )
    &&& !store_before.has_refresh(resp.refresh_token@)
    &&& store_after.refresh_tokens@ == store_before.refresh_tokens@.push(
        RefreshToken {
            id: store_before.next_row_id,
            user_id: user_id,
            token: resp.refresh_token,
            expires_at: (now + REFRESH_TOKEN_TTL_SECS) as i64,
            created_at: now,
        },
    )
    &&& store_after.next_row_id == store_before.next_row_id + 1
    &&& store_after.revoked_tokens@ == store_before.revoked_tokens@
}

/// Registration with the two fresh token ids given: fails `Conflict` on a
/// taken email, else creates the user and persists a refresh token.
pub fn register_with(
    store: &mut AuthStore,
    cfg: &AuthConfig,
    request: RegisterRequest,
    now: i64,
    jti_a: &str,
    jti_r: &str,
) -> (r: ApiResult<AuthResponse>)
    requires
        old(store).wf(),
        0 <= now,
        now + REFRESH_TOKEN_TTL_SECS <= i64::MAX,
        old(store).next_user_id < u64::MAX,
        old(store).next_row_id < u64::MAX,
        json_safe_chars(jti_a@),
        json_safe_chars(jti_r@),
    ensures
        final(store).wf(),
        match r {
            Err(ApiError::ResourceAlreadyExists(m)) => old(store).spec_find_by_email(
                request.email@,
            ) is Some && m@ == "Email already registered"@ && *final(store) == *old(store),
            Ok(resp) => {
                let user = final(store).users@.last();
                &&& old(store).spec_find_by_email(request.email@) is None
                &&& final(store).users@ == old(store).users@.push(user)
                &&& user.id == old(store).next_user_id
                &&& user.first_name@ == request.first_name@
                &&& user.last_name@ == request.last_name@
                &&& user.email@ == request.email@
                &&& user.password_hash@ == spec_digest(
                    vstd::utf8::encode_utf8(request.password@),
                    cfg.password_secret@,
                )
                &&& user.is_active
                &&& !user.is_verified
                &&& user.password_reset_token is None
                &&& final(store).next_user_id == old(store).next_user_id + 1
                &&& resp.user.id == user.id
                &&& resp.user.email@ == request.email@
                &&& resp.user.first_name@ == request.first_name@
                &&& resp.user.last_name@ == request.last_name@
                &&& issued_pair_ok(
                    *old(store),
                    *final(store),
                    resp,
                    *cfg,
                    user.id,
                    now,
                    jti_a@,
                    jti_r@,
                )
            },
            Err(ApiError::DatabaseError(m)) => {
                let user = final(store).users@.last();
                &&& old(store).spec_find_by_email(request.email@) is None
                &&& final(store).users@ == old(store).users@.push(user)
                &&& user.id == old(store).next_user_id
                &&& user.email@ == request.email@
                &&& old(store).has_refresh(
                    spec_token(
                        old(store).next_user_id,
                        jti_r@,
                        (now + REFRESH_TOKEN_TTL_SECS) as i64,
                        now,
                        cfg.refresh_secret@,
                    ),
                )
                &&& final(store).refresh_tokens@ == old(store).refresh_tokens@
                &&& final(store).revoked_tokens@ == old(store).revoked_tokens@
                &&& final(store).next_user_id == old(store).next_user_id + 1
                &&& final(store).next_row_id == old(store).next_row_id
            },
            _ => false,
        },
{
    if store.find_user_by_email(request.email.as_str()).is_some() {
        return Err(ApiError::ResourceAlreadyExists(String::from_str("Email already registered")));
    }
    let password_hash = hash_password(request.password.as_str(), &cfg.password_secret);
    let new_user = NewUser {
        first_name: request.first_name,
        last_name: request.last_name,
        email: request.email,
        password_hash,
        is_active: true,
        is_verified: false,
    };
    let user = store.create_user(new_user, now);
    let access_token = mint_token(
        user.id,
        jti_a,
        now + ACCESS_TOKEN_TTL_SECS,
        now,
        &cfg.access_secret,
    );
    let refresh_token = mint_token(
        user.id,
        jti_r,
        now + REFRESH_TOKEN_TTL_SECS,
        now,
        &cfg.refresh_secret,
    );
    let new_refresh = NewRefreshToken {
        user_id: user.id,
        token: refresh_token.clone(),
        expires_at: now + REFRESH_TOKEN_TTL_SECS,
    };
    match store.create_refresh_token(new_refresh, now) {
        Ok(_) => Ok(
            AuthResponse { access_token, refresh_token, user: user_to_info(user) },
        ),
        Err(StoreError::Conflict) => Err(
            ApiError::DatabaseError(String::from_str("refresh token conflict")),
        ),
    }
}

/// Registration: fails `Conflict` if the email already resolves to an
/// active user; else hashes the password, creates the user, and mints and
/// persists an access and refresh token pair.
pub fn register(store: &mut AuthStore, cfg: &AuthConfig, request: RegisterRequest, now: i64) -> (r:
    ApiResult<AuthResponse>)
    requires
        old(store).wf(),
        0 <= now,
        now + REFRESH_TOKEN_TTL_SECS <= i64::MAX,
        old(store).next_user_id < u64::MAX,
        old(store).next_row_id < u64::MAX,
    ensures
        final(store).wf(),
        r matches Err(ApiError::ResourceAlreadyExists(_)) <==> old(store).spec_find_by_email(
            request.email@,
        ) is Some,
        old(store).spec_find_by_email(request.email@) is Some ==> *final(store) == *old(store),
        r matches Ok(resp) ==> {
            let user = final(store).users@.last();
            &&& final(store).users@ == old(store).users@.push(user)
            &&& user.email@ == request.email@
            &&& user.first_name@ == request.first_name@
            &&& user.last_name@ == request.last_name@
            &&& user.password_hash@ == spec_digest(
                vstd::utf8::encode_utf8(request.password@),
                cfg.password_secret@,
            )
            &&& user.is_active
            &&& !user.is_verified
            &&& user.password_reset_token is None
            &&& user.id == old(store).next_user_id
            &&& final(store).next_user_id == old(store).next_user_id + 1
            &&& resp.user.id == user.id
            &&& resp.user.email@ == request.email@
            &&& resp.user.first_name@ == request.first_name@
            &&& resp.user.last_name@ == request.last_name@
            &&& exists|ja: Seq<char>, jr: Seq<char>|
                is_uuid_seq(ja) && is_uuid_seq(jr) && issued_pair_ok(
                    *old(store),
                    *final(store),
                    resp,
                    *cfg,
                    user.id,
                    now,
                    ja,
                    jr,
                )
        },
        r matches Err(e) ==> (e matches ApiError::ResourceAlreadyExists(_) || e matches
            ApiError::DatabaseError(_)),
        r matches Err(ApiError::DatabaseError(_)) ==> {
            let user = final(store).users@.last();
            &&& final(store).users@ == old(store).users@.push(user)
            &&& user.id == old(store).next_user_id
            &&& final(store).refresh_tokens@ == old(store).refresh_tokens@
            &&& final(store).revoked_tokens@ == old(store).revoked_tokens@
            &&& final(store).next_row_id == old(store).next_row_id
            &&& exists|jr: Seq<char>|
                is_uuid_seq(jr) && old(store).has_refresh(
                    spec_token(
                        old(store).next_user_id,
                        jr,
                        (now + REFRESH_TOKEN_TTL_SECS) as i64,
                        now,
                        cfg.refresh_secret@,
                    ),
                )
        },
{
    let jti_a = fresh_jti();
    let jti_r = fresh_jti();
    proof {
        lemma_uuid_seq_json_safe(jti_a@);
        lemma_uuid_seq_json_safe(jti_r@);
    }
    let r = register_with(store, cfg, request, now, jti_a.as_str(), jti_r.as_str());
    proof {
        if r is Ok {
            let resp = r->Ok_0;
            let user = store.users@.last();
            assert(is_uuid_seq(jti_a@) && is_uuid_seq(jti_r@) && issued_pair_ok(
                *old(store),
                *store,
                resp,
                *cfg,
                user.id,
                now,
                jti_a@,
                jti_r@,
            ));
        }
        if r matches Err(ApiError::DatabaseError(_)) {
            assert(is_uuid_seq(jti_r@) && old(store).has_refresh(
                spec_token(
                    old(store).next_user_id,
                    jti_r@,
                    (now + REFRESH_TOKEN_TTL_SECS) as i64,
                    now,
                    cfg.refresh_secret@,
                ),
            ));
        }
    }
    r
}

/// Login with the two fresh token ids given: the same `Unauthorized`
/// answer for an unknown email and for a wrong password, else a fresh
/// token pair as registration mints it.
pub fn login_with(
    store: &mut AuthStore,
    cfg: &AuthConfig,
    request: LoginRequest,
    now: i64,
    jti_a: &str,
    jti_r: &str,
) -> (r: ApiResult<AuthResponse>)
    requires
        old(store).wf(),
        0 <= now,
        now + REFRESH_TOKEN_TTL_SECS <= i64::MAX,
        old(store).next_row_id < u64::MAX,
        json_safe_chars(jti_a@),
        json_safe_chars(jti_r@),
    ensures
        final(store).wf(),
        final(store).users@ == old(store).users@,
        final(store).next_user_id == old(store).next_user_id,
        match r {
            Err(ApiError::Unauthorized(m)) => m@ == "Invalid credentials"@ && *final(store)
                == *old(store) && (match old(store).spec_find_by_email(request.email@) {
                Some(i) => old(store).users@[i].password_hash@ != spec_digest(
                    vstd::utf8::encode_utf8(request.password@),
                    cfg.password_secret@,
                ),
                None => true,
            }),
            Ok(resp) => {
                let i = old(store).spec_find_by_email(request.email@)->Some_0;
                &&& old(store).spec_find_by_email(request.email@) is Some
                &&& old(store).users@[i].password_hash@ == spec_digest(
                    vstd::utf8::encode_utf8(request.password@),
                    cfg.password_secret@,
                )
                &&& resp.user.id == old(store).users@[i].id
                &&& resp.user.email@ == old(store).users@[i].email@
                &&& issued_pair_ok(
                    *old(store),
                    *final(store),
                    resp,
                    *cfg,
                    old(store).users@[i].id,
                    now,
                    jti_a@,
                    jti_r@,
                )
            },
            Err(ApiError::DatabaseError(m)) => {
                let i = old(store).spec_find_by_email(request.email@)->Some_0;
                &&& old(store).spec_find_by_email(request.email@) is Some
                &&& old(store).users@[i].password_hash@ == spec_digest(
                    vstd::utf8::encode_utf8(request.password@),
                    cfg.password_secret@,
                )
                &&& old(store).has_refresh(
                    spec_token(
                        old(store).users@[i].id,
                        jti_r@,
                        (now + REFRESH_TOKEN_TTL_SECS) as i64,
                        now,
                        cfg.refresh_secret@,
                    ),
                )
                &&& final(store).refresh_tokens@ == old(store).refresh_tokens@
                &&& final(store).next_row_id == old(store).next_row_id
                &&& final(store).revoked_tokens@ == old(store).revoked_tokens@
            },
            _ => false,
        },
{
    let user = match store.find_user_by_email(request.email.as_str()) {
        Some(u) => u,
        None => {
            return Err(ApiError::Unauthorized(String::from_str("Invalid credentials")));
        },
    };
    proof {
        crate::store::lemma_find_first_props(
            store.users@,
            crate::store::email_pred(request.email@),
            0,
        );
    }
    if !verify_password(request.password.as_str(), &user.password_hash, &cfg.password_secret) {
        return Err(ApiError::Unauthorized(String::from_str("Invalid credentials")));
    }
    if !user.is_active {
        return Err(ApiError::Forbidden(String::from_str("Account is deactivated")));
    }
    let access_token = mint_token(
        user.id,
        jti_a,
        now + ACCESS_TOKEN_TTL_SECS,
        now,
        &cfg.access_secret,
    );
    let refresh_token = mint_token(
        user.id,
        jti_r,
        now + REFRESH_TOKEN_TTL_SECS,
        now,
        &cfg.refresh_secret,
    );
    let new_refresh = NewRefreshToken {
        user_id: user.id,
        token: refresh_token.clone(),
        expires_at: now + REFRESH_TOKEN_TTL_SECS,
    };
    match store.create_refresh_token(new_refresh, now) {
        Ok(_) => Ok(
            AuthResponse { access_token, refresh_token, user: user_to_info(user) },
        ),
        Err(StoreError::Conflict) => Err(
            ApiError::DatabaseError(String::from_str("refresh token conflict")),
        ),
    }
}

/// Login: resolves the user by email, verifies the password against the
/// stored digest (one `Unauthorized` answer for both failure causes),
/// then mints and persists a fresh token pair.
pub fn login(store: &mut AuthStore, cfg: &AuthConfig, request: LoginRequest, now: i64) -> (r:
    ApiResult<AuthResponse>)
    requires
        old(store).wf(),
        0 <= now,
        now + REFRESH_TOKEN_TTL_SECS <= i64::MAX,
        old(store).next_row_id < u64::MAX,
    ensures
        final(store).wf(),
        final(store).users@ == old(store).users@,
        r matches Err(ApiError::Unauthorized(m)) ==> m@ == "Invalid credentials"@
            && *final(store) == *old(store),
        old(store).spec_find_by_email(request.email@) is None ==> r matches Err(
            ApiError::Unauthorized(_),
        ),
        final(store).revoked_tokens@ == old(store).revoked_tokens@,
        final(store).next_user_id == old(store).next_user_id,
        r matches Ok(resp) ==> {
            let i = old(store).spec_find_by_email(request.email@)->Some_0;
            &&& old(store).spec_find_by_email(request.email@) is Some
            &&& old(store).users@[i].password_hash@ == spec_digest(
                vstd::utf8::encode_utf8(request.password@),
                cfg.password_secret@,
            )
            &&& resp.user.id == old(store).users@[i].id
            &&& resp.user.email@ == old(store).users@[i].email@
            &&& exists|ja: Seq<char>, jr: Seq<char>|
                is_uuid_seq(ja) && is_uuid_seq(jr) && issued_pair_ok(
                    *old(store),
                    *final(store),
                    resp,
                    *cfg,
                    old(store).users@[i].id,
                    now,
                    ja,
                    jr,
                )
        },
        r matches Err(e) ==> (e matches ApiError::Unauthorized(_) || e matches
            ApiError::DatabaseError(_)),
        (old(store).spec_find_by_email(request.email@) matches Some(i) && old(
            store,
        ).users@[i].password_hash@ == spec_digest(
            vstd::utf8::encode_utf8(request.password@),
            cfg.password_secret@,
        )) ==> !(r matches Err(ApiError::Unauthorized(_))),
        (old(store).spec_find_by_email(request.email@) matches Some(i) && old(
            store,
        ).users@[i].password_hash@ != spec_digest(
            vstd::utf8::encode_utf8(request.password@),
            cfg.password_secret@,
        )) ==> r matches Err(ApiError::Unauthorized(_)),
        r matches Err(ApiError::DatabaseError(_)) ==> {
            let i = old(store).spec_find_by_email(request.email@)->Some_0;
            &&& old(store).spec_find_by_email(request.email@) is Some
            &&& final(store).refresh_tokens@ == old(store).refresh_tokens@
            &&& final(store).next_row_id == old(store).next_row_id
            &&& exists|jr: Seq<char>|
                is_uuid_seq(jr) && old(store).has_refresh(
                    spec_token(
                        old(store).users@[i].id,
                        jr,
                        (now + REFRESH_TOKEN_TTL_SECS) as i64,
                        now,
                        cfg.refresh_secret@,
                    ),
                )
        },
{
    let jti_a = fresh_jti();
    let jti_r = fresh_jti();
    proof {
        lemma_uuid_seq_json_safe(jti_a@);
        lemma_uuid_seq_json_safe(jti_r@);
    }
    let r = login_with(store, cfg, request, now, jti_a.as_str(), jti_r.as_str());
    proof {
        let i = old(store).spec_find_by_email(request.email@)->Some_0;
        if r is Ok {
            assert(is_uuid_seq(jti_a@) && is_uuid_seq(jti_r@) && issued_pair_ok(
                *old(store),
                *store,
                r->Ok_0,
                *cfg,
                old(store).users@[i].id,
                now,
                jti_a@,
                jti_r@,
            ));
        }
        if r matches Err(ApiError::DatabaseError(_)) {
            assert(is_uuid_seq(jti_r@) && old(store).has_refresh(
                spec_token(
                    old(store).users@[i].id,
                    jti_r@,
                    (now + REFRESH_TOKEN_TTL_SECS) as i64,
                    now,
                    cfg.refresh_secret@,
                ),
            ));
        }
    }
    r
}


/// Rotation with the two fresh token ids given: checks the token, the
/// stored row, the subject cross-check and the user, then deletes the
/// consumed row before persisting the replacement.
pub fn refresh_token_with(
    store: &mut AuthStore,
    cfg: &AuthConfig,
    request: RefreshTokenRequest,
    now: i64,
    jti_a: &str,
    jti_r: &str,
) -> (r: ApiResult<AuthResponse>)
    requires
        old(store).wf(),
        0 <= now,
        now + REFRESH_TOKEN_TTL_SECS <= i64::MAX,
        old(store).next_row_id < u64::MAX,
        json_safe_chars(jti_a@),
        json_safe_chars(jti_r@),
    ensures
        final(store).wf(),
        final(store).users@ == old(store).users@,
        final(store).next_user_id == old(store).next_user_id,
        final(store).revoked_tokens@ == old(store).revoked_tokens@,
        ({
            let tok = request.refresh_token@;
            let ext = crate::tokens::spec_extract(tok, cfg.refresh_secret@);
            match r {
                Err(ApiError::Unauthorized(m)) => *final(store) == *old(store) && ((m@
                    == "Invalid refresh token"@ && !(ext matches Some(c) && c.2 >= now)) || (m@
                    == "Refresh token not found"@ && (ext matches Some(c) && c.2 >= now) && !old(store).has_live_refresh(tok, now)) || (m@ == "Token user mismatch"@ && (ext matches Some(
                    c,
                ) && c.2 >= now && exists|i: int|
                    0 <= i < old(store).refresh_tokens@.len()
                        && #[trigger] old(store).refresh_tokens@[i].token@ == tok && old(store).refresh_tokens@[i].expires_at > now && old(store).refresh_tokens@[i].user_id
                        != c.0))),
                Err(ApiError::NotFound(m)) => {
                    let c = ext->Some_0;
                    &&& *final(store) == *old(store)
                    &&& m@ == "Resource not found"@
                    &&& ext is Some
                    &&& c.2 >= now
                    &&& exists|i: int|
                        0 <= i < old(store).refresh_tokens@.len()
                            && #[trigger] old(store).refresh_tokens@[i].token@ == tok && old(store).refresh_tokens@[i].expires_at > now && old(store).refresh_tokens@[i].user_id == c.0
                    &&& old(store).spec_find_by_id(c.0) is None
                },
                Ok(resp) => {
                    let c = ext->Some_0;
                    &&& ext is Some
                    &&& c.2 >= now
                    &&& exists|i: int|
                        0 <= i < old(store).refresh_tokens@.len()
                            && #[trigger] old(store).refresh_tokens@[i].token@ == tok && old(store).refresh_tokens@[i].expires_at > now && old(store).refresh_tokens@[i].user_id == c.0
                    &&& old(store).spec_find_by_id(c.0) is Some
                    &&& resp.user.id == c.0
                    &&& resp.access_token@ == spec_token(
                        c.0,
                        jti_a@,
                        (now + ACCESS_TOKEN_TTL_SECS) as i64,
                        now,
                        cfg.access_secret@,
                    )
                    &&& resp.refresh_token@ == spec_token(
                        c.0,
                        jti_r@,
                        (now + REFRESH_TOKEN_TTL_SECS) as i64,
                        now,
                        cfg.refresh_secret@,
                    )
                    &&& final(store).refresh_tokens@ == old(store).refresh_tokens@.filter(
                        crate::store::keep_other_tokens(tok),
                    ).push(
                        RefreshToken {
                            id: old(store).next_row_id,
                            user_id: c.0,
                            token: resp.refresh_token,
                            expires_at: (now + REFRESH_TOKEN_TTL_SECS) as i64,
                            created_at: now,
                        },
                    )
                    &&& final(store).next_row_id == old(store).next_row_id + 1
                },
                Err(ApiError::DatabaseError(m)) => {
                    let c = ext->Some_0;
                    &&& ext is Some
                    &&& c.2 >= now
                    &&& exists|i: int|
                        0 <= i < old(store).refresh_tokens@.len()
                            && #[trigger] old(store).refresh_tokens@[i].token@ == tok && old(store).refresh_tokens@[i].expires_at > now && old(store).refresh_tokens@[i].user_id == c.0
                    &&& old(store).spec_find_by_id(c.0) is Some
                    &&& final(store).refresh_tokens@ == old(store).refresh_tokens@.filter(
                        crate::store::keep_other_tokens(tok),
                    )
                    &&& final(store).next_row_id == old(store).next_row_id
                    &&& exists|i: int|
                        0 <= i < final(store).refresh_tokens@.len()
                            && #[trigger] final(store).refresh_tokens@[i].token@ == spec_token(
                            c.0,
                            jti_r@,
                            (now + REFRESH_TOKEN_TTL_SECS) as i64,
                            now,
                            cfg.refresh_secret@,
                        )
                },
                _ => false,
            }
        }),
{
    let claims = match crate::tokens::validate_refresh_token(
        cfg,
        request.refresh_token.as_str(),
        now,
    ) {
        Ok(c) => c,
        Err(_) => {
            return Err(ApiError::Unauthorized(String::from_str("Invalid refresh token")));
        },
    };
    let stored = match store.find_refresh_token(request.refresh_token.as_str(), now) {
        Some(s) => s,
        None => {
            return Err(ApiError::Unauthorized(String::from_str("Refresh token not found")));
        },
    };
    if stored.user_id != claims.sub {
        return Err(ApiError::Unauthorized(String::from_str("Token user mismatch")));
    }
    let user = match store.find_user_by_id(claims.sub) {
        Some(u) => u,
        None => {
            return Err(ApiError::NotFound(String::from_str("Resource not found")));
        },
    };
    proof {
        crate::store::lemma_find_first_props(
            store.users@,
            crate::store::id_pred(claims.sub),
            0,
        );
    }
    store.delete_refresh_token(request.refresh_token.as_str());
    let new_access_token = mint_token(
        user.id,
        jti_a,
        now + ACCESS_TOKEN_TTL_SECS,
        now,
        &cfg.access_secret,
    );
    let new_refresh_token = mint_token(
        user.id,
        jti_r,
        now + REFRESH_TOKEN_TTL_SECS,
        now,
        &cfg.refresh_secret,
    );
    let record = NewRefreshToken {
        user_id: user.id,
        token: new_refresh_token.clone(),
        expires_at: now + REFRESH_TOKEN_TTL_SECS,
    };
    match store.create_refresh_token(record, now) {
        Ok(_) => Ok(
            AuthResponse {
                access_token: new_access_token,
                refresh_token: new_refresh_token,
                user: user_to_info(user),
            },
        ),
        Err(StoreError::Conflict) => Err(
            ApiError::DatabaseError(String::from_str("refresh token conflict")),
        ),
    }
}

/// Rotation: exchanges a refresh token for a fresh pair. The consumed
/// row is deleted before the replacement is persisted, so a second
/// attempt with the same string finds nothing and fails `Unauthorized`.
pub fn refresh_token(
    store: &mut AuthStore,
    cfg: &AuthConfig,
    request: RefreshTokenRequest,
    now: i64,
) -> (r: ApiResult<AuthResponse>)
    requires
        old(store).wf(),
        0 <= now,
        now + REFRESH_TOKEN_TTL_SECS <= i64::MAX,
        old(store).next_row_id < u64::MAX,
    ensures
        final(store).wf(),
        final(store).users@ == old(store).users@,
        final(store).revoked_tokens@ == old(store).revoked_tokens@,
        !(crate::tokens::spec_extract(request.refresh_token@, cfg.refresh_secret@) matches Some(c)
            && c.2 >= now) ==> r matches Err(ApiError::Unauthorized(_)),
        !old(store).has_live_refresh(request.refresh_token@, now) ==> r matches Err(
            ApiError::Unauthorized(_),
        ),
        r matches Err(ApiError::Unauthorized(_)) ==> *final(store) == *old(store),
        r matches Err(ApiError::NotFound(_)) ==> *final(store) == *old(store),
        r matches Err(e) ==> (e matches ApiError::Unauthorized(_) || e matches ApiError::NotFound(
            _,
        ) || e matches ApiError::DatabaseError(_)),
        (crate::tokens::spec_extract(request.refresh_token@, cfg.refresh_secret@) matches Some(c)
            && c.2 >= now && (exists|i: int|
            0 <= i < old(store).refresh_tokens@.len()
                && #[trigger] old(store).refresh_tokens@[i].token@ == request.refresh_token@ && old(
                store,
            ).refresh_tokens@[i].expires_at > now && old(store).refresh_tokens@[i].user_id == c.0)
            && old(store).spec_find_by_id(c.0) is Some) ==> (r matches Ok(_) || r matches Err(
            ApiError::DatabaseError(_),
        )),
        r matches Ok(resp) ==> {
            let c = crate::tokens::spec_extract(
                request.refresh_token@,
                cfg.refresh_secret@,
            )->Some_0;
            &&& crate::tokens::spec_extract(request.refresh_token@, cfg.refresh_secret@) is Some
            &&& c.2 >= now
            &&& old(store).has_live_refresh(request.refresh_token@, now)
            &&& resp.user.id == c.0
            &&& final(store).refresh_tokens@ == old(store).refresh_tokens@.filter(
                crate::store::keep_other_tokens(request.refresh_token@),
            ).push(final(store).refresh_tokens@.last())
            &&& final(store).refresh_tokens@.last().token@ == resp.refresh_token@
            &&& final(store).refresh_tokens@.last().user_id == c.0
            &&& final(store).refresh_tokens@.last().expires_at == now + REFRESH_TOKEN_TTL_SECS
            &&& final(store).next_row_id == old(store).next_row_id + 1
            &&& exists|ja: Seq<char>, jr: Seq<char>|
                is_uuid_seq(ja) && is_uuid_seq(jr) && resp.access_token@ == spec_token(
                    c.0,
                    ja,
                    (now + ACCESS_TOKEN_TTL_SECS) as i64,
                    now,
                    cfg.access_secret@,
                ) && resp.refresh_token@ == spec_token(
                    c.0,
                    jr,
                    (now + REFRESH_TOKEN_TTL_SECS) as i64,
                    now,
                    cfg.refresh_secret@,
                )
        },
        r matches Err(ApiError::DatabaseError(_)) ==> {
            let c = crate::tokens::spec_extract(
                request.refresh_token@,
                cfg.refresh_secret@,
            )->Some_0;
            &&& crate::tokens::spec_extract(request.refresh_token@, cfg.refresh_secret@) is Some
            &&& c.2 >= now
            &&& exists|i: int|
                0 <= i < old(store).refresh_tokens@.len()
                    && #[trigger] old(store).refresh_tokens@[i].token@ == request.refresh_token@
                    && old(store).refresh_tokens@[i].expires_at > now && old(
                    store,
                ).refresh_tokens@[i].user_id == c.0
            &&& old(store).spec_find_by_id(c.0) is Some
            &&& final(store).refresh_tokens@ == old(store).refresh_tokens@.filter(
                crate::store::keep_other_tokens(request.refresh_token@),
            )
            &&& final(store).next_row_id == old(store).next_row_id
            &&& exists|jr: Seq<char>|
                is_uuid_seq(jr) && (exists|i: int|
                    0 <= i < final(store).refresh_tokens@.len()
                        && #[trigger] final(store).refresh_tokens@[i].token@ == spec_token(
                        c.0,
                        jr,
                        (now + REFRESH_TOKEN_TTL_SECS) as i64,
                        now,
                        cfg.refresh_secret@,
                    ))
        },
{
    let jti_a = fresh_jti();
    let jti_r = fresh_jti();
    proof {
        lemma_uuid_seq_json_safe(jti_a@);
        lemma_uuid_seq_json_safe(jti_r@);
    }
    let r = refresh_token_with(store, cfg, request, now, jti_a.as_str(), jti_r.as_str());
    proof {
        let c = crate::tokens::spec_extract(request.refresh_token@, cfg.refresh_secret@)->Some_0;
        if r is Ok {
            let resp = r->Ok_0;
            assert(is_uuid_seq(jti_a@) && is_uuid_seq(jti_r@) && resp.access_token@ == spec_token(
                c.0,
                jti_a@,
                (now + ACCESS_TOKEN_TTL_SECS) as i64,
                now,
                cfg.access_secret@,
            ) && resp.refresh_token@ == spec_token(
                c.0,
                jti_r@,
                (now + REFRESH_TOKEN_TTL_SECS) as i64,
                now,
                cfg.refresh_secret@,
            ));
        }
        if r matches Err(ApiError::DatabaseError(_)) {
            let i = choose|i: int|
                0 <= i < store.refresh_tokens@.len() && #[trigger] store.refresh_tokens@[i].token@
                    == spec_token(
                    c.0,
                    jti_r@,
                    (now + REFRESH_TOKEN_TTL_SECS) as i64,
                    now,
                    cfg.refresh_secret@,
                );
            assert(is_uuid_seq(jti_r@) && 0 <= i < store.refresh_tokens@.len()
                && store.refresh_tokens@[i].token@ == spec_token(
                c.0,
                jti_r@,
                (now + REFRESH_TOKEN_TTL_SECS) as i64,
                now,
                cfg.refresh_secret@,
            ));
        }
    }
    r
}

/// Logout: deletes every refresh row of the authenticated user. The
/// access token that authorized the call stays valid until its natural
/// expiry; only refresh tokens are invalidated.
pub fn logout(store: &mut AuthStore, user_id: u64) -> (r: ApiResult<()>)
    requires
        old(store).wf(),
    ensures
        final(store).wf(),
        r is Ok,
        final(store).refresh_tokens@ == old(store).refresh_tokens@.filter(
            crate::store::keep_other_users(user_id),
        ),
        final(store).users@ == old(store).users@,
        final(store).revoked_tokens@ == old(store).revoked_tokens@,
        final(store).next_user_id == old(store).next_user_id,
        final(store).next_row_id == old(store).next_row_id,
{
    store.delete_user_refresh_tokens(user_id);
    Ok(())
}


/// A fresh single-use password-reset token: 32 lowercase letters drawn
/// from the random source.
pub fn generate_reset_token() -> (r: String)
    ensures
        r@.len() == 32,
        forall|i: int| 0 <= i < r@.len() ==> 'a' <= #[trigger] r@[i] <= 'z',
{
    let mut v: Vec<u8> = Vec::new();
    let mut i: usize = 0;
    while i < 32
        invariant
            0 <= i <= 32,
            v@.len() == i,
            forall|k: int| 0 <= k < v@.len() ==> 97 <= #[trigger] v@[k] <= 122,
        decreases 32 - i,
    {
        let b = crate::crypto::random_byte();
        v.push(b % 26 + 97);
        i = i + 1;
    }
    let r = crate::text::ascii_to_string(v);
    proof {
        assert forall|k: int| 0 <= k < r@.len() implies 'a' <= #[trigger] r@[k] <= 'z' by {
            assert(97 <= (r@[k] as u8) <= 122);
        }
    }
    r
}

/// Forgot password with the fresh reset token given: when the email
/// resolves to an active user, stamps the token and a one-hour expiry on
/// that row; in every case the same success answer.
pub fn forgot_password_with(
    store: &mut AuthStore,
    request: ForgotPasswordRequest,
    now: i64,
    reset_token: &str,
) -> (r: ApiResult<()>)
    requires
        old(store).wf(),
        now + crate::RESET_TOKEN_TTL_SECS <= i64::MAX,
    ensures
        final(store).wf(),
        r is Ok,
        final(store).refresh_tokens@ == old(store).refresh_tokens@,
        final(store).revoked_tokens@ == old(store).revoked_tokens@,
        final(store).next_user_id == old(store).next_user_id,
        final(store).next_row_id == old(store).next_row_id,
        match old(store).spec_find_by_email(request.email@) {
            None => final(store).users@ == old(store).users@,
            Some(i) => {
                let u0 = old(store).users@[i];
                let u1 = final(store).users@[i];
                &&& final(store).users@.len() == old(store).users@.len()
                &&& forall|k: int|
                    0 <= k < old(store).users@.len() && k != i ==> final(store).users@[k] == old(store).users@[k]
                &&& u1.id == u0.id
                &&& u1.first_name == u0.first_name
                &&& u1.last_name == u0.last_name
                &&& u1.email == u0.email
                &&& u1.password_hash == u0.password_hash
                &&& u1.is_active == u0.is_active
                &&& u1.is_verified == u0.is_verified
                &&& u1.created_at == u0.created_at
                &&& u1.updated_at == u0.updated_at
                &&& (u1.password_reset_token matches Some(t) && t@ == reset_token@)
                &&& u1.password_reset_expires == Some((now + crate::RESET_TOKEN_TTL_SECS) as i64)
            },
        },
{
    let found = store.find_user_by_email(request.email.as_str());
    let user = match found {
        Some(u) => u,
        None => {
            return Ok(());
        },
    };
    proof {
        crate::store::lemma_find_first_props(
            store.users@,
            crate::store::email_pred(request.email@),
            0,
        );
    }
    let user_id = user.id;
    let updated = User {
        password_reset_token: Some(reset_token.to_owned()),
        password_reset_expires: Some(now + crate::RESET_TOKEN_TTL_SECS),
        ..user
    };
    let ghost i = old(store).spec_find_by_email(request.email@)->Some_0;
    match store.update_user(user_id, &updated) {
        Some(_) => {
            proof {
                crate::store::lemma_find_first_props(
                    old(store).users@,
                    crate::store::row_id_pred(user_id),
                    0,
                );
                let j = old(store).spec_find_row_by_id(user_id)->Some_0;
                assert(old(store).users@[j].id == user_id);
                assert(old(store).users@[i].id == user_id);
                assert(j == i);
            }
            Ok(())
        },
        None => {
            proof {
                crate::store::lemma_find_first_props(
                    old(store).users@,
                    crate::store::row_id_pred(user_id),
                    0,
                );
                assert(crate::store::row_id_pred(user_id)(old(store).users@[i]));
                assert(false);
            }
            Ok(())
        },
    }
}

/// Forgot password: looks the email up; if a user exists, generates a
/// random single-use reset token and stores it with a one-hour expiry.
/// Always answers success, so the caller learns nothing about whether
/// the email exists.
pub fn forgot_password(store: &mut AuthStore, request: ForgotPasswordRequest, now: i64) -> (r:
    ApiResult<()>)
    requires
        old(store).wf(),
        now + crate::RESET_TOKEN_TTL_SECS <= i64::MAX,
    ensures
        final(store).wf(),
        r is Ok,
        final(store).refresh_tokens@ == old(store).refresh_tokens@,
        final(store).revoked_tokens@ == old(store).revoked_tokens@,
        final(store).next_user_id == old(store).next_user_id,
        final(store).next_row_id == old(store).next_row_id,
        old(store).spec_find_by_email(request.email@) is None ==> final(store).users@ == old(store).users@,
        old(store).spec_find_by_email(request.email@) matches Some(i) ==> {
            let u0 = old(store).users@[i];
            let u1 = final(store).users@[i];
            &&& final(store).users@.len() == old(store).users@.len()
            &&& forall|k: int|
                0 <= k < old(store).users@.len() && k != i ==> final(store).users@[k] == old(store).users@[k]
            &&& u1.id == u0.id
            &&& u1.first_name == u0.first_name
            &&& u1.last_name == u0.last_name
            &&& u1.email == u0.email
            &&& u1.password_hash == u0.password_hash
            &&& u1.is_active == u0.is_active
            &&& u1.is_verified == u0.is_verified
            &&& u1.created_at == u0.created_at
            &&& u1.updated_at == u0.updated_at
            &&& (u1.password_reset_token matches Some(t) && t@.len() == 32 && (forall|k: int|
                0 <= k < t@.len() ==> 'a' <= #[trigger] t@[k] <= 'z'))
            &&& u1.password_reset_expires == Some((now + crate::RESET_TOKEN_TTL_SECS) as i64)
        },
{
    let token = generate_reset_token();
    forgot_password_with(store, request, now, token.as_str())
}

/// Reset password: resolves the user by reset token, rejects an absent
/// or expired stamp, then stores the new digest, clears the stamp, and
/// invalidates every outstanding refresh token of that user.
pub fn reset_password(
    store: &mut AuthStore,
    cfg: &AuthConfig,
    request: ResetPasswordRequest,
    now: i64,
) -> (r: ApiResult<()>)
    requires
        old(store).wf(),
    ensures
        final(store).wf(),
        final(store).revoked_tokens@ == old(store).revoked_tokens@,
        final(store).next_user_id == old(store).next_user_id,
        final(store).next_row_id == old(store).next_row_id,
        match r {
            Err(ApiError::BadRequest(m)) => *final(store) == *old(store) && ((m@
                == "Invalid or expired reset token"@ && old(store).spec_find_by_reset_token(
                request.token@,
            ) is None) || ((old(store).spec_find_by_reset_token(request.token@) matches Some(i)
                && ((m@ == "Invalid reset token"@ && old(store).users@[i].password_reset_expires is None) || (m@ == "Reset token has expired"@
                && (old(store).users@[i].password_reset_expires matches Some(e) && e < now)))))),
            Ok(u) => {
                let i = old(store).spec_find_by_reset_token(request.token@)->Some_0;
                let u0 = old(store).users@[i];
                let u1 = final(store).users@[i];
                &&& old(store).spec_find_by_reset_token(request.token@) is Some
                &&& (u0.password_reset_expires matches Some(e) && e >= now)
                &&& final(store).users@.len() == old(store).users@.len()
                &&& forall|k: int|
                    0 <= k < old(store).users@.len() && k != i ==> final(store).users@[k] == old(store).users@[k]
                &&& u1.id == u0.id
                &&& u1.email == u0.email
                &&& u1.is_active == u0.is_active
                &&& u1.password_hash@ == spec_digest(
                    vstd::utf8::encode_utf8(request.new_password@),
                    cfg.password_secret@,
                )
                &&& u1.password_reset_token is None
                &&& u1.password_reset_expires is None
                &&& final(store).refresh_tokens@ == old(store).refresh_tokens@.filter(
                    crate::store::keep_other_users(u0.id),
                )
            },
            _ => false,
        },
{
    let user = match store.find_user_by_reset_token(request.token.as_str()) {
        Some(u) => u,
        None => {
            return Err(ApiError::BadRequest(String::from_str("Invalid or expired reset token")));
        },
    };
    match user.password_reset_expires {
        Some(expires) => {
            if expires < now {
                return Err(ApiError::BadRequest(String::from_str("Reset token has expired")));
            }
        },
        None => {
            return Err(ApiError::BadRequest(String::from_str("Invalid reset token")));
        },
    }
    proof {
        crate::store::lemma_find_first_props(
            store.users@,
            crate::store::reset_token_pred(request.token@),
            0,
        );
    }
    let new_password_hash = hash_password(request.new_password.as_str(), &cfg.password_secret);
    let user_id = user.id;
    let updated = User {
        password_hash: new_password_hash,
        password_reset_token: None,
        password_reset_expires: None,
        ..user
    };
    let ghost i = old(store).spec_find_by_reset_token(request.token@)->Some_0;
    match store.update_user(user_id, &updated) {
        Some(_) => {
            proof {
                crate::store::lemma_find_first_props(
                    old(store).users@,
                    crate::store::row_id_pred(user_id),
                    0,
                );
                let j = old(store).spec_find_row_by_id(user_id)->Some_0;
                assert(old(store).users@[j].id == user_id);
                assert(old(store).users@[i].id == user_id);
                assert(j == i);
            }
        },
        None => {
            proof {
                crate::store::lemma_find_first_props(
                    old(store).users@,
                    crate::store::row_id_pred(user_id),
                    0,
                );
                assert(crate::store::row_id_pred(user_id)(old(store).users@[i]));
                assert(false);
            }
        },
    }
    store.delete_user_refresh_tokens(user_id);
    Ok(())
}

/// The identity a checked access token authenticates.
pub struct AuthUser(pub u64);

/// The token inside a bearer authorization header, if the header has the
/// right shape.
pub open spec fn spec_bearer_token(h: Seq<char>) -> Option<Seq<char>> {
    if h.len() >= 7 && h.subrange(0, 7) == seq!['B', 'e', 'a', 'r', 'e', 'r', ' '] {
        Some(h.skip(7))
    } else {
        None
    }
}

/// The access check every protected operation goes through: bearer
/// header shape, token signature and expiry, then the revocation list —
/// a fresh store read, never a cache.
pub fn authorize_request(
    store: &AuthStore,
    cfg: &AuthConfig,
    auth_header: Option<&str>,
    now: i64,
) -> (r: ApiResult<AuthUser>)
    ensures
        match r {
            Ok(user) => {
                let h = auth_header->Some_0;
                let t = spec_bearer_token(h@)->Some_0;
                let c = crate::tokens::spec_extract(t, cfg.access_secret@)->Some_0;
                &&& auth_header is Some
                &&& spec_bearer_token(h@) is Some
                &&& crate::tokens::spec_extract(t, cfg.access_secret@) is Some
                &&& c.2 >= now
                &&& !store.has_live_revocation(c.1, now)
                &&& user.0 == c.0
            },
            Err(ApiError::Unauthorized(_)) => match auth_header {
                None => true,
                Some(h) => match spec_bearer_token(h@) {
                    None => true,
                    Some(t) => !(crate::tokens::spec_extract(t, cfg.access_secret@) matches Some(c)
                        && c.2 >= now && !store.has_live_revocation(c.1, now)),
                },
            },
            _ => false,
        },
{
    let header = match auth_header {
        Some(h) => h,
        None => {
            return Err(ApiError::Unauthorized(String::from_str("Unauthorized")));
        },
    };
    let n = vstd::string::StrSliceExecFns::unicode_len(header);
    if n < 7 {
        return Err(ApiError::Unauthorized(String::from_str("Unauthorized")));
    }
    let c0 = vstd::string::StrSliceExecFns::get_char(header, 0);
    let c1 = vstd::string::StrSliceExecFns::get_char(header, 1);
    let c2 = vstd::string::StrSliceExecFns::get_char(header, 2);
    let c3 = vstd::string::StrSliceExecFns::get_char(header, 3);
    let c4 = vstd::string::StrSliceExecFns::get_char(header, 4);
    let c5 = vstd::string::StrSliceExecFns::get_char(header, 5);
    let c6 = vstd::string::StrSliceExecFns::get_char(header, 6);
    if !(c0 == 'B' && c1 == 'e' && c2 == 'a' && c3 == 'r' && c4 == 'e' && c5 == 'r' && c6 == ' ') {
        proof {
            assert(header@.subrange(0, 7) != seq!['B', 'e', 'a', 'r', 'e', 'r', ' ']) by {
                assert(header@.subrange(0, 7)[0] == header@[0]);
                assert(header@.subrange(0, 7)[1] == header@[1]);
                assert(header@.subrange(0, 7)[2] == header@[2]);
                assert(header@.subrange(0, 7)[3] == header@[3]);
                assert(header@.subrange(0, 7)[4] == header@[4]);
                assert(header@.subrange(0, 7)[5] == header@[5]);
                assert(header@.subrange(0, 7)[6] == header@[6]);
            }
        }
        return Err(ApiError::Unauthorized(String::from_str("Unauthorized")));
    }
    proof {
        assert(header@.subrange(0, 7) =~= seq!['B', 'e', 'a', 'r', 'e', 'r', ' ']);
    }
    let token = vstd::string::StrSliceExecFns::substring_char(header, 7, n);
    proof {
        assert(token@ =~= header@.skip(7));
    }
    let claims = match crate::tokens::validate_access_token(cfg, token, now) {
        Ok(c) => c,
        Err(_) => {
            return Err(ApiError::Unauthorized(String::from_str("Unauthorized")));
        },
    };
    if store.is_token_revoked(claims.jti.as_str(), now) {
        return Err(ApiError::Unauthorized(String::from_str("Unauthorized")));
    }
    Ok(AuthUser(claims.sub))
}

} // verus!
