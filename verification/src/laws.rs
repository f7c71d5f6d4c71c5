//! The laws the subsystem stands for, proved over the same spec
//! functions the flows' contracts use. Each lemma names the flow
//! contracts it composes with.

use vstd::prelude::*;
use crate::claims::claims_wf;
use crate::store::{
    email_pred, find_first, keep_live_refresh, keep_other_tokens, keep_other_users,
    lemma_filter_elem, lemma_find_first_props, AuthStore, RefreshToken, User,
};
use crate::tokens::{spec_extract, spec_token, lemma_extract_complete};

verus! {

/// A registration that appended an active user with an email leaves that
/// email taken, so a second registration with it fails `Conflict` by
/// [`crate::session::register`]'s contract: its `ResourceAlreadyExists`
/// answer holds exactly when the email lookup finds an active user.
pub proof fn lemma_registered_email_taken(before: AuthStore, after: AuthStore, u: User)
    requires
        after.users@ == before.users@.push(u),
        u.is_active,
    ensures
        after.spec_find_by_email(u.email@) is Some,
{
    lemma_find_first_props(after.users@, email_pred(u.email@), 0);
    if after.spec_find_by_email(u.email@) is None {
        assert(after.users@[after.users@.len() - 1] == u);
        assert(email_pred(u.email@)(u));
    }
}

/// A successful rotation leaves no live row holding the consumed token
/// string, as long as the replacement row's string differs from it (the
/// one input the claim must except: a colliding fresh token). By
/// [`crate::session::refresh_token`]'s contract the next rotation
/// attempt with the consumed string then fails `Unauthorized`: exactly
/// one attempt on a given string succeeds.
pub proof fn lemma_rotation_single_use(
    before: AuthStore,
    after: AuthStore,
    consumed: Seq<char>,
    new_row: RefreshToken,
    now: i64,
)
    requires
        after.refresh_tokens@ == before.refresh_tokens@.filter(
            keep_other_tokens(consumed),
        ).push(new_row),
        new_row.token@ != consumed,
    ensures
        !after.has_refresh(consumed),
        !after.has_live_refresh(consumed, now),
{
    broadcast use vstd::seq_lib::group_filter_ensures;

    let filtered = before.refresh_tokens@.filter(keep_other_tokens(consumed));
    assert forall|i: int|
        0 <= i < after.refresh_tokens@.len() implies #[trigger] after.refresh_tokens@[i].token@
        != consumed by {
        if i < filtered.len() {
            assert(after.refresh_tokens@[i] == filtered[i]);
            assert(keep_other_tokens(consumed)(filtered[i]));
        } else {
            assert(after.refresh_tokens@[i] == new_row);
        }
    }
}

/// Deleting every refresh row of a user (logout, and password reset,
/// which both leave the store's rows filtered to other users) makes
/// every token string that only that user's rows held fail lookup, so a
/// rotation attempt with it fails `Unauthorized` by
/// [`crate::session::refresh_token`]'s contract.
pub proof fn lemma_user_rows_deleted(
    before: AuthStore,
    after: AuthStore,
    user_id: u64,
    token: Seq<char>,
    now: i64,
)
    requires
        after.refresh_tokens@ == before.refresh_tokens@.filter(keep_other_users(user_id)),
        forall|i: int|
            0 <= i < before.refresh_tokens@.len() && #[trigger] before.refresh_tokens@[i].token@
                == token ==> before.refresh_tokens@[i].user_id == user_id,
    ensures
        !after.has_refresh(token),
        !after.has_live_refresh(token, now),
{
    broadcast use vstd::seq_lib::group_filter_ensures;

    assert forall|i: int|
        0 <= i < after.refresh_tokens@.len() implies #[trigger] after.refresh_tokens@[i].token@
        != token by {
        assert(keep_other_users(user_id)(after.refresh_tokens@[i]));
        lemma_filter_elem(before.refresh_tokens@, keep_other_users(user_id), i);
        let j = choose|j: int|
            0 <= j < before.refresh_tokens@.len() && after.refresh_tokens@[i]
                == #[trigger] before.refresh_tokens@[j];
        if after.refresh_tokens@[i].token@ == token {
            assert(before.refresh_tokens@[j].user_id == user_id);
        }
    }
}

/// After a password reset the old password no longer verifies, except on
/// the one input the claim must except: an old password whose digest
/// collides with the new password's. The stored digest is the new one by
/// [`crate::session::reset_password`]'s contract, and
/// [`crate::hashing::verify_password`] answers exactly the comparison
/// with the stored digest.
pub proof fn lemma_old_password_rejected(
    stored: Seq<char>,
    old_password: Seq<u8>,
    new_password: Seq<u8>,
    key: Seq<u8>,
)
    requires
        stored == crate::hashing::spec_digest(new_password, key),
        crate::hashing::spec_digest(old_password, key) != crate::hashing::spec_digest(
            new_password,
            key,
        ),
    ensures
        stored != crate::hashing::spec_digest(old_password, key),
{
}

/// A freshly minted token checks out as exactly the claims it was minted
/// for. With [`crate::tokens::validate_access_token`]'s contract this
/// pins the expiry edge: the check at time `t` succeeds while
/// `t <= iat + ACCESS_TOKEN_TTL_SECS` and fails `Expired` beyond it.
pub proof fn lemma_fresh_token_checks(
    user_id: u64,
    jti: Seq<char>,
    iat: i64,
    exp: i64,
    key: Seq<u8>,
)
    requires
        claims_wf(user_id, jti, exp, iat),
    ensures
        spec_extract(spec_token(user_id, jti, exp, iat, key), key) == Some(
            (user_id, jti, exp, iat),
        ),
{
    lemma_extract_complete(user_id, jti, exp, iat, key);
}

/// The sweep keeps exactly the rows not yet expired: everything left is
/// live at the sweep instant, and every token that had a live row still
/// has it. With [`crate::store::AuthStore::clean_expired_refresh_tokens`]'s
/// contract: expired rows are removed, live rows stay queryable.
pub proof fn lemma_sweep_exact(before: AuthStore, after: AuthStore, now: i64, token: Seq<char>)
    requires
        after.refresh_tokens@ == before.refresh_tokens@.filter(keep_live_refresh(now)),
    ensures
        forall|i: int|
            0 <= i < after.refresh_tokens@.len() ==> #[trigger] after.refresh_tokens@[i].expires_at
                >= now,
        before.has_live_refresh(token, now) ==> after.has_live_refresh(token, now),
{
    broadcast use vstd::seq_lib::group_filter_ensures;

    assert forall|i: int|
        0 <= i < after.refresh_tokens@.len() implies #[trigger] after.refresh_tokens@[i].expires_at
        >= now by {
        assert(keep_live_refresh(now)(after.refresh_tokens@[i]));
    }
    if before.has_live_refresh(token, now) {
        let i = choose|i: int|
            0 <= i < before.refresh_tokens@.len() && #[trigger] before.refresh_tokens@[i].token@
                == token && before.refresh_tokens@[i].expires_at > now;
        let row = before.refresh_tokens@[i];
        assert(keep_live_refresh(now)(row));
        assert(after.refresh_tokens@.contains(row)) by {
            Seq::lemma_filter_contains(before.refresh_tokens@, keep_live_refresh(now), i);
        }
        let j = choose|j: int| 0 <= j < after.refresh_tokens@.len() && after.refresh_tokens@[j] == row;
        assert(after.refresh_tokens@[j].token@ == token && after.refresh_tokens@[j].expires_at
            > now);
    }
}

} // verus!
