//! The profile service: reading and updating the authenticated user's
//! own record.

use vstd::prelude::*;
use crate::errors::{ApiError, ApiResult};
use crate::store::{id_pred, lemma_find_first_props, row_id_pred, AuthStore, User};

verus! {

pub struct UpdateUserProfileRequest {
    pub first_name: Option<String>,
    pub last_name: Option<String>,
    pub email: Option<String>,
}

/// The full view of a user's own record.
pub struct UserProfileResponse {
    pub id: u64,
    pub first_name: String,
    pub last_name: String,
    pub email: String,
    pub is_active: bool,
    pub is_verified: bool,
    pub created_at: i64,
    pub updated_at: i64,
}

pub fn user_to_profile_response(user: User) -> (r: UserProfileResponse)
    ensures
        r.id == user.id,
        r.first_name@ == user.first_name@,
        r.last_name@ == user.last_name@,
        r.email@ == user.email@,
        r.is_active == user.is_active,
        r.is_verified == user.is_verified,
        r.created_at == user.created_at,
        r.updated_at == user.updated_at,
{
    UserProfileResponse {
        id: user.id,
        first_name: user.first_name,
        last_name: user.last_name,
        email: user.email,
        is_active: user.is_active,
        is_verified: user.is_verified,
        created_at: user.created_at,
        updated_at: user.updated_at,
    }
}

/// The profile of the active user with this id, `NotFound` otherwise.
pub fn get_user_profile(store: &AuthStore, user_id: u64) -> (r: ApiResult<UserProfileResponse>)
    ensures
        match r {
            Ok(p) => {
                let i = store.spec_find_by_id(user_id)->Some_0;
                &&& store.spec_find_by_id(user_id) is Some
                &&& p.id == store.users@[i].id
                &&& p.email@ == store.users@[i].email@
                &&& p.is_active == store.users@[i].is_active
            },
            Err(ApiError::NotFound(m)) => store.spec_find_by_id(user_id) is None && m@
                == "Resource not found"@,
            _ => false,
        },
{
    match store.find_user_by_id(user_id) {
        Some(u) => Ok(user_to_profile_response(u)),
        None => Err(ApiError::NotFound(String::from_str("Resource not found"))),
    }
}

/// Applies the given fields to the user's record; a new email that any
/// active user already holds (the caller too) is a conflict.
pub fn update_user_profile(
    store: &mut AuthStore,
    user_id: u64,
    request: UpdateUserProfileRequest,
) -> (r: ApiResult<UserProfileResponse>)
    requires
        old(store).wf(),
    ensures
        final(store).wf(),
        final(store).refresh_tokens@ == old(store).refresh_tokens@,
        final(store).revoked_tokens@ == old(store).revoked_tokens@,
        final(store).next_user_id == old(store).next_user_id,
        final(store).next_row_id == old(store).next_row_id,
        match r {
            Err(ApiError::NotFound(_)) => old(store).spec_find_by_id(user_id) is None && *final(store) == *old(store),
            Err(ApiError::ResourceAlreadyExists(m)) => {
                &&& old(store).spec_find_by_id(user_id) is Some
                &&& (request.email matches Some(e) && old(store).spec_find_by_email(e@) is Some)
                &&& m@ == "Email already in use"@
                &&& *final(store) == *old(store)
            },
            Ok(p) => {
                let i = old(store).spec_find_by_id(user_id)->Some_0;
                let u0 = old(store).users@[i];
                let u1 = final(store).users@[i];
                &&& old(store).spec_find_by_id(user_id) is Some
                &&& (request.email matches Some(e) ==> old(store).spec_find_by_email(e@) is None)
                &&& final(store).users@.len() == old(store).users@.len()
                &&& forall|k: int|
                    0 <= k < old(store).users@.len() && k != i ==> final(store).users@[k] == old(store).users@[k]
                &&& u1.id == u0.id
                &&& u1.first_name@ == (match request.first_name {
                    Some(f) => f@,
                    None => u0.first_name@,
                })
                &&& u1.last_name@ == (match request.last_name {
                    Some(l) => l@,
                    None => u0.last_name@,
                })
                &&& u1.email@ == (match request.email {
                    Some(e) => e@,
                    None => u0.email@,
                })
                &&& u1.password_hash == u0.password_hash
                &&& u1.is_active == u0.is_active
                &&& p.id == u0.id
                &&& p.email@ == u1.email@
                &&& p.first_name@ == u1.first_name@
            },
            _ => false,
        },
{
    let mut user = match store.find_user_by_id(user_id) {
        Some(u) => u,
        None => {
            return Err(ApiError::NotFound(String::from_str("Resource not found")));
        },
    };
    proof {
        lemma_find_first_props(store.users@, id_pred(user_id), 0);
    }
    if let Some(first_name) = request.first_name {
        user.first_name = first_name;
    }
    if let Some(last_name) = request.last_name {
        user.last_name = last_name;
    }
    match request.email {
        Some(email) => {
            if store.find_user_by_email(email.as_str()).is_some() {
                return Err(ApiError::ResourceAlreadyExists(String::from_str(
                    "Email already in use",
                )));
            }
            user.email = email;
        },
        None => {},
    }
    let uid = user.id;
    let ghost i = old(store).spec_find_by_id(user_id)->Some_0;
    let updated = match store.update_user(uid, &user) {
        Some(u) => u,
        None => {
            proof {
                lemma_find_first_props(old(store).users@, row_id_pred(uid), 0);
                assert(row_id_pred(uid)(old(store).users@[i]));
                assert(false);
            }
            return Err(ApiError::NotFound(String::from_str("Resource not found")));
        },
    };
    proof {
        lemma_find_first_props(old(store).users@, row_id_pred(uid), 0);
        let j = old(store).spec_find_row_by_id(uid)->Some_0;
        assert(old(store).users@[j].id == uid);
        assert(old(store).users@[i].id == uid);
        assert(j == i);
    }
    Ok(user_to_profile_response(updated))
}

} // verus!
