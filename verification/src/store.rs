//! The token store and user records: the persistent state the session
//! flows read and write, held as plain rows with the store contract the
//! flows rely on (live-row lookup, idempotent deletes, expiry sweeps).

use vstd::prelude::*;
use vstd::seq_lib::group_filter_ensures;

verus! {

/// An identity record.
pub struct User {
    pub id: u64,
    pub first_name: String,
    pub last_name: String,
    pub email: String,
    pub password_hash: String,
    pub is_active: bool,
    pub is_verified: bool,
    pub password_reset_token: Option<String>,
    pub password_reset_expires: Option<i64>,
    pub created_at: i64,
    pub updated_at: i64,
}

impl Clone for User {
    fn clone(&self) -> (res: Self)
        ensures
            res == *self,
    {
        User {
            id: self.id,
            first_name: self.first_name.clone(),
            last_name: self.last_name.clone(),
            email: self.email.clone(),
            password_hash: self.password_hash.clone(),
            is_active: self.is_active,
            is_verified: self.is_verified,
            password_reset_token: match &self.password_reset_token {
                Some(t) => Some(t.clone()),
                None => None,
            },
            password_reset_expires: self.password_reset_expires,
            created_at: self.created_at,
            updated_at: self.updated_at,
        }
    }
}

/// The shape of a user row at creation.
pub struct NewUser {
    pub first_name: String,
    pub last_name: String,
    pub email: String,
    pub password_hash: String,
    pub is_active: bool,
    pub is_verified: bool,
}

/// One outstanding refresh token.
pub struct RefreshToken {
    pub id: u64,
    pub user_id: u64,
    pub token: String,
    pub expires_at: i64,
    pub created_at: i64,
}

impl Clone for RefreshToken {
    fn clone(&self) -> (res: Self)
        ensures
            res == *self,
    {
        RefreshToken {
            id: self.id,
            user_id: self.user_id,
            token: self.token.clone(),
            expires_at: self.expires_at,
            created_at: self.created_at,
        }
    }
}

/// The shape of a refresh-token row at creation.
pub struct NewRefreshToken {
    pub user_id: u64,
    pub token: String,
    pub expires_at: i64,
}

/// A blacklisted access-token id, kept until the token's own expiry.
pub struct RevokedToken {
    pub id: u64,
    pub token_jti: String,
    pub user_id: u64,
    pub expiry: i64,
}

impl Clone for RevokedToken {
    fn clone(&self) -> (res: Self)
        ensures
            res == *self,
    {
        RevokedToken {
            id: self.id,
            token_jti: self.token_jti.clone(),
            user_id: self.user_id,
            expiry: self.expiry,
        }
    }
}

/// The shape of a revocation entry at creation.
pub struct NewRevokedToken {
    pub token_jti: String,
    pub user_id: u64,
    pub expiry: i64,
}

/// The store refuses a refresh token whose string collides with a stored
/// one.
#[derive(Clone, Copy, Debug, PartialEq, Eq, Structural)]
pub enum StoreError {
    Conflict,
}

/// The first index at or after `from` whose element satisfies `pred`.
pub open spec fn find_first<T>(s: Seq<T>, pred: spec_fn(T) -> bool, from: int) -> Option<int>
    decreases s.len() - from,
{
    if from < 0 || from >= s.len() {
        None
    } else if pred(s[from]) {
        Some(from)
    } else {
        find_first(s, pred, from + 1)
    }
}

pub proof fn lemma_find_first_props<T>(s: Seq<T>, pred: spec_fn(T) -> bool, from: int)
    requires
        0 <= from <= s.len(),
    ensures
        match find_first(s, pred, from) {
            Some(i) => from <= i < s.len() && pred(s[i]) && forall|k: int|
                from <= k < i ==> !pred(#[trigger] s[k]),
            None => forall|k: int| from <= k < s.len() ==> !pred(#[trigger] s[k]),
        },
    decreases s.len() - from,
{
    if from < s.len() && !pred(s[from]) {
        lemma_find_first_props(s, pred, from + 1);
    }
}

pub proof fn lemma_filter_push<T>(s: Seq<T>, pred: spec_fn(T) -> bool, x: T)
    ensures
        (s.push(x)).filter(pred) == if pred(x) {
            s.filter(pred).push(x)
        } else {
            s.filter(pred)
        },
{
    broadcast use group_filter_ensures;

    assert(s.push(x) =~= s + seq![x]);
    Seq::filter_distributes_over_add(s, seq![x], pred);
    reveal_with_fuel(Seq::filter, 3);
    assert(seq![x].drop_last() =~= Seq::<T>::empty());
    if pred(x) {
        assert(seq![x].filter(pred) =~= seq![x]);
        assert(s.filter(pred) + seq![x] =~= s.filter(pred).push(x));
    } else {
        assert(seq![x].filter(pred) =~= Seq::<T>::empty());
        assert(s.filter(pred) + Seq::<T>::empty() =~= s.filter(pred));
    }
}

/// Every element of a filtered sequence stands somewhere in the
/// original.
pub proof fn lemma_filter_elem<T>(s: Seq<T>, pred: spec_fn(T) -> bool, k: int)
    requires
        0 <= k < s.filter(pred).len(),
    ensures
        exists|i: int| 0 <= i < s.len() && s.filter(pred)[k] == #[trigger] s[i],
    decreases s.len(),
{
    reveal_with_fuel(Seq::filter, 2);
    broadcast use vstd::seq_lib::group_filter_ensures;

    if s.len() > 0 {
        let dl = s.drop_last();
        if pred(s.last()) {
            assert(s.filter(pred) == dl.filter(pred).push(s.last()));
            if k == s.filter(pred).len() - 1 {
                assert(s.filter(pred)[k] == s[s.len() - 1]);
            } else {
                lemma_filter_elem(dl, pred, k);
                let i = choose|i: int| 0 <= i < dl.len() && dl.filter(pred)[k] == #[trigger] dl[i];
                assert(s.filter(pred)[k] == s[i]);
            }
        } else {
            assert(s.filter(pred) == dl.filter(pred));
            lemma_filter_elem(dl, pred, k);
            let i = choose|i: int| 0 <= i < dl.len() && dl.filter(pred)[k] == #[trigger] dl[i];
            assert(s.filter(pred)[k] == s[i]);
        }
    }
}

/// Pairwise-distinct token strings among refresh rows.
pub open spec fn distinct_tokens(s: Seq<RefreshToken>) -> bool {
    forall|i: int, j: int|
        #![trigger s[i].token@, s[j].token@]
        0 <= i < j < s.len() ==> s[i].token@ != s[j].token@
}

/// Filtering keeps token strings pairwise distinct.
pub proof fn lemma_filter_distinct_tokens(s: Seq<RefreshToken>, pred: spec_fn(RefreshToken) -> bool)
    requires
        distinct_tokens(s),
    ensures
        distinct_tokens(s.filter(pred)),
    decreases s.len(),
{
    reveal_with_fuel(Seq::filter, 2);
    broadcast use vstd::seq_lib::group_filter_ensures;

    if s.len() > 0 {
        let dl = s.drop_last();
        assert(distinct_tokens(dl)) by {
            assert forall|i: int, j: int|
                #![trigger dl[i].token@, dl[j].token@]
                0 <= i < j < dl.len() implies dl[i].token@ != dl[j].token@ by {
                assert(s[i].token@ != s[j].token@);
            }
        }
        lemma_filter_distinct_tokens(dl, pred);
        if pred(s.last()) {
            assert(s.filter(pred) == dl.filter(pred).push(s.last()));
            let f = s.filter(pred);
            assert forall|a: int, b: int|
                #![trigger f[a].token@, f[b].token@]
                0 <= a < b < f.len() implies f[a].token@ != f[b].token@ by {
                if b == f.len() - 1 {
                    lemma_filter_elem(dl, pred, a);
                    let i = choose|i: int|
                        0 <= i < dl.len() && dl.filter(pred)[a] == #[trigger] dl[i];
                    assert(f[a] == s[i]);
                    assert(f[b] == s[s.len() - 1]);
                    assert(s[i].token@ != s[s.len() - 1].token@);
                } else {
                    assert(f[a] == dl.filter(pred)[a]);
                    assert(f[b] == dl.filter(pred)[b]);
                }
            }
        } else {
            assert(s.filter(pred) == dl.filter(pred));
        }
    }
}

/// The predicates the store's lookups go by, shared between their
/// specifications and their loops.
pub open spec fn email_pred(email: Seq<char>) -> spec_fn(User) -> bool {
    |u: User| u.is_active && u.email@ == email
}

pub open spec fn id_pred(user_id: u64) -> spec_fn(User) -> bool {
    |u: User| u.is_active && u.id == user_id
}

pub open spec fn reset_token_pred(token: Seq<char>) -> spec_fn(User) -> bool {
    |u: User| u.is_active && (u.password_reset_token matches Some(t) && t@ == token)
}

pub open spec fn row_id_pred(user_id: u64) -> spec_fn(User) -> bool {
    |u: User| u.id == user_id
}

/// Keep a refresh row: it does not hold this token string.
pub open spec fn keep_other_tokens(token: Seq<char>) -> spec_fn(RefreshToken) -> bool {
    |r: RefreshToken| r.token@ != token
}

/// Keep a refresh row: it belongs to another user.
pub open spec fn keep_other_users(user_id: u64) -> spec_fn(RefreshToken) -> bool {
    |r: RefreshToken| r.user_id != user_id
}

/// Keep a refresh row: it has not expired by `now`.
pub open spec fn keep_live_refresh(now: i64) -> spec_fn(RefreshToken) -> bool {
    |r: RefreshToken| r.expires_at >= now
}

/// Keep a revocation entry: it has not expired by `now`.
pub open spec fn keep_live_revocation(now: i64) -> spec_fn(RevokedToken) -> bool {
    |r: RevokedToken| r.expiry >= now
}

/// The store: user rows, outstanding refresh tokens, revocation entries,
/// and the counters that mint fresh row ids.
pub struct AuthStore {
    pub users: Vec<User>,
    pub refresh_tokens: Vec<RefreshToken>,
    pub revoked_tokens: Vec<RevokedToken>,
    pub next_user_id: u64,
    pub next_row_id: u64,
}

impl AuthStore {
    /// The store's invariant: user ids are unique and below the id
    /// counter, and refresh-token strings are unique.
    pub open spec fn wf(self) -> bool {
        &&& forall|i: int, j: int|
            #![trigger self.users@[i].id, self.users@[j].id]
            0 <= i < j < self.users@.len() ==> self.users@[i].id != self.users@[j].id
        &&& forall|i: int|
            0 <= i < self.users@.len() ==> #[trigger] self.users@[i].id < self.next_user_id
        &&& forall|i: int, j: int|
            #![trigger self.refresh_tokens@[i].token@, self.refresh_tokens@[j].token@]
            0 <= i < j < self.refresh_tokens@.len() ==> self.refresh_tokens@[i].token@
                != self.refresh_tokens@[j].token@
    }

    /// A live refresh row holding this token string.
    pub open spec fn has_live_refresh(self, token: Seq<char>, now: i64) -> bool {
        exists|i: int|
            0 <= i < self.refresh_tokens@.len() && #[trigger] self.refresh_tokens@[i].token@
                == token && self.refresh_tokens@[i].expires_at > now
    }

    /// Any refresh row holding this token string, live or expired.
    pub open spec fn has_refresh(self, token: Seq<char>) -> bool {
        exists|i: int|
            0 <= i < self.refresh_tokens@.len() && #[trigger] self.refresh_tokens@[i].token@
                == token
    }

    /// A live revocation entry for this token id.
    pub open spec fn has_live_revocation(self, token_jti: Seq<char>, now: i64) -> bool {
        exists|i: int|
            0 <= i < self.revoked_tokens@.len() && #[trigger] self.revoked_tokens@[i].token_jti@
                == token_jti && self.revoked_tokens@[i].expiry > now
    }

    /// The first active user with this email.
    pub open spec fn spec_find_by_email(self, email: Seq<char>) -> Option<int> {
        find_first(self.users@, email_pred(email), 0)
    }

    /// The first active user with this id.
    pub open spec fn spec_find_by_id(self, user_id: u64) -> Option<int> {
        find_first(self.users@, id_pred(user_id), 0)
    }

    /// The first active user holding this password-reset token.
    pub open spec fn spec_find_by_reset_token(self, token: Seq<char>) -> Option<int> {
        find_first(self.users@, reset_token_pred(token), 0)
    }

    /// The first user row with this id, active or not.
    pub open spec fn spec_find_row_by_id(self, user_id: u64) -> Option<int> {
        find_first(self.users@, row_id_pred(user_id), 0)
    }

    pub fn new() -> (r: AuthStore)
        ensures
            r.wf(),
            r.users@.len() == 0,
            r.refresh_tokens@.len() == 0,
            r.revoked_tokens@.len() == 0,
            r.next_user_id == 0,
            r.next_row_id == 0,
    {
        AuthStore {
            users: Vec::new(),
            refresh_tokens: Vec::new(),
            revoked_tokens: Vec::new(),
            next_user_id: 0,
            next_row_id: 0,
        }
    }

    /// Inserts a user row with a fresh id; `now` stamps its creation.
    pub fn create_user(&mut self, new_user: NewUser, now: i64) -> (r: User)
        requires
            old(self).wf(),
            old(self).next_user_id < u64::MAX,
        ensures
            final(self).wf(),
            r == (User {
                id: old(self).next_user_id,
                first_name: new_user.first_name,
                last_name: new_user.last_name,
                email: new_user.email,
                password_hash: new_user.password_hash,
                is_active: new_user.is_active,
                is_verified: new_user.is_verified,
                password_reset_token: None::<String>,
                password_reset_expires: None::<i64>,
                created_at: now,
                updated_at: now,
            }),
            final(self).users@ == old(self).users@.push(r),
            final(self).refresh_tokens@ == old(self).refresh_tokens@,
            final(self).revoked_tokens@ == old(self).revoked_tokens@,
            final(self).next_user_id == old(self).next_user_id + 1,
            final(self).next_row_id == old(self).next_row_id,
    {
        let user = User {
            id: self.next_user_id,
            first_name: new_user.first_name,
            last_name: new_user.last_name,
            email: new_user.email,
            password_hash: new_user.password_hash,
            is_active: new_user.is_active,
            is_verified: new_user.is_verified,
            password_reset_token: None,
            password_reset_expires: None,
            created_at: now,
            updated_at: now,
        };
        let r = user.clone();
        self.users.push(user);
        self.next_user_id = self.next_user_id + 1;
        r
    }

    /// The first active user with this email; inactive rows never
    /// match.
    pub fn find_user_by_email(&self, email: &str) -> (r: Option<User>)
        ensures
            match r {
                Some(u) => self.spec_find_by_email(email@) matches Some(i) && u == self.users@[i],
                None => self.spec_find_by_email(email@) is None,
            },
    {
        let ghost pred = email_pred(email@);
        let owned: String = email.to_owned();
        let mut i: usize = 0;
        while i < self.users.len()
            invariant
                0 <= i <= self.users@.len(),
                owned@ == email@,
                pred == email_pred(email@),
                find_first(self.users@, pred, 0) == find_first(self.users@, pred, i as int),
            decreases self.users@.len() - i,
        {
            let u = &self.users[i];
            if u.is_active && u.email == owned {
                proof {
                    assert(pred(self.users@[i as int]));
                    assert(find_first(self.users@, pred, i as int) == Some(i as int));
                }
                return Some(u.clone());
            }
            proof {
                assert(!pred(self.users@[i as int]));
                assert(find_first(self.users@, pred, i as int) == find_first(
                    self.users@,
                    pred,
                    i as int + 1,
                ));
            }
            i = i + 1;
        }
        None
    }

    /// The first active user with this id.
    pub fn find_user_by_id(&self, user_id: u64) -> (r: Option<User>)
        ensures
            match r {
                Some(u) => self.spec_find_by_id(user_id) matches Some(i) && u == self.users@[i],
                None => self.spec_find_by_id(user_id) is None,
            },
    {
        let ghost pred = id_pred(user_id);
        let mut i: usize = 0;
        while i < self.users.len()
            invariant
                0 <= i <= self.users@.len(),
                pred == id_pred(user_id),
                find_first(self.users@, pred, 0) == find_first(self.users@, pred, i as int),
            decreases self.users@.len() - i,
        {
            let u = &self.users[i];
            if u.is_active && u.id == user_id {
                proof {
                    assert(pred(self.users@[i as int]));
                    assert(find_first(self.users@, pred, i as int) == Some(i as int));
                }
                return Some(u.clone());
            }
            proof {
                assert(!pred(self.users@[i as int]));
                assert(find_first(self.users@, pred, i as int) == find_first(
                    self.users@,
                    pred,
                    i as int + 1,
                ));
            }
            i = i + 1;
        }
        None
    }

    /// The first active user holding this password-reset token.
    pub fn find_user_by_reset_token(&self, token: &str) -> (r: Option<User>)
        ensures
            match r {
                Some(u) => self.spec_find_by_reset_token(token@) matches Some(i) && u
                    == self.users@[i],
                None => self.spec_find_by_reset_token(token@) is None,
            },
    {
        let ghost pred = reset_token_pred(token@);
        let owned: String = token.to_owned();
        let mut i: usize = 0;
        while i < self.users.len()
            invariant
                0 <= i <= self.users@.len(),
                owned@ == token@,
                pred == reset_token_pred(token@),
                find_first(self.users@, pred, 0) == find_first(self.users@, pred, i as int),
            decreases self.users@.len() - i,
        {
            let u = &self.users[i];
            if u.is_active {
                let hit = match &u.password_reset_token {
                    Some(t) => *t == owned,
                    None => false,
                };
                if hit {
                    proof {
                        assert(pred(self.users@[i as int]));
                        assert(find_first(self.users@, pred, i as int) == Some(i as int));
                    }
                    return Some(u.clone());
                }
            }
            proof {
                assert(!pred(self.users@[i as int]));
                assert(find_first(self.users@, pred, i as int) == find_first(
                    self.users@,
                    pred,
                    i as int + 1,
                ));
            }
            i = i + 1;
        }
        None
    }

    /// Overwrites the row with this id (everything but the id itself);
    /// an absent id is an error and leaves the store unchanged.
    pub fn update_user(&mut self, user_id: u64, user_data: &User) -> (r: Option<User>)
        requires
            old(self).wf(),
            user_data.id == user_id,
        ensures
            final(self).wf(),
            final(self).refresh_tokens@ == old(self).refresh_tokens@,
            final(self).revoked_tokens@ == old(self).revoked_tokens@,
            final(self).next_user_id == old(self).next_user_id,
            final(self).next_row_id == old(self).next_row_id,
            match r {
                Some(u) => old(self).spec_find_row_by_id(user_id) matches Some(i) && u
                    == *user_data && final(self).users@ == old(self).users@.update(i, *user_data),
                None => old(self).spec_find_row_by_id(user_id) is None && final(self).users@
                    == old(self).users@,
            },
    {
        let ghost pred = row_id_pred(user_id);
        let mut i: usize = 0;
        while i < self.users.len()
            invariant
                0 <= i <= self.users@.len(),
                pred == row_id_pred(user_id),
                old(self).wf(),
                user_data.id == user_id,
                self.users@ == old(self).users@,
                self.refresh_tokens@ == old(self).refresh_tokens@,
                self.revoked_tokens@ == old(self).revoked_tokens@,
                self.next_user_id == old(self).next_user_id,
                self.next_row_id == old(self).next_row_id,
                find_first(self.users@, pred, 0) == find_first(self.users@, pred, i as int),
            decreases self.users@.len() - i,
        {
            if self.users[i].id == user_id {
                proof {
                    assert(pred(self.users@[i as int]));
                    assert(find_first(self.users@, pred, i as int) == Some(i as int));
                }
                let updated = user_data.clone();
                self.users.set(i, updated);
                proof {
                    assert(self.users@ =~= old(self).users@.update(i as int, *user_data));
                    assert forall|a: int|
                        0 <= a < self.users@.len() implies #[trigger] self.users@[a].id < self
                        .next_user_id by {
                        assert(old(self).users@[a].id < old(self).next_user_id);
                        assert(self.users@[a].id == old(self).users@[a].id);
                    }
                    assert forall|a: int, b: int|
                        #![trigger self.users@[a].id, self.users@[b].id]
                        0 <= a < b < self.users@.len() implies self.users@[a].id
                        != self.users@[b].id by {
                        assert(old(self).users@[a].id != old(self).users@[b].id);
                        assert(self.users@[a].id == old(self).users@[a].id);
                        assert(self.users@[b].id == old(self).users@[b].id);
                    }
                }
                return Some(user_data.clone());
            }
            proof {
                assert(!pred(self.users@[i as int]));
                assert(find_first(self.users@, pred, i as int) == find_first(
                    self.users@,
                    pred,
                    i as int + 1,
                ));
            }
            i = i + 1;
        }
        None
    }

    /// Inserts a refresh row with a fresh id; refuses a token string that
    /// collides with a stored row.
    #[verifier::loop_isolation(false)]
    pub fn create_refresh_token(&mut self, new_token: NewRefreshToken, now: i64) -> (r: Result<
        RefreshToken,
        StoreError,
    >)
        requires
            old(self).wf(),
            old(self).next_row_id < u64::MAX,
        ensures
            final(self).wf(),
            final(self).users@ == old(self).users@,
            final(self).revoked_tokens@ == old(self).revoked_tokens@,
            final(self).next_user_id == old(self).next_user_id,
            match r {
                Ok(row) => !old(self).has_refresh(new_token.token@) && row == (RefreshToken {
                    id: old(self).next_row_id,
                    user_id: new_token.user_id,
                    token: new_token.token,
                    expires_at: new_token.expires_at,
                    created_at: now,
                }) && final(self).refresh_tokens@ == old(self).refresh_tokens@.push(row)
                    && final(self).next_row_id == old(self).next_row_id + 1,
                Err(StoreError::Conflict) => old(self).has_refresh(new_token.token@)
                    && final(self).refresh_tokens@ == old(self).refresh_tokens@
                    && final(self).next_row_id == old(self).next_row_id,
            },
    {
        let mut i: usize = 0;
        while i < self.refresh_tokens.len()
            invariant
                0 <= i <= self.refresh_tokens@.len(),
                forall|k: int|
                    0 <= k < i ==> #[trigger] self.refresh_tokens@[k].token@ != new_token.token@,
            decreases self.refresh_tokens@.len() - i,
        {
            if self.refresh_tokens[i].token == new_token.token {
                proof {
                    assert(self.refresh_tokens@[i as int].token@ == new_token.token@);
                }
                return Err(StoreError::Conflict);
            }
            i = i + 1;
        }
        let row = RefreshToken {
            id: self.next_row_id,
            user_id: new_token.user_id,
            token: new_token.token,
            expires_at: new_token.expires_at,
            created_at: now,
        };
        let r = row.clone();
        self.refresh_tokens.push(row);
        self.next_row_id = self.next_row_id + 1;
        Ok(r)
    }

    /// The stored row holding this token string, only while it is still
    /// live: an expired row is as good as absent.
    pub fn find_refresh_token(&self, token: &str, now: i64) -> (r: Option<RefreshToken>)
        ensures
            match r {
                Some(row) => exists|i: int|
                    0 <= i < self.refresh_tokens@.len() && row == #[trigger] self.refresh_tokens@[i]
                        && row.token@ == token@ && row.expires_at > now,
                None => !self.has_live_refresh(token@, now),
            },
    {
        let owned: String = token.to_owned();
        let mut i: usize = 0;
        while i < self.refresh_tokens.len()
            invariant
                0 <= i <= self.refresh_tokens@.len(),
                owned@ == token@,
                forall|k: int|
                    0 <= k < i ==> !(#[trigger] self.refresh_tokens@[k].token@ == token@
                        && self.refresh_tokens@[k].expires_at > now),
            decreases self.refresh_tokens@.len() - i,
        {
            let row = &self.refresh_tokens[i];
            if row.token == owned && row.expires_at > now {
                return Some(row.clone());
            }
            i = i + 1;
        }
        None
    }

    /// Drops every row holding this token string; deleting an absent
    /// token is not an error. Returns how many rows went.
    pub fn delete_refresh_token(&mut self, token: &str) -> (r: usize)
        requires
            old(self).wf(),
        ensures
            final(self).wf(),
            final(self).refresh_tokens@ == old(self).refresh_tokens@.filter(
                keep_other_tokens(token@),
            ),
            final(self).users@ == old(self).users@,
            final(self).revoked_tokens@ == old(self).revoked_tokens@,
            final(self).next_user_id == old(self).next_user_id,
            final(self).next_row_id == old(self).next_row_id,
            r == old(self).refresh_tokens@.len() - final(self).refresh_tokens@.len(),
    {
        let ghost pred = keep_other_tokens(token@);
        let owned: String = token.to_owned();
        let mut kept: Vec<RefreshToken> = Vec::new();
        let mut i: usize = 0;
        while i < self.refresh_tokens.len()
            invariant
                0 <= i <= self.refresh_tokens@.len(),
                owned@ == token@,
                pred == keep_other_tokens(token@),
                old(self).wf(),
                self.refresh_tokens@ == old(self).refresh_tokens@,
                kept@ == self.refresh_tokens@.subrange(0, i as int).filter(pred),
            decreases self.refresh_tokens@.len() - i,
        {
            let ghost prefix = self.refresh_tokens@.subrange(0, i as int);
            let ghost elem = self.refresh_tokens@[i as int];
            proof {
                assert(self.refresh_tokens@.subrange(0, i as int + 1) =~= prefix.push(elem));
                lemma_filter_push(prefix, pred, elem);
            }
            let row = &self.refresh_tokens[i];
            if !(row.token == owned) {
                kept.push(row.clone());
            }
            i = i + 1;
        }
        proof {
            assert(self.refresh_tokens@.subrange(0, self.refresh_tokens@.len() as int) =~= self
                .refresh_tokens@);
        }
        let removed = self.refresh_tokens.len() - kept.len();
        proof {
            broadcast use vstd::seq_lib::group_filter_ensures;

            assert(kept@.len() <= self.refresh_tokens@.len());
            lemma_filter_distinct_tokens(self.refresh_tokens@, pred);
        }
        self.refresh_tokens = kept;
        removed
    }

    /// Drops every refresh row of this user (logout, password reset).
    /// Returns how many rows went.
    pub fn delete_user_refresh_tokens(&mut self, user_id: u64) -> (r: usize)
        requires
            old(self).wf(),
        ensures
            final(self).wf(),
            final(self).refresh_tokens@ == old(self).refresh_tokens@.filter(
                keep_other_users(user_id),
            ),
            final(self).users@ == old(self).users@,
            final(self).revoked_tokens@ == old(self).revoked_tokens@,
            final(self).next_user_id == old(self).next_user_id,
            final(self).next_row_id == old(self).next_row_id,
            r == old(self).refresh_tokens@.len() - final(self).refresh_tokens@.len(),
    {
        let ghost pred = keep_other_users(user_id);
        let mut kept: Vec<RefreshToken> = Vec::new();
        let mut i: usize = 0;
        while i < self.refresh_tokens.len()
            invariant
                0 <= i <= self.refresh_tokens@.len(),
                pred == keep_other_users(user_id),
                old(self).wf(),
                self.refresh_tokens@ == old(self).refresh_tokens@,
                kept@ == self.refresh_tokens@.subrange(0, i as int).filter(pred),
            decreases self.refresh_tokens@.len() - i,
        {
            let ghost prefix = self.refresh_tokens@.subrange(0, i as int);
            let ghost elem = self.refresh_tokens@[i as int];
            proof {
                assert(self.refresh_tokens@.subrange(0, i as int + 1) =~= prefix.push(elem));
                lemma_filter_push(prefix, pred, elem);
            }
            let row = &self.refresh_tokens[i];
            if !(row.user_id == user_id) {
                kept.push(row.clone());
            }
            i = i + 1;
        }
        proof {
            assert(self.refresh_tokens@.subrange(0, self.refresh_tokens@.len() as int) =~= self
                .refresh_tokens@);
        }
        let removed = self.refresh_tokens.len() - kept.len();
        proof {
            broadcast use vstd::seq_lib::group_filter_ensures;

            assert(kept@.len() <= self.refresh_tokens@.len());
            lemma_filter_distinct_tokens(self.refresh_tokens@, pred);
        }
        self.refresh_tokens = kept;
        removed
    }

    /// Sweeps refresh rows already expired at `now`. Returns how many
    /// rows went.
    pub fn clean_expired_refresh_tokens(&mut self, now: i64) -> (r: usize)
        requires
            old(self).wf(),
        ensures
            final(self).wf(),
            final(self).refresh_tokens@ == old(self).refresh_tokens@.filter(
                keep_live_refresh(now),
            ),
            final(self).users@ == old(self).users@,
            final(self).revoked_tokens@ == old(self).revoked_tokens@,
            final(self).next_user_id == old(self).next_user_id,
            final(self).next_row_id == old(self).next_row_id,
            r == old(self).refresh_tokens@.len() - final(self).refresh_tokens@.len(),
    {
        let ghost pred = keep_live_refresh(now);
        let mut kept: Vec<RefreshToken> = Vec::new();
        let mut i: usize = 0;
        while i < self.refresh_tokens.len()
            invariant
                0 <= i <= self.refresh_tokens@.len(),
                pred == keep_live_refresh(now),
                old(self).wf(),
                self.refresh_tokens@ == old(self).refresh_tokens@,
                kept@ == self.refresh_tokens@.subrange(0, i as int).filter(pred),
            decreases self.refresh_tokens@.len() - i,
        {
            let ghost prefix = self.refresh_tokens@.subrange(0, i as int);
            let ghost elem = self.refresh_tokens@[i as int];
            proof {
                assert(self.refresh_tokens@.subrange(0, i as int + 1) =~= prefix.push(elem));
                lemma_filter_push(prefix, pred, elem);
            }
            let row = &self.refresh_tokens[i];
            if row.expires_at >= now {
                kept.push(row.clone());
            }
            i = i + 1;
        }
        proof {
            assert(self.refresh_tokens@.subrange(0, self.refresh_tokens@.len() as int) =~= self
                .refresh_tokens@);
        }
        let removed = self.refresh_tokens.len() - kept.len();
        proof {
            broadcast use vstd::seq_lib::group_filter_ensures;

            assert(kept@.len() <= self.refresh_tokens@.len());
            lemma_filter_distinct_tokens(self.refresh_tokens@, pred);
        }
        self.refresh_tokens = kept;
        removed
    }

    /// Sweeps revocation entries already expired at `now`: an entry is
    /// kept no longer than the access token it blacklists. Returns how
    /// many entries went.
    pub fn clean_expired_revoked_tokens(&mut self, now: i64) -> (r: usize)
        requires
            old(self).wf(),
        ensures
            final(self).wf(),
            final(self).revoked_tokens@ == old(self).revoked_tokens@.filter(
                keep_live_revocation(now),
            ),
            final(self).users@ == old(self).users@,
            final(self).refresh_tokens@ == old(self).refresh_tokens@,
            final(self).next_user_id == old(self).next_user_id,
            final(self).next_row_id == old(self).next_row_id,
            r == old(self).revoked_tokens@.len() - final(self).revoked_tokens@.len(),
    {
        let ghost pred = keep_live_revocation(now);
        let mut kept: Vec<RevokedToken> = Vec::new();
        let mut i: usize = 0;
        while i < self.revoked_tokens.len()
            invariant
                0 <= i <= self.revoked_tokens@.len(),
                pred == keep_live_revocation(now),
                self.revoked_tokens@ == old(self).revoked_tokens@,
                kept@ == self.revoked_tokens@.subrange(0, i as int).filter(pred),
            decreases self.revoked_tokens@.len() - i,
        {
            let ghost prefix = self.revoked_tokens@.subrange(0, i as int);
            let ghost elem = self.revoked_tokens@[i as int];
            proof {
                assert(self.revoked_tokens@.subrange(0, i as int + 1) =~= prefix.push(elem));
                lemma_filter_push(prefix, pred, elem);
            }
            let row = &self.revoked_tokens[i];
            if row.expiry >= now {
                kept.push(row.clone());
            }
            i = i + 1;
        }
        proof {
            assert(self.revoked_tokens@.subrange(0, self.revoked_tokens@.len() as int) =~= self
                .revoked_tokens@);
            broadcast use vstd::seq_lib::group_filter_ensures;

            assert(kept@.len() <= self.revoked_tokens@.len());
        }
        let removed = self.revoked_tokens.len() - kept.len();
        self.revoked_tokens = kept;
        removed
    }

    /// Whether a live revocation entry blacklists this token id.
    pub fn is_token_revoked(&self, token_jti: &str, now: i64) -> (r: bool)
        ensures
            r == self.has_live_revocation(token_jti@, now),
    {
        let owned: String = token_jti.to_owned();
        let mut i: usize = 0;
        while i < self.revoked_tokens.len()
            invariant
                0 <= i <= self.revoked_tokens@.len(),
                owned@ == token_jti@,
                forall|k: int|
                    0 <= k < i ==> !(#[trigger] self.revoked_tokens@[k].token_jti@ == token_jti@
                        && self.revoked_tokens@[k].expiry > now),
            decreases self.revoked_tokens@.len() - i,
        {
            let row = &self.revoked_tokens[i];
            if row.token_jti == owned && row.expiry > now {
                proof {
                    assert(self.revoked_tokens@[i as int].token_jti@ == token_jti@
                        && self.revoked_tokens@[i as int].expiry > now);
                }
                return true;
            }
            i = i + 1;
        }
        false
    }

    /// Inserts a revocation entry with a fresh id, blacklisting an access
    /// token id until the token's own expiry.
    pub fn add_revoked_token(&mut self, new_entry: NewRevokedToken) -> (r: RevokedToken)
        requires
            old(self).wf(),
            old(self).next_row_id < u64::MAX,
        ensures
            final(self).wf(),
            r == (RevokedToken {
                id: old(self).next_row_id,
                token_jti: new_entry.token_jti,
                user_id: new_entry.user_id,
                expiry: new_entry.expiry,
            }),
            final(self).revoked_tokens@ == old(self).revoked_tokens@.push(r),
            final(self).users@ == old(self).users@,
            final(self).refresh_tokens@ == old(self).refresh_tokens@,
            final(self).next_user_id == old(self).next_user_id,
            final(self).next_row_id == old(self).next_row_id + 1,
    {
        let row = RevokedToken {
            id: self.next_row_id,
            token_jti: new_entry.token_jti,
            user_id: new_entry.user_id,
            expiry: new_entry.expiry,
        };
        let r = row.clone();
        self.revoked_tokens.push(row);
        self.next_row_id = self.next_row_id + 1;
        r
    }
}

} // verus!
