//! One pass of the revocation sweeper: purge expired refresh rows, then
//! expired revocation entries. The caller schedules passes (at startup
//! and on a fixed interval); each pass is a single bounded pair of
//! deletes and is safe to run at any time.

use vstd::prelude::*;
use crate::store::{keep_live_refresh, keep_live_revocation, AuthStore};

verus! {

/// Sweeps both tables once; returns how many refresh rows and how many
/// revocation entries were removed.
pub fn run_sweep(store: &mut AuthStore, now: i64) -> (r: (usize, usize))
    requires
        old(store).wf(),
    ensures
        final(store).wf(),
        final(store).refresh_tokens@ == old(store).refresh_tokens@.filter(keep_live_refresh(now)),
        final(store).revoked_tokens@ == old(store).revoked_tokens@.filter(
            keep_live_revocation(now),
        ),
        final(store).users@ == old(store).users@,
        final(store).next_user_id == old(store).next_user_id,
        final(store).next_row_id == old(store).next_row_id,
        r.0 == old(store).refresh_tokens@.len() - final(store).refresh_tokens@.len(),
        r.1 == old(store).revoked_tokens@.len() - final(store).revoked_tokens@.len(),
{
    let removed_refresh = store.clean_expired_refresh_tokens(now);
    let removed_revoked = store.clean_expired_revoked_tokens(now);
    (removed_refresh, removed_revoked)
}

} // verus!
