//! A fixed-window rate limiter keyed by a client signal: at most
//! `max_requests` hits per key inside a window of `window_size` seconds.

use vstd::prelude::*;
use crate::store::{find_first};

verus! {

/// One client's window: when it started and how many hits it holds.
pub struct RateEntry {
    pub key: String,
    pub window_start: u64,
    pub count: u32,
}

impl Clone for RateEntry {
    fn clone(&self) -> (res: Self)
        ensures
            res == *self,
    {
        RateEntry { key: self.key.clone(), window_start: self.window_start, count: self.count }
    }
}

pub open spec fn key_pred(key: Seq<char>) -> spec_fn(RateEntry) -> bool {
    |e: RateEntry| e.key@ == key
}

/// The limiter: one entry per client key seen inside its current window.
pub struct RateLimiter {
    pub entries: Vec<RateEntry>,
    pub max_requests: u32,
    pub window_size: u64,
}

impl RateLimiter {
    /// The entry for this key, if one is tracked.
    pub open spec fn spec_find_key(self, key: Seq<char>) -> Option<int> {
        find_first(self.entries@, key_pred(key), 0)
    }

    pub fn new(max_requests: u32, window_size: u64) -> (r: RateLimiter)
        ensures
            r.entries@.len() == 0,
            r.max_requests == max_requests,
            r.window_size == window_size,
    {
        RateLimiter { entries: Vec::new(), max_requests, window_size }
    }

    /// The limiter key for a request: the user agent when one is given,
    /// a shared bucket otherwise.
    pub fn get_rate_limit_key(&self, user_agent: Option<&str>) -> (r: String)
        ensures
            match user_agent {
                Some(ua) => r@ == "ua:"@ + ua@,
                None => r@ == "unknown"@,
            },
    {
        match user_agent {
            Some(ua) => {
                let prefix = String::from_str("ua:");
                vstd::string::StringExecFns::concat(prefix, ua)
            },
            None => String::from_str("unknown"),
        }
    }

    /// Records a hit for `key` at `now` and says whether the limit is
    /// exceeded: a window older than `window_size` restarts at one hit; a
    /// full window refuses; anything else counts the hit.
    pub fn check(&mut self, key: &str, now: u64) -> (exceeded: bool)
        ensures
            final(self).max_requests == old(self).max_requests,
            final(self).window_size == old(self).window_size,
            match old(self).spec_find_key(key@) {
                None => !exceeded && final(self).entries@ == old(self).entries@.push(
                    final(self).entries@.last(),
                ) && final(self).entries@.last().key@ == key@ && final(self).entries@.last().window_start == now && final(self).entries@.last().count == 1,
                Some(i) => {
                    let e0 = old(self).entries@[i];
                    if now >= e0.window_start && now - e0.window_start > old(self).window_size {
                        !exceeded && final(self).entries@ == old(self).entries@.update(
                            i,
                            RateEntry { key: e0.key, window_start: now, count: 1 },
                        )
                    } else if e0.count >= old(self).max_requests {
                        exceeded && final(self).entries@ == old(self).entries@
                    } else {
                        !exceeded && final(self).entries@ == old(self).entries@.update(
                            i,
                            RateEntry {
                                key: e0.key,
                                window_start: e0.window_start,
                                count: (e0.count + 1) as u32,
                            },
                        )
                    }
                },
            },
    {
        let ghost pred = key_pred(key@);
        let owned: String = key.to_owned();
        let mut i: usize = 0;
        while i < self.entries.len()
            invariant
                0 <= i <= self.entries@.len(),
                owned@ == key@,
                pred == key_pred(key@),
                *self == *old(self),
                find_first(self.entries@, pred, 0) == find_first(self.entries@, pred, i as int),
            decreases self.entries@.len() - i,
        {
            if self.entries[i].key == owned {
                proof {
                    assert(pred(self.entries@[i as int]));
                    assert(find_first(self.entries@, pred, i as int) == Some(i as int));
                }
                let e = &self.entries[i];
                if now >= e.window_start && now - e.window_start > self.window_size {
                    let fresh = RateEntry { key: e.key.clone(), window_start: now, count: 1 };
                    self.entries.set(i, fresh);
                    return false;
                } else if e.count >= self.max_requests {
                    return true;
                } else {
                    let bumped = RateEntry {
                        key: e.key.clone(),
                        window_start: e.window_start,
                        count: e.count + 1,
                    };
                    self.entries.set(i, bumped);
                    return false;
                }
            }
            proof {
                assert(!pred(self.entries@[i as int]));
                assert(find_first(self.entries@, pred, i as int) == find_first(
                    self.entries@,
                    pred,
                    i as int + 1,
                ));
            }
            i = i + 1;
        }
        self.entries.push(RateEntry { key: owned, window_start: now, count: 1 });
        false
    }
}

} // verus!
