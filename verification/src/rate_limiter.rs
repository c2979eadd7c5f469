//! The rate limiter of the model client: a bucket of tokens that fills
//! with time.
//!
//! The clock and the waiting are the caller's part.

use vstd::prelude::*;

verus! {

/// The milliseconds in a minute.
pub const MILLIS_PER_MINUTE: u64 = 60_000;

/// The tokens that flow into a bucket of `capacity` requests a minute
/// in `elapsed` milliseconds: whole tokens only.
pub open spec fn replenished(capacity: u64, elapsed: u64) -> int {
    (elapsed as int * capacity as int) / (MILLIS_PER_MINUTE as int)
}

/// The tokens in the bucket once it was topped up: what was there and
/// what has flowed in, but not more than the bucket holds.
pub open spec fn topped_up(capacity: u64, tokens: u64, elapsed: u64) -> int {
    if tokens + replenished(capacity, elapsed) > capacity {
        capacity as int
    } else {
        tokens + replenished(capacity, elapsed)
    }
}

/// The milliseconds after which the next token has flowed in.
pub open spec fn token_wait(capacity: u64) -> int {
    MILLIS_PER_MINUTE as int / capacity as int
}

/// A limiter that lets through so many requests a minute.
#[derive(Debug, Clone, Copy, PartialEq, Eq, Structural)]
pub struct RateLimiter {
    capacity: u64,
    tokens: u64,
    last_update: u64,
}

impl RateLimiter {
    /// The requests that the limiter lets through in a minute.
    pub closed spec fn limit(self) -> u64 {
        self.capacity
    }

    /// The requests that the limiter lets through at once.
    pub closed spec fn available(self) -> u64 {
        self.tokens
    }

    /// The time at which the limiter was last asked, in milliseconds.
    pub closed spec fn asked_at(self) -> u64 {
        self.last_update
    }

    /// What holds of every limiter: it lets some request through, and
    /// never holds more tokens than its limit.
    pub open spec fn wf(self) -> bool {
        self.limit() > 0 && self.available() <= self.limit()
    }

    /// A full limiter for `requests_per_minute` requests a minute, made at
    /// `now`, in milliseconds.
    pub fn new(requests_per_minute: u64, now: u64) -> (r: RateLimiter)
        requires
            requests_per_minute > 0,
        ensures
            r.wf(),
            r.limit() == requests_per_minute,
            r.available() == requests_per_minute,
            r.asked_at() == now,
    {
        RateLimiter { capacity: requests_per_minute, tokens: requests_per_minute, last_update: now }
    }

    /// Asks for a token at `now`, in milliseconds.
    ///
    /// The bucket is topped up with what has flowed in since it was last
    /// asked. If it then holds a token, the token is taken and the
    /// request may go. Else the request has to wait the given number of
    /// milliseconds and ask again.
    pub fn acquire(&mut self, now: u64) -> (wait_millis: Option<u64>)
        requires
            old(self).wf(),
        ensures
            final(self).wf(),
            final(self).limit() == old(self).limit(),
            final(self).asked_at() == now,
            ({
                let elapsed = if now >= old(self).asked_at() {
                    (now - old(self).asked_at()) as u64
                } else {
                    0u64
                };
                let filled = topped_up(old(self).limit(), old(self).available(), elapsed);
                let left = final(self).available();
                if filled > 0 {
                    wait_millis is None && left == filled - 1
                } else {
                    wait_millis == Some(token_wait(old(self).limit()) as u64) && left == 0
                }
            }),
    {
        let elapsed: u64 = if now >= self.last_update {
            now - self.last_update
        } else {
            0
        };
        assert(elapsed * self.capacity <= 0xFFFF_FFFF_FFFF_FFFF * 0xFFFF_FFFF_FFFF_FFFF)
            by (nonlinear_arith)
            requires
                0 <= elapsed <= 0xFFFF_FFFF_FFFF_FFFF,
                0 <= self.capacity <= 0xFFFF_FFFF_FFFF_FFFF,
        ;
        let flowed: u128 = (elapsed as u128 * self.capacity as u128) / (MILLIS_PER_MINUTE as u128);
        let total: u128 = self.tokens as u128 + flowed;
        let filled: u64 = if total > self.capacity as u128 {
            self.capacity
        } else {
            total as u64
        };
        self.last_update = now;
        if filled > 0 {
            self.tokens = filled - 1;
            None
        } else {
            self.tokens = 0;
            Some(MILLIS_PER_MINUTE / self.capacity)
        }
    }

    /// The requests that the limiter lets through at once.
    pub fn tokens(&self) -> (r: u64)
        ensures
            r == self.available(),
    {
        self.tokens
    }
}

} // verus!
