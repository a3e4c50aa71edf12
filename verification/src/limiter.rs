//! Global fixed-window acceptance gate in front of the query API.
//!
//! All endpoints share one limiter: at most `limit` requests are accepted
//! per window; the rest are rejected and consume nothing.
use vstd::prelude::*;

verus! {

/// Model of the limiter's state.
pub ghost struct LimiterModel {
    pub limit: u64,
    pub window_len_ms: u64,
    pub window_start: u64,
    pub count: u64,
}

/// Fixed-window rate limiter.
pub struct RateLimiter {
    limit: u64,
    window_len_ms: u64,
    window_start: u64,
    count: u64,
}

impl View for RateLimiter {
    type V = LimiterModel;

    closed spec fn view(&self) -> LimiterModel {
        LimiterModel {
            limit: self.limit,
            window_len_ms: self.window_len_ms,
            window_start: self.window_start,
            count: self.count,
        }
    }
}

/// One acceptance step: if `now_ms` has left the current window, a new
/// window starts at `now_ms` with this request as its first; otherwise the
/// request is accepted exactly when the window still has room. A rejected
/// request consumes nothing.
pub open spec fn accept_model(m: LimiterModel, now_ms: u64) -> (LimiterModel, bool) {
    if now_ms >= m.window_start + m.window_len_ms {
        if m.limit > 0 {
            (LimiterModel { window_start: now_ms, count: 1, ..m }, true)
        } else {
            (LimiterModel { window_start: now_ms, count: 0, ..m }, false)
        }
    } else {
        if m.count < m.limit {
            (LimiterModel { count: (m.count + 1) as u64, ..m }, true)
        } else {
            (m, false)
        }
    }
}

impl RateLimiter {
    /// A limiter accepting at most `limit` requests per `window_len_ms`
    /// milliseconds, with its first window starting at time zero.
    pub fn new(limit: u64, window_len_ms: u64) -> (r: RateLimiter)
        ensures
            r@ == (LimiterModel { limit, window_len_ms, window_start: 0, count: 0 }),
    {
        RateLimiter { limit, window_len_ms, window_start: 0, count: 0 }
    }


    /// Accept or reject one request arriving at `now_ms`.
    pub fn accept(&mut self, now_ms: u64) -> (r: bool)
        ensures
            (final(self)@, r) == accept_model(old(self)@, now_ms),
    {
        if now_ms >= self.window_start && now_ms - self.window_start >= self.window_len_ms {
            self.window_start = now_ms;
            if self.limit > 0 {
                self.count = 1;
                true
            } else {
                self.count = 0;
                false
            }
        } else {
            if self.count < self.limit {
                self.count = self.count + 1;
                true
            } else {
                false
            }
        }
    }
}

/// Law: within one window, acceptance is exact. A request is accepted if and
/// only if the window still has room, and an accepted request raises the
/// count by exactly one while a rejected one changes nothing.
pub proof fn lemma_acceptance_exact(m: LimiterModel, now_ms: u64)
    requires
        now_ms < m.window_start + m.window_len_ms,
    ensures
        accept_model(m, now_ms).1 <==> m.count < m.limit,
        m.count < m.limit ==> accept_model(m, now_ms).0 == (LimiterModel {
            count: (m.count + 1) as u64,
            ..m
        }),
        m.count >= m.limit ==> accept_model(m, now_ms).0 == m,
{
}

} // verus!
