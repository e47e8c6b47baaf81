//! Overall rate limit of the sensitive routes of the gateway.
//!
//! This is no check of identity: it only bounds the rate that a peer can get. Fixed
//! window, one count for everyone.

use vstd::prelude::*;
use crate::auth::unix_now;
use crate::gateway::error::AppError;

verus! {

/// Requests per window on the sensitive routes.
pub const SENSITIVE_ROUTE_MAX_PER_WINDOW: u32 = 120;

/// Window of the sensitive routes, in seconds.
pub const SENSITIVE_ROUTE_WINDOW_SECS: u64 = 60;

/// State of a [`WindowLimiter`].
#[verifier::ext_equal]
pub struct WindowModel {
    /// Requests per window.
    pub max_per_window: u32,
    /// Window, in seconds.
    pub window_secs: u64,
    /// Start of the current window.
    pub window_start: u64,
    /// Requests of the current window.
    pub count: u32,
}

impl WindowModel {
    /// Whether the current window is over.
    pub open spec fn over(self, now: u64) -> bool {
        now.saturating_sub(self.window_start) >= self.window_secs
    }

    /// The state in which a request is counted.
    pub open spec fn rolled(self, now: u64) -> WindowModel {
        if self.over(now) {
            WindowModel { window_start: now, count: 0, ..self }
        } else {
            self
        }
    }

    /// Whether a request is admitted: fewer than the maximum came before it in the
    /// window.
    pub open spec fn admits(self, now: u64) -> bool {
        self.rolled(now).count < self.max_per_window
    }

    /// The state after a request.
    pub open spec fn after(self, now: u64) -> WindowModel {
        let w = self.rolled(now);
        WindowModel { count: w.count.saturating_add(1), ..w }
    }
}

/// Fixed-window counter, the same for everyone.
pub struct WindowLimiter {
    max_per_window: u32,
    window_secs: u64,
    window_start: u64,
    count: u32,
}

impl View for WindowLimiter {
    type V = WindowModel;

    closed spec fn view(&self) -> WindowModel {
        WindowModel {
            max_per_window: self.max_per_window,
            window_secs: self.window_secs,
            window_start: self.window_start,
            count: self.count,
        }
    }
}

impl WindowLimiter {
    /// New limiter, whose first window starts now.
    pub fn new(max_per_window: u32, window_secs: u64) -> (r: Self)
        ensures
            r@.max_per_window == max_per_window,
            r@.window_secs == window_secs,
            r@.count == 0,
    {
        WindowLimiter::new_at(max_per_window, window_secs, unix_now())
    }

    /// New limiter, whose first window starts at a given time.
    pub fn new_at(max_per_window: u32, window_secs: u64, now: u64) -> (r: Self)
        ensures
            r@ == (WindowModel { max_per_window, window_secs, window_start: now, count: 0 }),
    {
        WindowLimiter { max_per_window, window_secs, window_start: now, count: 0 }
    }

    /// Counts a request and tells whether it is admitted. The outcome is that of
    /// [`WindowLimiter::allow_at`] at some time.
    pub fn allow(&mut self) -> (r: bool)
        ensures
            exists|now: u64|
                final(self)@ == #[trigger] old(self)@.after(now) && r == old(self)@.admits(now),
    {
        let now: u64 = unix_now();
        self.allow_at(now)
    }

    /// Counts a request at a given time and tells whether it is admitted.
    pub fn allow_at(&mut self, now: u64) -> (r: bool)
        ensures
            final(self)@ == old(self)@.after(now),
            r == old(self)@.admits(now),
    {
        if now.saturating_sub(self.window_start) >= self.window_secs {
            self.window_start = now;
            self.count = 0;
        }
        let admitted = self.count < self.max_per_window;
        self.count = self.count.saturating_add(1);
        admitted
    }
}

/// The outcome of a request on a limited route.
pub fn enforce(limiter: &mut WindowLimiter) -> (r: core::result::Result<(), AppError>)
    ensures
        exists|now: u64|
            final(limiter)@ == #[trigger] old(limiter)@.after(now) && (match r {
                Ok(()) => old(limiter)@.admits(now),
                Err(e) => e is RateLimited && !old(limiter)@.admits(now),
            }),
{
    if limiter.allow() {
        Ok(())
    } else {
        Err(AppError::RateLimited)
    }
}

/// The state after requests at the given times.
pub open spec fn run(m: WindowModel, times: Seq<u64>) -> WindowModel
    decreases times.len(),
{
    if times.len() == 0 {
        m
    } else {
        run(m, times.drop_last()).after(times.last())
    }
}

/// How many of the requests at the given times are admitted.
pub open spec fn admitted(m: WindowModel, times: Seq<u64>) -> nat
    decreases times.len(),
{
    if times.len() == 0 {
        0
    } else {
        admitted(m, times.drop_last()) + if run(m, times.drop_last()).admits(times.last()) {
            1nat
        } else {
            0nat
        }
    }
}

proof fn lemma_window(m: WindowModel, times: Seq<u64>)
    requires
        m.count == 0,
        forall|i: int| 0 <= i < times.len() ==> !m.over(#[trigger] times[i]),
    ensures
        run(m, times).window_start == m.window_start,
        run(m, times).window_secs == m.window_secs,
        run(m, times).max_per_window == m.max_per_window,
        run(m, times).count == if times.len() <= u32::MAX {
            times.len() as u32
        } else {
            u32::MAX
        },
        admitted(m, times) == if times.len() <= m.max_per_window {
            times.len()
        } else {
            m.max_per_window as nat
        },
    decreases times.len(),
{
    if times.len() > 0 {
        let front = times.drop_last();
        assert forall|i: int| 0 <= i < front.len() implies !m.over(#[trigger] front[i]) by {
            assert(front[i] == times[i]);
        }
        lemma_window(m, front);
        assert(!m.over(times[times.len() - 1]));
    }
}

/// Of the requests of one window, however many they are, the first `max_per_window` are
/// admitted and no other.
pub proof fn window_admits_the_maximum(m: WindowModel, times: Seq<u64>)
    requires
        m.count == 0,
        forall|i: int| 0 <= i < times.len() ==> !m.over(#[trigger] times[i]),
    ensures
        admitted(m, times) == if times.len() <= m.max_per_window {
            times.len()
        } else {
            m.max_per_window as nat
        },
{
    lemma_window(m, times);
}

} // verus!
