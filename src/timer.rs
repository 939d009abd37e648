//! The countdown: a length in seconds and the instant it was started at.
//! Instants are milliseconds on a monotonic clock chosen by the caller.

use vstd::prelude::*;

verus! {

/// Whole seconds from `start_ms` to `now_ms`; none when `now_ms` is earlier.
pub open spec fn elapsed_seconds(start_ms: u64, now_ms: u64) -> nat {
    if now_ms >= start_ms {
        ((now_ms - start_ms) / 1000) as nat
    } else {
        0
    }
}

/// Seconds left of a countdown of `total` seconds started at `start_ms`, at
/// `now_ms`: never below zero.
pub open spec fn remaining_at(total: u64, start_ms: u64, now_ms: u64) -> nat {
    if elapsed_seconds(start_ms, now_ms) >= total {
        0
    } else {
        (total - elapsed_seconds(start_ms, now_ms)) as nat
    }
}

/// The countdown. `started_at_ms` is `None` while it is not running.
#[derive(Debug, PartialEq, Eq, Structural, Clone, Copy)]
pub struct Timer {
    pub total_seconds: u64,
    pub started_at_ms: Option<u64>,
}

impl Timer {
    /// A timer that is not running.
    pub fn new() -> (r: Timer)
        ensures
            r.total_seconds == 0,
            r.started_at_ms is None,
    {
        Timer { total_seconds: 0, started_at_ms: None }
    }

    /// Starts a countdown of `total_seconds` at `now_ms`, replacing any
    /// earlier one.
    pub fn arm(&mut self, total_seconds: u64, now_ms: u64)
        ensures
            final(self).total_seconds == total_seconds,
            final(self).started_at_ms == Some(now_ms),
    {
        self.total_seconds = total_seconds;
        self.started_at_ms = Some(now_ms);
    }

    /// Stops the countdown; the length stays.
    pub fn disarm(&mut self)
        ensures
            final(self).total_seconds == old(self).total_seconds,
            final(self).started_at_ms is None,
    {
        self.started_at_ms = None;
    }

    pub fn is_armed(&self) -> (r: bool)
        ensures
            r == self.started_at_ms is Some,
    {
        self.started_at_ms.is_some()
    }

    /// Seconds left at `now_ms`, or `None` when the countdown is not running.
    pub fn remaining(&self, now_ms: u64) -> (r: Option<u64>)
        ensures
            r == (match self.started_at_ms {
                Some(start) => Some(remaining_at(self.total_seconds, start, now_ms) as u64),
                None => None,
            }),
    {
        match self.started_at_ms {
            Some(start) => {
                let elapsed: u64 = if now_ms >= start {
                    (now_ms - start) / 1000
                } else {
                    0
                };
                if elapsed >= self.total_seconds {
                    Some(0)
                } else {
                    Some(self.total_seconds - elapsed)
                }
            },
            None => None,
        }
    }
}

/// Over time the seconds left of one countdown never grow, and they are zero
/// exactly when the elapsed whole seconds reach its length.
pub proof fn lemma_countdown_never_grows(total: u64, start_ms: u64, t1: u64, t2: u64)
    requires
        t1 <= t2,
    ensures
        remaining_at(total, start_ms, t2) <= remaining_at(total, start_ms, t1),
        remaining_at(total, start_ms, t1) == 0 <==> elapsed_seconds(start_ms, t1) >= total,
        remaining_at(total, start_ms, t1) == 0 ==> remaining_at(total, start_ms, t2) == 0,
{
    if t1 >= start_ms {
        assert((t1 - start_ms) / 1000 <= (t2 - start_ms) / 1000) by (nonlinear_arith)
            requires
                t1 - start_ms <= t2 - start_ms,
        ;
    }
}

} // verus!
