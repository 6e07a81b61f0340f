//! Progress bookkeeping of a copy or check, with reports at most every 100 ms.

use vstd::prelude::*;

verus! {

/// Reports come at most this often.
pub const REPORT_INTERVAL_MS: u64 = 100;

/// Progress of one copy or check: `done` of `total` bytes; times are milliseconds
/// on a clock of the caller's choosing.
#[derive(Debug, Clone, Copy)]
pub struct Tracker {
    pub total: u64,
    pub done: u64,
    pub start_ms: u64,
    pub last_log_ms: u64,
}

/// What a progress report says: bytes done and total, and the time since the start.
#[derive(Debug, Clone, Copy)]
pub struct ProgressSample {
    pub done: u64,
    pub total: u64,
    pub elapsed_ms: u64,
}

/// The time from `a` to `b`, zero when `b` is earlier (as `Instant::duration_since` does).
pub open spec fn since(b: u64, a: u64) -> u64 {
    if b >= a {
        (b - a) as u64
    } else {
        0
    }
}

/// Whether a report is due at `now`: 100 ms or more since the last one.
pub open spec fn report_due(t: Tracker, now: u64) -> bool {
    since(now, t.last_log_ms) >= REPORT_INTERVAL_MS
}

impl Tracker {
    /// A tracker for `total` bytes started at `now_ms`.
    pub fn new(total: u64, now_ms: u64) -> (t: Tracker)
        ensures
            t.total == total,
            t.done == 0,
            t.start_ms == now_ms,
            t.last_log_ms == now_ms,
    {
        Tracker { total, done: 0, start_ms: now_ms, last_log_ms: now_ms }
    }

    /// Records that `done` bytes are done at `now_ms`, and returns the report to
    /// make when one is due.
    pub fn set(&mut self, done: u64, now_ms: u64) -> (r: Option<ProgressSample>)
        ensures
            final(self).done == done,
            final(self).total == old(self).total,
            final(self).start_ms == old(self).start_ms,
            final(self).last_log_ms == old(self).last_log_ms,
            report_due(*old(self), now_ms) ==> r == Some(
                ProgressSample {
                    done,
                    total: old(self).total,
                    elapsed_ms: since(now_ms, old(self).start_ms),
                },
            ),
            !report_due(*old(self), now_ms) ==> r is None,
    {
        self.done = done;
        let gap = if now_ms >= self.last_log_ms {
            now_ms - self.last_log_ms
        } else {
            0
        };
        if gap < REPORT_INTERVAL_MS {
            return None;
        }
        let elapsed = if now_ms >= self.start_ms {
            now_ms - self.start_ms
        } else {
            0
        };
        Some(ProgressSample { done, total: self.total, elapsed_ms: elapsed })
    }

    /// Records that a report was written at `now_ms`.
    pub fn logged(&mut self, now_ms: u64)
        ensures
            *final(self) == (Tracker { last_log_ms: now_ms, ..*old(self) }),
    {
        self.last_log_ms = now_ms;
    }
}

/// Reports are spaced: after a report logged at `t1`, the next one comes no
/// earlier than 100 ms later.
pub proof fn law_reports_are_spaced(t: Tracker, t1: u64, t2: u64)
    requires
        t2 >= t1,
        report_due(Tracker { last_log_ms: t1, ..t }, t2),
    ensures
        t2 - t1 >= REPORT_INTERVAL_MS,
{
}

} // verus!
