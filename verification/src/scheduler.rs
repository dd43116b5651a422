//! Per-window scheduling decisions, and the bounded retry around attempts.
//!
//! Every validated window runs its own endless loop: read the wall-clock
//! hour, measure if the hour lies inside the window, and sleep the window's
//! period either way — a skipped tick is never queued or made up. The loop
//! itself suspends in the adapter around the library; what it decides at
//! each tick is planned and proved here.

use vstd::prelude::*;

use crate::iperf3::Error;
use crate::timetable::Table;

verus! {

/// What one evaluation of a window's loop decides: whether to measure now,
/// and how long to sleep afterwards.
#[derive(Debug, Clone, Copy, PartialEq, Eq, Structural)]
pub struct Tick {
    pub fire: bool,
    pub sleep_seconds: u64,
}

/// Plans one tick of `table`'s loop at wall-clock `hour`: measure exactly
/// when the hour lies inside the window, and sleep the window's period
/// afterwards in either case.
pub fn plan_tick(table: &Table, hour: u8) -> (r: Tick)
    ensures
        r.fire == table.spec_gate(hour),
        r.sleep_seconds == table.duration_seconds,
{
    Tick { fire: table.should_run(hour), sleep_seconds: table.duration_seconds }
}

/// Relies on time::OffsetDateTime::now_utc and OffsetDateTime::hour for the
/// current UTC hour, documented to lie in 0..24.
#[verifier::external_body]
fn current_hour() -> (h: u8)
    ensures
        h < 24,
{
    time::OffsetDateTime::now_utc().hour()
}

/// Plans one tick of `table`'s loop at the current UTC hour: whatever hour
/// the clock returned, the tick fires exactly when that hour lies inside
/// the window, and the sleep is always the window's period.
pub fn tick_now(table: &Table) -> (r: Tick)
    ensures
        r.sleep_seconds == table.duration_seconds,
        exists|h: u8| h < 24 && r.fire == #[trigger] table.spec_gate(h),
{
    let h = current_hour();
    let r = plan_tick(table, h);
    proof {
        assert(h < 24 && r.fire == table.spec_gate(h));
    }
    r
}

/// Bounded-retry state: up to `limit` attempts, stopping at the first
/// success; after exhaustion the whole operation fails terminally.
#[derive(Debug, Clone, Copy, PartialEq, Eq, Structural)]
pub struct Retry {
    pub limit: u32,
    pub used: u32,
    pub succeeded: bool,
}

impl Retry {
    /// Fresh retry state: nothing attempted, nothing succeeded.
    pub fn new(limit: u32) -> (r: Self)
        ensures
            r.limit == limit,
            r.used == 0,
            !r.succeeded,
    {
        Retry { limit, used: 0, succeeded: false }
    }

    /// Another attempt is due exactly while nothing has succeeded and the
    /// bound is not exhausted.
    pub fn should_attempt(&self) -> (r: bool)
        ensures
            r == (self.used < self.limit && !self.succeeded),
    {
        self.used < self.limit && !self.succeeded
    }

    /// Records the outcome of one attempt.
    pub fn record(&mut self, success: bool)
        requires
            old(self).used < old(self).limit,
        ensures
            final(self).limit == old(self).limit,
            final(self).used == old(self).used + 1,
            final(self).succeeded == (old(self).succeeded || success),
    {
        self.used = self.used + 1;
        if success {
            self.succeeded = true;
        }
    }

    /// The overall result once the retries stop: success if any attempt
    /// succeeded, else the terminal cancellation error.
    pub fn outcome(&self) -> (r: Result<(), Error>)
        ensures
            match r {
                Ok(()) => self.succeeded,
                Err(e) => !self.succeeded && e == Error::Canceled,
            },
    {
        if self.succeeded {
            Ok(())
        } else {
            Err(Error::Canceled)
        }
    }
}

} // verus!
