//! Thinking-time allowance and the deadline that the search polls.
use vstd::prelude::*;

verus! {

/// Share of the remaining clock spent on one move: one part in this many.
pub const TIME_DIVISOR: u128 = 20;

/// Smallest allowance, in milliseconds, while the clock holds at least that much.
pub const MIN_THINK_MS: u128 = 10;

/// The allowance, in milliseconds, for a clock holding `left` milliseconds.
pub open spec fn allotment(left: int) -> int {
    if left / TIME_DIVISOR as int >= MIN_THINK_MS as int {
        left / TIME_DIVISOR as int
    } else if left >= MIN_THINK_MS as int {
        MIN_THINK_MS as int
    } else if left >= 1 {
        left
    } else {
        1
    }
}

/// Thinking time for this move, in milliseconds, from the milliseconds left on
/// the clock: a twentieth of it, but never under a floor of 10 ms unless the
/// clock holds less; never more than the clock holds, and always positive.
pub fn get_time(time_left_ms: u128) -> (r: u128)
    ensures
        r == allotment(time_left_ms as int),
        r >= 1,
        time_left_ms >= 1 ==> r <= time_left_ms,
{
    let share = time_left_ms / TIME_DIVISOR;
    if share >= MIN_THINK_MS {
        share
    } else if time_left_ms >= MIN_THINK_MS {
        MIN_THINK_MS
    } else if time_left_ms >= 1 {
        time_left_ms
    } else {
        1
    }
}

#[verifier::external_type_specification]
#[verifier::external_body]
pub struct ExInstant(std::time::Instant);

/// Relies on std::time::Instant::now: a reading of the monotonic clock.
pub assume_specification[ std::time::Instant::now ]() -> std::time::Instant;

/// Relies on std::time::Instant::elapsed: the time passed since the reading.
pub assume_specification[ std::time::Instant::elapsed ](i: &std::time::Instant) -> core::time::Duration;

/// Relies on core::time::Duration::as_millis: the whole milliseconds in a duration.
pub assume_specification[ core::time::Duration::as_millis ](d: &core::time::Duration) -> u128;

/// A point in time after which the search stops deepening.
pub struct Deadline {
    pub start: std::time::Instant,
    pub budget_ms: u128,
}

impl Deadline {
    /// A deadline `budget_ms` milliseconds from now.
    pub fn new(budget_ms: u128) -> (r: Deadline)
        ensures
            r.budget_ms == budget_ms,
    {
        Deadline { start: std::time::Instant::now(), budget_ms }
    }

    /// Whether the budget has been used up. The answer depends on the clock.
    pub fn expired(&self) -> bool {
        self.start.elapsed().as_millis() >= self.budget_ms
    }
}

} // verus!
