use vstd::prelude::*;

verus! {

/// A point in time, as chrono's `DateTime<Utc>` gives it: whole seconds since the
/// Unix epoch, and the nanoseconds within that second (from 1_000_000_000 up to
/// 1_999_999_999 during a leap second).
#[derive(Clone, Copy, Debug, PartialEq, Eq, Structural)]
pub struct Instant {
    pub secs: i64,
    pub nanos: u32,
}

/// `a` is strictly earlier than `b`: the order of chrono's `DateTime`, which
/// compares the second first and then the nanoseconds within it.
pub open spec fn spec_before(a: Instant, b: Instant) -> bool {
    a.secs < b.secs || (a.secs == b.secs && a.nanos < b.nanos)
}

/// Whether `a` is strictly earlier than `b`.
pub fn is_before(a: &Instant, b: &Instant) -> (r: bool)
    ensures
        r == spec_before(*a, *b),
{
    a.secs < b.secs || (a.secs == b.secs && a.nanos < b.nanos)
}

/// The number of seconds in a day.
pub const SECONDS_PER_DAY: i64 = 86400;

/// `t` is no later than one day before `now`: `t <= now - Duration::days(1)`,
/// where going back a day keeps the nanoseconds within the second.
pub open spec fn spec_at_least_a_day_before(t: Instant, now: Instant) -> bool {
    t.secs + SECONDS_PER_DAY < now.secs || (t.secs + SECONDS_PER_DAY == now.secs && t.nanos
        <= now.nanos)
}

/// Whether `t` lies at least one day before `now`.
pub fn at_least_a_day_before(t: &Instant, now: &Instant) -> (r: bool)
    ensures
        r == spec_at_least_a_day_before(*t, *now),
{
    let shifted: i128 = t.secs as i128 + SECONDS_PER_DAY as i128;
    let current: i128 = now.secs as i128;
    shifted < current || (shifted == current && t.nanos <= now.nanos)
}

/// `t` is no later than one day after `now`: `t <= now + Duration::days(1)`.
pub open spec fn spec_within_a_day_after(t: Instant, now: Instant) -> bool {
    t.secs < now.secs + SECONDS_PER_DAY || (t.secs == now.secs + SECONDS_PER_DAY && t.nanos
        <= now.nanos)
}

/// Whether `t` lies no later than one day after `now`.
pub fn within_a_day_after(t: &Instant, now: &Instant) -> (r: bool)
    ensures
        r == spec_within_a_day_after(*t, *now),
{
    let limit: i128 = now.secs as i128 + SECONDS_PER_DAY as i128;
    let given: i128 = t.secs as i128;
    given < limit || (given == limit && t.nanos <= now.nanos)
}

/// Reads the clock with chrono's `Utc::now()`. Trusted: chrono documents that
/// `timestamp_subsec_nanos` is below 2_000_000_000; which time comes back is
/// left open.
#[verifier::external_body]
pub(crate) fn current_instant() -> (r: Instant)
    ensures
        r.nanos < 2_000_000_000,
{
    let now = chrono::Utc::now();
    Instant { secs: now.timestamp(), nanos: now.timestamp_subsec_nanos() }
}

} // verus!
