use vstd::prelude::*;

verus! {

/// A point in time: milliseconds since 1970-01-01T00:00:00 UTC.
pub type Timestamp = i64;

/// Every timestamp the clock hands out lies in `0..=TIME_LIMIT`.
pub const TIME_LIMIT: i64 = 10_000_000_000_000_000;

/// How long after its creation a capsule may still be modified: one week.
pub const MODIFICATION_WINDOW: i64 = 604_800_000;

/// A timestamp that the clock can produce.
pub open spec fn is_clock_time(t: Timestamp) -> bool {
    0 <= t <= TIME_LIMIT
}

/// Relies on chrono's `Utc::now` and `DateTime::timestamp_millis`: the current
/// UTC time in milliseconds since the Unix epoch. `Utc::now` panics when the
/// system clock reads before the epoch, and unwraps chrono's range check, so a
/// date it returns lies between the epoch and the year 262142: at most about
/// 8.2e15 milliseconds, below `TIME_LIMIT`.
#[verifier::external_body]
pub(crate) fn clock_now() -> (r: Timestamp)
    ensures
        is_clock_time(r),
{
    chrono::Utc::now().timestamp_millis()
}

/// The deadline for changes to a capsule created at `created`.
pub open spec fn deadline_after(created: Timestamp) -> Timestamp {
    (created + MODIFICATION_WINDOW) as Timestamp
}

pub fn modification_deadline(created: Timestamp) -> (r: Timestamp)
    requires
        is_clock_time(created),
    ensures
        r == deadline_after(created),
        r == created + MODIFICATION_WINDOW,
{
    created + MODIFICATION_WINDOW
}

/// Whether changes are still allowed at `now` under the deadline `until`.
pub open spec fn window_open(now: Timestamp, until: Timestamp) -> bool {
    now <= until
}

} // verus!
