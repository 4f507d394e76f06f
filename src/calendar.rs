use vstd::prelude::*;

verus! {

pub const SECONDS_PER_DAY: i64 = 86400;

/// The largest distance from 1970-01-01 00:00:00, in seconds, of a timestamp
/// that the calendar handles (about 253,000 years either way).
pub const MAX_TIMESTAMP: i64 = 8_000_000_000_000;

pub open spec fn valid_timestamp(t: int) -> bool {
    -MAX_TIMESTAMP <= t <= MAX_TIMESTAMP
}

/// The first second of the calendar day that holds `t`.
pub open spec fn day_start(t: int) -> int {
    t - t % (SECONDS_PER_DAY as int)
}

/// The first second of the calendar day after the one that holds `t`.
pub open spec fn day_end(t: int) -> int {
    day_start(t) + SECONDS_PER_DAY
}

/// Relies on chrono's `DateTime::from_timestamp`, `NaiveDateTime::date` and
/// `NaiveDate::and_time`: a naive date-time's day starts at its date's midnight,
/// which is `t` rounded down to a whole number of days.
#[verifier::external_body]
fn chrono_midnight(t: i64) -> (r: i64)
    requires
        valid_timestamp(t as int),
    ensures
        r == day_start(t as int),
{
    let dt = chrono::DateTime::from_timestamp(t, 0).unwrap().naive_utc();
    dt.date().and_time(chrono::NaiveTime::MIN).and_utc().timestamp()
}

/// The first second of the calendar day that holds `t`.
pub fn midnight_before(t: i64) -> (r: i64)
    requires
        valid_timestamp(t as int),
    ensures
        r == day_start(t as int),
        r <= t < r + SECONDS_PER_DAY,
{
    chrono_midnight(t)
}

} // verus!
