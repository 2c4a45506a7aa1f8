//! Lookback-window computation for one channel's synchronization pass.
//!
//! A pass never looks further back than the newest episode already stored for
//! the channel, and never earlier than the channel's configured floor date.
//! The window handed to the external enumeration tool is a whole number of
//! days, obtained by flooring the second-granularity distance to "now".

use vstd::prelude::*;

verus! {

pub const SECONDS_PER_DAY: i64 = 86400;

/// The instant a pass starts looking back from: the newest stored
/// publication date, clamped so it never falls before the channel's floor.
pub open spec fn lookback_last_spec(first: i64, newest: Option<i64>) -> i64 {
    match newest {
        Option::None => first,
        Option::Some(n) => if n < first {
            first
        } else {
            n
        },
    }
}

/// Compute the "last" instant of the lookback window from the channel's
/// floor date `first` and the newest stored publication date, if any.
/// A channel with no episodes starts exactly at its floor.
pub fn lookback_last(first: i64, newest: Option<i64>) -> (last: i64)
    ensures
        last == lookback_last_spec(first, newest),
{
    match newest {
        Option::None => first,
        Option::Some(n) => {
            if n < first {
                first
            } else {
                n
            }
        },
    }
}

/// How many whole days lie between `last` and `now`, rounding towards
/// minus infinity.  This is the value handed to the enumeration tool.
pub fn lookback_days(last: i64, now: i64) -> (days: i64)
    requires
        i64::MIN <= now - last <= i64::MAX,
    ensures
        days == (now - last) / (SECONDS_PER_DAY as int),
{
    let delta = now - last;
    proof {
        lemma_day_quotient_fits(delta as int);
    }
    delta.checked_div_euclid(SECONDS_PER_DAY).unwrap()
}

/// Dividing a representable number of seconds by the length of a day keeps
/// the quotient representable.
proof fn lemma_day_quotient_fits(d: int)
    requires
        i64::MIN <= d <= i64::MAX,
    ensures
        i64::MIN <= d / (SECONDS_PER_DAY as int) <= i64::MAX,
{
    vstd::arithmetic::div_mod::lemma_fundamental_div_mod(d, SECONDS_PER_DAY as int);
    vstd::arithmetic::div_mod::lemma_mod_bound(d, SECONDS_PER_DAY as int);
}

/// Relies on chrono's `DateTime::<Utc>::from(SystemTime)` and
/// `DateTime::timestamp`: the current wall-clock time as whole seconds
/// since the Unix epoch.  The conversion's source maps a clock reading
/// before the epoch to a negative timestamp instead of panicking, so the
/// call returns on every reading a real host can hold.  Nothing can be
/// promised of the value itself; callers handle every possible one.
#[verifier::external_body]
fn now_timestamp() -> i64 {
    let now: chrono::DateTime<chrono::Utc> = std::time::SystemTime::now().into();
    now.timestamp()
}

/// Read the clock and compute the lookback-day count from `last`.
/// Returns the clock reading, together with the day count exactly when
/// the distance from `last` to the reading fits in seconds.
pub fn window_from_clock(last: i64) -> (r: (i64, Option<i64>))
    ensures
        r.1 matches Some(days) ==> days == (r.0 - last) / (SECONDS_PER_DAY as int),
        r.1 is Some <==> i64::MIN <= r.0 - last <= i64::MAX,
{
    let now = now_timestamp();
    match now.checked_sub(last) {
        Option::None => (now, Option::None),
        Option::Some(_) => (now, Option::Some(lookback_days(last, now))),
    }
}

/// Law: for a channel that already has episodes, the lookback window never
/// starts earlier than any publication date at or below the newest stored
/// one — in particular, never earlier than anything persisted by an
/// earlier pass.
pub proof fn lemma_lookback_monotonic(first: i64, newest: i64, persisted: i64)
    requires
        persisted <= newest,
    ensures
        lookback_last_spec(first, Option::Some(newest)) >= persisted,
{
}

/// Law: for a channel with no stored episodes, the lookback window starts
/// exactly at the channel's floor date, whatever the current time is.
pub proof fn lemma_lookback_floor(first: i64)
    ensures
        lookback_last_spec(first, Option::None) == first,
{
}

} // verus!
