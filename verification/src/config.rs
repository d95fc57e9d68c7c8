//! Challenge selection.
//!
//! A challenge mode carries the value it depends on — the number of days
//! elapsed since the epoch, a random draw, or an explicit index — so that
//! selection itself is a pure, deterministic function. The two helpers that
//! produce those values from the local clock and from the thread-local
//! random number generator live here as well.

use vstd::prelude::*;

use crate::words::SelectError;

verus! {

/// The epoch of the daily challenge: days are counted from this date.
pub const EPOCH_YEAR: i32 = 2023;

pub const EPOCH_MONTH: u32 = 10;

pub const EPOCH_DAY: u32 = 22;

/// How the session's solution is chosen: by the number of days elapsed
/// since the epoch, by an injected random draw, or by an explicit index.
#[derive(Copy, Clone, Debug, PartialEq, Eq, Structural)]
pub enum Challenge {
    Daily(usize),
    Random(usize),
    Nth(usize),
}

/// The resolved configuration of a run: which challenge to play.
pub struct Config {
    pub challenge_number: usize,
}

/// What selection yields. The daily day-count wraps around the solution
/// count; a random draw or an explicit index must already be below it, and
/// is rejected as OutOfRange otherwise, never clamped.
pub open spec fn select_outcome(count: int, challenge: Challenge) -> Result<int, SelectError>
    recommends
        count >= 1,
{
    match challenge {
        Challenge::Daily(d) => Ok(d as int % count),
        Challenge::Random(x) => if (x as int) < count {
            Ok(x as int)
        } else {
            Err(SelectError::OutOfRange)
        },
        Challenge::Nth(n) => if (n as int) < count {
            Ok(n as int)
        } else {
            Err(SelectError::OutOfRange)
        },
    }
}

/// Map a challenge to a solution index in [0, count).
pub fn select_index(count: usize, challenge: &Challenge) -> (r: Result<usize, SelectError>)
    requires
        count >= 1,
    ensures
        match r {
            Ok(i) => select_outcome(count as int, *challenge) == Ok::<int, SelectError>(i as int)
                && i < count,
            Err(e) => select_outcome(count as int, *challenge) == Err::<int, SelectError>(e),
        },
{
    match challenge {
        Challenge::Daily(d) => Ok(*d % count),
        Challenge::Random(x) => if *x < count {
            Ok(*x)
        } else {
            Err(SelectError::OutOfRange)
        },
        Challenge::Nth(n) => if *n < count {
            Ok(*n)
        } else {
            Err(SelectError::OutOfRange)
        },
    }
}

/// Relies on chrono: NaiveDate::from_ymd_opt, Local::now, DateTime::date_naive,
/// NaiveDate::signed_duration_since and TimeDelta::num_days. The number of
/// whole days from the given calendar date to the current local date,
/// negative when that date lies in the future, or None when it is not a real
/// calendar date. The result depends on the system clock, so nothing is
/// promised of it.
#[verifier::external_body]
fn days_from_date_to_today(year: i32, month: u32, day: u32) -> (r: Option<i64>) {
    let start = match chrono::NaiveDate::from_ymd_opt(year, month, day) {
        Some(s) => s,
        None => {
            return None;
        },
    };
    let today = chrono::Local::now().date_naive();
    Some(today.signed_duration_since(start).num_days())
}

/// The challenge number carried by a day count from the clock: a missing
/// or negative count plays the first challenge, a count beyond usize
/// saturates, and any other count is the number itself.
pub fn day_number(delta: Option<i64>) -> (n: usize)
    ensures
        delta is None ==> n == 0,
        delta matches Some(d) ==> {
            &&& d < 0 ==> n == 0
            &&& 0 <= d <= usize::MAX ==> n == d
            &&& d > usize::MAX ==> n == usize::MAX
        },
{
    match delta {
        Some(d) => {
            if d < 0 {
                0
            } else if (d as u64) > (usize::MAX as u64) {
                usize::MAX
            } else {
                d as usize
            }
        },
        None => 0,
    }
}

/// The day-count of today's daily challenge: whole days from the fixed
/// epoch to the current local date, normalized by `day_number`. The result
/// depends on the clock, so nothing more is promised of it; selection
/// wraps it around the solution count.
pub fn get_n_from_date() -> usize {
    day_number(days_from_date_to_today(EPOCH_YEAR, EPOCH_MONTH, EPOCH_DAY))
}

/// Relies on rand::random_range: a uniformly distributed value in the given
/// range, here [0, bound); the range must be non-empty.
#[verifier::external_body]
fn sample_below(bound: usize) -> (r: usize)
    requires
        bound >= 1,
    ensures
        r < bound,
{
    rand::random_range(0..bound)
}

/// A uniformly distributed random challenge number in [0, count).
pub fn random_number(count: usize) -> (r: usize)
    requires
        count >= 1,
    ensures
        r < count,
{
    sample_below(count)
}

} // verus!
