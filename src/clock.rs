//! The calendar year now, from the system clock.

use chrono::Datelike;
use vstd::prelude::*;

verus! {

/// The first year of the clock's epoch, 1970-01-01 UTC.
pub const EPOCH_YEAR: i32 = 1970;

/// Relies on std's `SystemTime::duration_since`, applied to
/// `SystemTime::now()` and `UNIX_EPOCH`: the whole seconds elapsed since
/// 1970-01-01 UTC, or `None` when the clock reads an earlier time.
#[verifier::external_body]
fn seconds_since_epoch() -> Option<u64> {
    match std::time::SystemTime::now().duration_since(std::time::UNIX_EPOCH) {
        Ok(elapsed) => Some(elapsed.as_secs()),
        Err(_) => None,
    }
}

/// Relies on chrono's `DateTime::from_timestamp` (read through
/// `Datelike::year`): the UTC year of the moment `secs` seconds after
/// 1970-01-01, or `None` when chrono cannot represent that moment. A moment
/// from 1970 on lies in a year from 1970 on.
#[verifier::external_body]
fn year_at(secs: i64) -> (r: Option<i32>)
    ensures
        secs >= 0 ==> (r matches Some(y) ==> y >= EPOCH_YEAR),
{
    match chrono::DateTime::from_timestamp(secs, 0) {
        Some(moment) => Some(moment.year()),
        None => None,
    }
}

/// The year now by the system clock, or `None` when the clock reads a time
/// before 1970 or one too far ahead to hold.
pub fn current_year() -> (r: Option<i32>)
    ensures
        r matches Some(y) ==> y >= EPOCH_YEAR,
{
    match seconds_since_epoch() {
        Some(secs) => if secs <= i64::MAX as u64 {
            year_at(secs as i64)
        } else {
            None
        },
        None => None,
    }
}

/// The latest year that counts as a release year: the year now, or `0` when
/// the clock cannot tell it, so that no year counts.
pub fn latest_year() -> (r: i32)
    ensures
        r == 0 || r >= EPOCH_YEAR,
{
    match current_year() {
        Some(y) => y,
        None => 0,
    }
}

} // verus!
