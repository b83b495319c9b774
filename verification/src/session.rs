//! Session bookkeeping: the daily focus aggregate and its day boundary.

use vstd::prelude::*;

verus! {

/// Folds the gateway's aggregate-sum result into the daily focus total.
/// A sum over no rows (NULL) is zero — never an error.
pub fn sum_rows_to_total(sum: Option<i64>) -> (total: i64)
    ensures
        sum is Some ==> total == sum.unwrap(),
        sum is None ==> total == 0,
{
    match sum {
        Some(v) => v,
        None => 0,
    }
}

/// Relies on chrono (`Local::now`, `NaiveDate::and_hms_opt`,
/// `NaiveDateTime::and_local_timezone`, `DateTime::timestamp`): returns
/// the epoch second of today's local midnight, or of the current
/// instant when the time zone gives midnight no unambiguous local time.
/// The result depends on the clock and the machine's time zone, so
/// nothing is promised of it.
#[verifier::external_body]
pub(crate) fn local_day_start_epoch() -> i64 {
    let now = chrono::Local::now();
    match now.date_naive().and_hms_opt(0, 0, 0) {
        Some(midnight) => match midnight.and_local_timezone(chrono::Local).earliest() {
            Some(day_start) => day_start.timestamp(),
            None => now.timestamp(),
        },
        None => now.timestamp(),
    }
}

} // verus!
