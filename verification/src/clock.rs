use vstd::prelude::*;
use chrono::Datelike;
use crate::date::Date;

verus! {

/// Relies on chrono::Utc::now and the Datelike accessors of the
/// NaiveDate it yields: the date is a valid proleptic Gregorian
/// calendar date, `month` ranges over 1 through 12 and `day` over 1
/// through 31, as chrono's documentation states.
#[verifier::external_body]
fn today_ymd() -> (r: (i32, u8, u8))
    ensures
        1 <= r.1 <= 12,
        1 <= r.2 <= 31,
{
    let d = chrono::Utc::now().date_naive();
    (d.year(), d.month() as u8, d.day() as u8)
}

/// The current UTC day, when it lies in the supported year range.
pub fn today_date() -> (r: Option<Date>)
    ensures
        r matches Some(d) ==> d.wf(),
{
    let (y, m, d) = today_ymd();
    Date::new(y, m, d)
}

} // verus!
