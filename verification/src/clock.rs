//! Calendar days: the date text chrono gives for a day number. The clock is
//! read by the caller, who hands the library the day and the time.
use vstd::prelude::*;
use crate::text::opt_seq;

verus! {

/// A name for the date text `%Y-%m-%d` that chrono gives for day number
/// `day` (1 January of year 1 being day 1); `None` when chrono's calendar
/// does not hold that day.
pub uninterp spec fn day_text(day: i32) -> Option<Seq<char>>;

/// `chrono::NaiveDate::from_num_days_from_ce_opt` and `format("%Y-%m-%d")`,
/// rendered by `to_string`: the date text of day number `day`, named
/// `day_text`.
#[verifier::external_body]
pub(crate) fn date_text(day: i32) -> (r: Option<String>)
    ensures
        opt_seq(r) == day_text(day),
{
    match chrono::NaiveDate::from_num_days_from_ce_opt(day) {
        Some(d) => Some(d.format("%Y-%m-%d").to_string()),
        None => None,
    }
}

} // verus!
