//! The recurrence rule of a recurring reminder: from a cron expression and an
//! instant to the next instant at which the expression occurs.

use vstd::prelude::*;
use crate::err::Error;

verus! {

/// The first instant strictly after `after` at which the five-field cron
/// expression `expr` occurs, read in UTC, in seconds since the Unix epoch;
/// `None` where the expression is rejected, where `after` is outside the
/// calendar, or where no later occurrence can be represented.
pub uninterp spec fn cron_next(expr: Seq<char>, after: i64) -> Option<i64>;

/// Calls `cron_parser::parse` on the expression and on the UTC instant that
/// `chrono::DateTime::from_timestamp` makes of `after`, and gives the result
/// back as a timestamp. Not proved: that the result is the same for the same
/// arguments, and that an occurrence it returns lies strictly after `after`,
/// as the documentation of `parse` states.
#[verifier::external_body]
fn parse_next(expr: &str, after: i64) -> (r: Option<i64>)
    ensures
        r == cron_next(expr@, after),
        r matches Some(t) ==> after < t,
{
    let start = chrono::DateTime::from_timestamp(after, 0)?;
    let next = cron_parser::parse(expr, &start).ok()?;
    Some(next.timestamp())
}

/// What the scheduler makes of the outcome of a recurrence computation: the
/// next due time, or the error that freezes the reminder.
pub open spec fn occurrence(outcome: Option<i64>) -> Result<i64, Error> {
    match outcome {
        Some(t) => Ok(t),
        None => Err(Error::CronParse),
    }
}

/// The next occurrence of `cron_expr` strictly after `after`.
pub fn next_occurrence(cron_expr: &str, after: i64) -> (r: Result<i64, Error>)
    ensures
        r == occurrence(cron_next(cron_expr@, after)),
        r matches Ok(t) ==> after < t,
{
    match parse_next(cron_expr, after) {
        Some(t) => Ok(t),
        None => Err(Error::CronParse),
    }
}

} // verus!
