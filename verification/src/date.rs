//! Calendar dates and date ranges.
//!
//! A date is held as its day number in the proleptic Gregorian calendar, counting
//! 0001-01-01 as day 1 (chrono's `num_days_from_ce`), so ordering and day counts are integer
//! comparisons and differences. Reading and writing the ISO form is chrono's work.
use vstd::prelude::*;

use crate::text::{concat, render_i128};

verus! {

/// A calendar date, as its day number (0001-01-01 is day 1).
#[derive(Debug, Clone, Copy, PartialEq, Eq, Structural, Hash)]
pub struct Date {
    pub days: i32,
}

/// The day number chrono reads from `text` in `YYYY-MM-DD` form, or `None` when `text` is
/// not a valid date in that form.
pub uninterp spec fn chrono_parse_date(text: Seq<char>) -> Option<i32>;

/// The `YYYY-MM-DD` text chrono writes for day number `days`, or `None` when the day lies
/// outside chrono's calendar.
pub uninterp spec fn chrono_format_date(days: i32) -> Option<Seq<char>>;

/// Calls `chrono::NaiveDate::from_str` on `text` and, for a date it reads, keeps the day
/// number `Datelike::num_days_from_ce`. The contract claims only that the result is the
/// named [`chrono_parse_date`] of the text; which texts chrono reads is chrono's.
#[verifier::external_body]
fn chrono_date(text: &str) -> (r: Option<Date>)
    ensures
        r == match chrono_parse_date(text@) {
            Some(days) => Some(Date { days }),
            None => None::<Date>,
        },
{
    text.parse::<chrono::NaiveDate>().ok().map(|d| Date { days: chrono::Datelike::num_days_from_ce(&d) })
}

/// Reads an ISO `YYYY-MM-DD` date as chrono does, or `None` when it is no valid date.
pub fn parse_iso_date(text: &str) -> (r: Option<Date>)
    ensures
        match chrono_parse_date(text@) {
            Some(days) => r == Some(Date { days }),
            None => r is None,
        },
{
    chrono_date(text)
}

/// Writes day number `days` in ISO form through `chrono::NaiveDate::from_num_days_from_ce_opt`
/// and its `Display`. The text is chrono's, named and not restated.
#[verifier::external_body]
fn format_iso_date(days: i32) -> (r: Option<String>)
    ensures
        r matches Some(s) ==> chrono_format_date(days) == Some(s@),
        r is None ==> chrono_format_date(days) is None,
{
    chrono::NaiveDate::from_num_days_from_ce_opt(days).map(|d| d.to_string())
}

/// How a date reads in a message: its ISO form, or its day number when chrono has none.
pub open spec fn date_text(days: i32) -> Seq<char> {
    match chrono_format_date(days) {
        Some(s) => s,
        None => crate::text::signed_decimal(days as int),
    }
}

impl Date {
    /// The ISO `YYYY-MM-DD` form of this date.
    pub fn iso(&self) -> (r: String)
        ensures
            r@ == date_text(self.days),
    {
        match format_iso_date(self.days) {
            Some(s) => s,
            None => render_i128(self.days as i128),
        }
    }
}

/// Day number of 0001-01-01, which stands for an absent lower bound.
pub open spec fn min_days() -> i32 {
    1
}

/// Day number of 9999-12-31, which stands for an absent upper bound.
pub open spec fn max_days() -> i32 {
    3652059
}

/// A closed range of dates. An absent bound is held as a sentinel date, so "no filter" and
/// "the full range" are the same range.
#[derive(Debug, Clone, Copy, PartialEq, Eq, Structural)]
pub struct DateRange {
    pub start: Date,
    pub end: Date,
}

impl DateRange {
    /// The sentinel standing for an absent lower bound.
    pub fn min_date() -> (r: Date)
        ensures
            r.days == min_days(),
    {
        Date { days: 1 }
    }

    /// The sentinel standing for an absent upper bound.
    pub fn max_date() -> (r: Date)
        ensures
            r.days == max_days(),
    {
        Date { days: 3652059 }
    }

    /// The range between `start` and `end`, an absent bound widened to its sentinel.
    pub fn new(start: Option<Date>, end: Option<Date>) -> (r: DateRange)
        ensures
            r.start.days == match start {
                Some(d) => d.days,
                None => min_days(),
            },
            r.end.days == match end {
                Some(d) => d.days,
                None => max_days(),
            },
    {
        let start = match start {
            Some(d) => d,
            None => DateRange::min_date(),
        };
        let end = match end {
            Some(d) => d,
            None => DateRange::max_date(),
        };
        DateRange { start, end }
    }

    /// A range is valid when it does not end before it starts.
    pub fn is_valid(&self) -> (r: bool)
        ensures
            r == (self.start.days <= self.end.days),
    {
        self.start.days <= self.end.days
    }

    /// Whether `date` lies in the range, both bounds included.
    pub fn contains_date(&self, date: Date) -> (r: bool)
        ensures
            r == (self.start.days <= date.days && date.days <= self.end.days),
    {
        self.start.days <= date.days && date.days <= self.end.days
    }
}

/// Budgets are filtered by two independent windows, one constraining where a budget's range
/// starts and one where it ends.
#[derive(Debug, Clone, Copy, PartialEq, Eq, Structural)]
pub struct BudgetFilter {
    pub start: DateRange,
    pub end: DateRange,
}

impl BudgetFilter {
    /// Both windows wide open, which is how the server reads absent parameters.
    pub fn unfiltered() -> (r: BudgetFilter)
        ensures
            r.start.start.days == min_days() && r.start.end.days == max_days(),
            r.end.start.days == min_days() && r.end.end.days == max_days(),
    {
        BudgetFilter { start: DateRange::new(None, None), end: DateRange::new(None, None) }
    }
}

/// What a budget form's period fields amount to.
pub open spec fn period_outcome(start: Seq<char>, end: Seq<char>) -> Result<(i32, i32), Seq<char>> {
    match (chrono_parse_date(start), chrono_parse_date(end)) {
        (Some(from), Some(to)) => if to < from {
            Err("The period end must be on or after the start"@)
        } else {
            Ok((from, to))
        },
        _ => Err("The dates are invalid"@),
    }
}

/// Reads a budget period typed into a form, refusing an unreadable date or an inverted
/// period before anything is sent.
pub fn parse_period(start: &str, end: &str) -> (r: Result<DateRange, String>)
    ensures
        r matches Ok(range) ==> period_outcome(start@, end@) == Ok::<(i32, i32), Seq<char>>(
            (range.start.days, range.end.days),
        ),
        r matches Err(m) ==> period_outcome(start@, end@) == Err::<(i32, i32), Seq<char>>(m@),
{
    let from = parse_iso_date(start);
    let to = parse_iso_date(end);
    match (from, to) {
        (Some(from), Some(to)) => {
            if to.days < from.days {
                return Err("The period end must be on or after the start".to_owned());
            }
            Ok(DateRange::new(Some(from), Some(to)))
        },
        _ => Err("The dates are invalid".to_owned()),
    }
}

/// The message refusing an inverted period.
pub open spec fn invalid_range_message(range: DateRange) -> Seq<char> {
    "Invalid date range: start "@ + date_text(range.start.days) + " is after end "@ + date_text(
        range.end.days,
    )
}

/// The message refusing `range`, which ends before it starts.
pub fn invalid_range(range: &DateRange) -> (r: String)
    ensures
        r@ == invalid_range_message(*range),
{
    let start = range.start.iso();
    let end = range.end.iso();
    let a = concat("Invalid date range: start ", start.as_str());
    let b = concat(a.as_str(), " is after end ");
    concat(b.as_str(), end.as_str())
}

} // verus!
