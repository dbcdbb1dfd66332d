//! Calendar dates, and the day from which the weekly report runs.
//!
//! Which day falls in which week is asked of the `chrono` crate; how a date
//! is written is defined here.

use vstd::prelude::*;
use crate::text::{four_digits, push_char, push_four_digits, push_two_digits, two_digits};

verus! {

/// The number of days in a week.
pub const DAYS_PER_WEEK: u64 = 7;

/// Monday, counted in days after Monday.
pub const MONDAY: u8 = 0;

/// The first year of the calendar.
pub const MIN_YEAR: i32 = -262143;

/// The last year of the calendar.
pub const MAX_YEAR: i32 = 262142;

/// Whether `year` is a year of the calendar.
pub open spec fn in_calendar(year: i32) -> bool {
    MIN_YEAR <= year <= MAX_YEAR
}

/// A day of the proleptic Gregorian calendar.
#[derive(Clone, Copy, Debug, PartialEq, Eq, Structural)]
pub struct Date {
    pub year: i32,
    pub month: u32,
    pub day: u32,
}

/// Year, month and day of an optional date.
pub open spec fn date_parts(date: Option<Date>) -> Option<(i32, u32, u32)> {
    match date {
        None => None,
        Some(d) => Some((d.year, d.month, d.day)),
    }
}

/// The ISO week that the given day lies in, as its year and its number in
/// that year; `None` if the calendar has no such day.
pub uninterp spec fn iso_week_of(year: i32, month: u32, day: u32) -> Option<(i32, u32)>;

/// The day that is `weekday` days after the Monday of ISO week `week` of
/// `year`; `None` if there is no such week or no such weekday, or if the day
/// is out of the calendar's range.
pub uninterp spec fn day_of_iso_week(year: i32, week: u32, weekday: u8) -> Option<(i32, u32, u32)>;

/// The day that is `days` days before the given day; `None` if the
/// calendar has no such day or the result is out of its range.
pub uninterp spec fn day_before(year: i32, month: u32, day: u32, days: u64) -> Option<
    (i32, u32, u32),
>;

/// Finds the ISO week of `date`. The date is made into a
/// `chrono::NaiveDate` by `from_ymd_opt`, which has none for a day that does
/// not exist; the week is what `Datelike::iso_week` gives for it, as its
/// year and week number. Nothing is proved of the answer: it depends on the
/// date alone, and the contract only gives it a name.
#[verifier::external_body]
fn iso_week(date: &Date) -> (week: Option<(i32, u32)>)
    ensures
        week == iso_week_of(date.year, date.month, date.day),
{
    match chrono::NaiveDate::from_ymd_opt(date.year, date.month, date.day) {
        Some(day) => {
            let week = chrono::Datelike::iso_week(&day);
            Some((week.year(), week.week()))
        },
        None => None,
    }
}

/// Finds a day by its ISO week. This is `chrono::NaiveDate::from_isoywd_opt`
/// with the weekday that `chrono::Weekday::try_from` makes of `weekday`;
/// either may have no answer. The year has to be one of the calendar:
/// `from_isoywd_opt` steps to the year before or after it, which overflows at
/// the ends of `i32`. Nothing is proved of the answer: it depends on the
/// arguments alone, and the contract only gives it a name.
#[verifier::external_body]
fn iso_week_day(year: i32, week: u32, weekday: u8) -> (date: Option<Date>)
    requires
        in_calendar(year),
    ensures
        date_parts(date) == day_of_iso_week(year, week, weekday),
{
    let weekday = chrono::Weekday::try_from(weekday).ok()?;
    let day = chrono::NaiveDate::from_isoywd_opt(year, week, weekday)?;
    Some(
        Date {
            year: chrono::Datelike::year(&day),
            month: chrono::Datelike::month(&day),
            day: chrono::Datelike::day(&day),
        },
    )
}

/// Goes `days` days back from `date`. This is
/// `chrono::NaiveDate::checked_sub_days` on the date that `from_ymd_opt`
/// makes; either may have no answer. Nothing is proved of the answer: it
/// depends on the arguments alone, and the contract only gives it a name.
#[verifier::external_body]
fn days_earlier(date: &Date, days: u64) -> (earlier: Option<Date>)
    ensures
        date_parts(earlier) == day_before(date.year, date.month, date.day, days),
{
    let day = chrono::NaiveDate::from_ymd_opt(date.year, date.month, date.day)?;
    let earlier = day.checked_sub_days(chrono::Days::new(days))?;
    Some(
        Date {
            year: chrono::Datelike::year(&earlier),
            month: chrono::Datelike::month(&earlier),
            day: chrono::Datelike::day(&earlier),
        },
    )
}

/// The Monday from which the report runs, given the Monday of the week in
/// which it is made: the Monday a week earlier.
pub open spec fn spec_start_from_monday(monday: Option<(i32, u32, u32)>) -> Option<
    (i32, u32, u32),
> {
    match monday {
        None => None,
        Some((year, month, day)) => day_before(year, month, day, DAYS_PER_WEEK),
    }
}

/// The Monday of the week `week`, given as an ISO year and week number.
/// `None` if the year is no year of the calendar.
pub open spec fn spec_monday_of(week: Option<(i32, u32)>) -> Option<(i32, u32, u32)> {
    match week {
        None => None,
        Some((year, number)) => if in_calendar(year) {
            day_of_iso_week(year, number, MONDAY)
        } else {
            None
        },
    }
}

/// The day from which a report made on `today` runs: the Monday of the
/// week before the week of `today`, so that the report covers last week and
/// this one. `None` if `today` is no day of the calendar or the Monday is out
/// of the calendar's range.
pub open spec fn spec_report_start(today: Date) -> Option<(i32, u32, u32)> {
    spec_start_from_monday(spec_monday_of(iso_week_of(today.year, today.month, today.day)))
}

/// The Monday of the week `week`, given as an ISO year and week number, if
/// the week is known.
pub fn monday_of(week: Option<(i32, u32)>) -> (monday: Option<Date>)
    ensures
        date_parts(monday) == spec_monday_of(week),
{
    match week {
        None => None,
        Some((year, number)) => {
            if MIN_YEAR <= year && year <= MAX_YEAR {
                iso_week_day(year, number, MONDAY)
            } else {
                None
            }
        },
    }
}

/// The Monday a week before `monday`, if `monday` is known.
pub fn start_from_monday(monday: Option<Date>) -> (start: Option<Date>)
    ensures
        date_parts(start) == spec_start_from_monday(date_parts(monday)),
{
    match monday {
        None => None,
        Some(day) => days_earlier(&day, DAYS_PER_WEEK),
    }
}

/// The day from which a report made on `today` runs.
pub fn report_start(today: &Date) -> (start: Option<Date>)
    ensures
        date_parts(start) == spec_report_start(*today),
{
    start_from_monday(monday_of(iso_week(today)))
}

/// The date with the given parts as text: year, month and day, each at
/// least four, two and two digits wide, with hyphens between them. A year
/// before 0 has a minus sign, a year after 9999 a plus sign.
pub open spec fn spec_date_text(year: int, month: int, day: int) -> Seq<char> {
    let sign = if year < 0 {
        seq!['-']
    } else if year > 9999 {
        seq!['+']
    } else {
        Seq::empty()
    };
    let size = if year < 0 {
        -year
    } else {
        year
    };
    sign + four_digits(size as nat) + seq!['-'] + two_digits(month) + seq!['-'] + two_digits(day)
}

impl Date {
    /// The date as text, such as `2024-07-08`.
    pub fn to_text(&self) -> (text: String)
        ensures
            text@ == spec_date_text(self.year as int, self.month as int, self.day as int),
    {
        let mut text = String::new();
        if self.year < 0 {
            push_char(&mut text, '-');
        } else if self.year > 9999 {
            push_char(&mut text, '+');
        }
        let size: u32 = if self.year < 0 {
            (-(self.year as i64)) as u32
        } else {
            self.year as u32
        };
        push_four_digits(&mut text, size);
        push_char(&mut text, '-');
        push_two_digits(&mut text, self.month as i64);
        push_char(&mut text, '-');
        push_two_digits(&mut text, self.day as i64);
        text
    }
}

} // verus!
