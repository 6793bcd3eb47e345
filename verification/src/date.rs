use chrono::Datelike;
use chrono::NaiveDate;
use vstd::prelude::*;

verus! {

/// A calendar date without a time of day. It is held as its day number in the
/// proleptic Gregorian calendar, where 1 January of the year 1 is day 1, so
/// that the distance between two dates is a difference of integers.
#[derive(Clone, Copy, Debug, PartialEq, Eq, Structural)]
pub struct CalendarDay {
    pub day_number: i32,
}

impl View for CalendarDay {
    type V = int;

    open spec fn view(&self) -> int {
        self.day_number as int
    }
}

/// The day number that chrono gives to the date `year`-`month`-`day`, or
/// `None` where chrono has no such date.
pub uninterp spec fn gregorian_day_number(year: i32, month: u32, day: u32) -> Option<i32>;

/// The text that chrono prints for the date with the given day number, or
/// `None` where chrono has no date with that number.
pub uninterp spec fn day_number_text(day_number: i32) -> Option<Seq<char>>;

/// Calls `chrono::NaiveDate::from_ymd_opt` and, on a date, chrono's
/// `Datelike::num_days_from_ce`. Trusted: the result depends on the three
/// numbers alone, and is `None` exactly where `from_ymd_opt` is.
#[verifier::external_body]
fn chrono_day_number(year: i32, month: u32, day: u32) -> (r: Option<i32>)
    ensures
        r == gregorian_day_number(year, month, day),
{
    match NaiveDate::from_ymd_opt(year, month, day) {
        Some(date) => Some(Datelike::num_days_from_ce(&date)),
        None => None,
    }
}

/// Calls `chrono::NaiveDate::from_num_days_from_ce_opt` and, on a date, its
/// `Display` through `to_string`. Trusted: the text depends on the day number
/// alone, and there is none exactly where `from_num_days_from_ce_opt` is `None`.
#[verifier::external_body]
fn chrono_day_text(day_number: i32) -> (r: Option<String>)
    ensures
        match r {
            Some(text) => day_number_text(day_number) == Some(text@),
            None => day_number_text(day_number) is None,
        },
{
    match NaiveDate::from_num_days_from_ce_opt(day_number) {
        Some(date) => Some(date.to_string()),
        None => None,
    }
}

impl CalendarDay {
    /// What `from_ymd` returns, over the day number that chrono computes.
    pub open spec fn from_day_number_option(found: Option<i32>) -> Option<CalendarDay> {
        match found {
            Some(n) => Some(CalendarDay { day_number: n }),
            None => None,
        }
    }

    /// The date with the given day number.
    pub fn from_day_number(day_number: i32) -> (r: CalendarDay)
        ensures
            r@ == day_number,
            r.day_number == day_number,
    {
        CalendarDay { day_number }
    }

    /// The date that chrono's answer for a year, month and day stands for.
    pub fn from_found_day_number(found: Option<i32>) -> (r: Option<CalendarDay>)
        ensures
            r == Self::from_day_number_option(found),
    {
        match found {
            Some(n) => Some(CalendarDay::from_day_number(n)),
            None => None,
        }
    }

    /// The date `year`-`month`-`day`, or `None` where the calendar has none.
    pub fn from_ymd(year: i32, month: u32, day: u32) -> (r: Option<CalendarDay>)
        ensures
            r == Self::from_day_number_option(gregorian_day_number(year, month, day)),
    {
        CalendarDay::from_found_day_number(chrono_day_number(year, month, day))
    }

    /// Whole calendar days from `earlier` to `self`: positive where `self` is
    /// the later date, zero on the same date.
    pub fn days_since(self, earlier: CalendarDay) -> (r: i64)
        ensures
            r == self@ - earlier@,
    {
        let later: i64 = self.day_number as i64;
        let before: i64 = earlier.day_number as i64;
        later - before
    }

    /// The date as text, year first, or `None` where the day number lies
    /// outside the years that chrono can hold.
    pub fn to_text(&self) -> (r: Option<String>)
        ensures
            match r {
                Some(text) => day_number_text(self.day_number) == Some(text@),
                None => day_number_text(self.day_number) is None,
            },
    {
        chrono_day_text(self.day_number)
    }
}

} // verus!
