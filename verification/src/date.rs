//! Calendar dates, used as the expected arrival of a batch of stock.

use vstd::prelude::*;

verus! {

/// The first year that a [`Date`] can hold.
pub const MIN_YEAR: i32 = -262143;

/// The last year that a [`Date`] can hold.
pub const MAX_YEAR: i32 = 262142;

/// A date as three mathematical integers.
pub struct DateView {
    pub year: int,
    pub month: int,
    pub day: int,
}

impl DateView {
    /// Whether `self` is strictly earlier than `other`: the order of the
    /// triples (year, month, day), the year counting first.
    pub open spec fn is_before(self, other: DateView) -> bool {
        ||| self.year < other.year
        ||| self.year == other.year && self.month < other.month
        ||| self.year == other.year && self.month == other.month && self.day < other.day
    }

    /// Whether `self` names a day of the calendar.
    pub open spec fn is_valid(self) -> bool {
        is_calendar_date(self.year, self.month, self.day)
    }
}

/// Leap years of the proleptic Gregorian calendar: every fourth year, but of
/// the years that end a century only every fourth one. Year 0 is 1 BCE.
pub open spec fn is_leap_year(year: int) -> bool {
    year % 4 == 0 && (year % 100 != 0 || year % 400 == 0)
}

/// The number of days of a month, for `month` in 1..=12.
pub open spec fn days_in_month(year: int, month: int) -> int {
    if month == 2 {
        if is_leap_year(year) {
            29
        } else {
            28
        }
    } else if month == 4 || month == 6 || month == 9 || month == 11 {
        30
    } else {
        31
    }
}

/// The days of the proleptic Gregorian calendar, from 1 January of
/// [`MIN_YEAR`] to 31 December of [`MAX_YEAR`].
pub open spec fn is_calendar_date(year: int, month: int, day: int) -> bool {
    &&& MIN_YEAR <= year <= MAX_YEAR
    &&& 1 <= month <= 12
    &&& 1 <= day <= days_in_month(year, month)
}

/// `chrono::NaiveDate`, the date that `chrono::NaiveDate::from_ymd_opt`
/// returns. Nothing is claimed of what it holds: the library only asks
/// whether chrono made one.
#[verifier::external_type_specification]
#[verifier::external_body]
pub struct ExNaiveDate(chrono::NaiveDate);

/// `chrono::NaiveDate::from_ymd_opt` makes a date from a year, a month and a
/// day of the month. It is trusted to return a date exactly for the days
/// of the proleptic Gregorian calendar in chrono's range of years, as its
/// documentation says: it returns `None` where the day does not exist, where
/// the month or the day is invalid, and where the year is out of range.
pub assume_specification[ chrono::NaiveDate::from_ymd_opt ](
    year: i32,
    month: u32,
    day: u32,
) -> (date: Option<chrono::NaiveDate>)
    ensures
        date.is_some() == is_calendar_date(year as int, month as int, day as int),
;

/// A day of the calendar.
#[derive(Clone, Copy, Debug)]
pub struct Date {
    year: i32,
    month: u32,
    day: u32,
}

impl View for Date {
    type V = DateView;

    closed spec fn view(&self) -> DateView {
        DateView { year: self.year as int, month: self.month as int, day: self.day as int }
    }
}

impl Date {
    #[verifier::type_invariant]
    spec fn is_on_calendar(self) -> bool {
        is_calendar_date(self.year as int, self.month as int, self.day as int)
    }

    /// The date of the given year, month and day of the month, if the
    /// calendar has such a day.
    pub fn from_ymd_opt(year: i32, month: u32, day: u32) -> (date: Option<Date>)
        ensures
            date.is_some() == is_calendar_date(year as int, month as int, day as int),
            date matches Some(d) ==> d@ == (DateView {
                year: year as int,
                month: month as int,
                day: day as int,
            }),
    {
        if chrono::NaiveDate::from_ymd_opt(year, month, day).is_some() {
            Some(Date { year, month, day })
        } else {
            None
        }
    }

    /// The year; year 0 is 1 BCE.
    pub fn year(&self) -> (year: i32)
        ensures
            year == self@.year,
            self@.is_valid(),
    {
        proof {
            use_type_invariant(self);
        }
        self.year
    }

    /// The month, from 1 for January.
    pub fn month(&self) -> (month: u32)
        ensures
            month == self@.month,
            self@.is_valid(),
    {
        proof {
            use_type_invariant(self);
        }
        self.month
    }

    /// The day of the month, from 1.
    pub fn day(&self) -> (day: u32)
        ensures
            day == self@.day,
            self@.is_valid(),
    {
        proof {
            use_type_invariant(self);
        }
        self.day
    }

    /// Whether `self` is strictly earlier than `other`.
    pub fn is_before(&self, other: &Date) -> (earlier: bool)
        ensures
            earlier == self@.is_before(other@),
    {
        self.year < other.year || (self.year == other.year && (self.month < other.month || (
        self.month == other.month && self.day < other.day)))
    }
}

impl PartialEq for Date {
    fn eq(&self, other: &Date) -> (equal: bool) {
        self.year == other.year && self.month == other.month && self.day == other.day
    }
}

impl Eq for Date {}

impl vstd::std_specs::cmp::PartialEqSpecImpl for Date {
    open spec fn obeys_eq_spec() -> bool {
        true
    }

    open spec fn eq_spec(&self, other: &Date) -> bool {
        self@ == other@
    }
}

/// Of two distinct dates one is before the other, and never both.
pub proof fn lemma_dates_are_totally_ordered(a: DateView, b: DateView)
    ensures
        a == b || a.is_before(b) || b.is_before(a),
        !(a.is_before(b) && b.is_before(a)),
        !a.is_before(a),
{
}

/// The order of dates is transitive.
pub proof fn lemma_is_before_is_transitive(a: DateView, b: DateView, c: DateView)
    requires
        a.is_before(b),
        b.is_before(c),
    ensures
        a.is_before(c),
{
}

} // verus!
