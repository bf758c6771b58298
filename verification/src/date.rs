use chrono::Datelike;
use chrono::NaiveDate;
use crate::text::{append_digits, append_fixed_digits, decimal_digits, fixed_digits};
use vstd::prelude::*;
use vstd::string::*;

verus! {

/// First year a date may lie in.
pub const MIN_YEAR: i32 = -262143;

/// Last year a date may lie in.
pub const MAX_YEAR: i32 = 262142;

/// Whether `year` is a leap year of the proleptic Gregorian calendar.
pub open spec fn is_leap_year(year: int) -> bool {
    year % 4 == 0 && (year % 100 != 0 || year % 400 == 0)
}

/// How many days the month has in that year; 0 where there is no such month.
pub open spec fn days_in_month(year: int, month: int) -> int {
    if month == 2 {
        if is_leap_year(year) {
            29
        } else {
            28
        }
    } else if month == 4 || month == 6 || month == 9 || month == 11 {
        30
    } else if 1 <= month <= 12 {
        31
    } else {
        0
    }
}

/// Whether the calendar has that day, in a year that a date may lie in.
pub open spec fn is_calendar_date(year: int, month: int, day: int) -> bool {
    &&& MIN_YEAR <= year <= MAX_YEAR
    &&& 1 <= month <= 12
    &&& 1 <= day <= days_in_month(year, month)
}

/// What a date holds: a year, a month of it and a day of that month.
pub struct DateView {
    pub year: int,
    pub month: int,
    pub day: int,
}

/// A day of the proleptic Gregorian calendar, without a time zone.
#[derive(Debug, Clone, Copy, PartialEq, Eq)]
pub struct Date {
    year: i32,
    month: u32,
    day: u32,
}

impl View for Date {
    type V = DateView;

    closed spec fn view(&self) -> DateView {
        DateView { year: self.year as int, month: self.month as int, day: self.day as int }
    }
}

/// What `NaiveDate::parse_from_str` makes of `text` read by `format`: the year, month and day
/// of the date it returns, or `None` where it returns an error.
pub uninterp spec fn parsed_date(text: Seq<char>, format: Seq<char>) -> Option<(i32, u32, u32)>;

/// A year as it is printed: with four digits from 0 to 9999, and otherwise with its sign and
/// four digits or more.
pub open spec fn printed_year(year: int) -> Seq<char> {
    if 0 <= year <= 9999 {
        fixed_digits(year as nat, 4)
    } else if year > 0 {
        seq!['+'] + decimal_digits(year as nat)
    } else if year >= -9999 {
        seq!['-'] + fixed_digits((-year) as nat, 4)
    } else {
        seq!['-'] + decimal_digits((-year) as nat)
    }
}

/// A date as it is printed: the year, the month in two digits and the day in two digits,
/// with hyphens between them.
pub open spec fn printed_date(year: int, month: int, day: int) -> Seq<char> {
    printed_year(year) + seq!['-'] + fixed_digits(month as nat, 2) + seq!['-'] + fixed_digits(
        day as nat,
        2,
    )
}

/// Calls `chrono::NaiveDate::parse_from_str` and takes the date it returns apart with
/// `Datelike::year`, `month` and `day`. The outcome depends on the two strings alone and is
/// given the name `parsed_date`.
#[verifier::external_body]
fn naive_date_parse(text: &str, format: &str) -> (parts: Option<(i32, u32, u32)>)
    ensures
        parts == parsed_date(text@, format@),
{
    match NaiveDate::parse_from_str(text, format) {
        Ok(date) => Some((date.year(), date.month(), date.day())),
        Err(_) => None,
    }
}

impl Date {
    #[verifier::type_invariant]
    spec fn is_on_calendar(self) -> bool {
        is_calendar_date(self.year as int, self.month as int, self.day as int)
    }

    /// The date of that year, month and day, if the calendar has it.
    pub fn from_ymd_opt(year: i32, month: u32, day: u32) -> (date: Option<Date>)
        ensures
            date is Some <==> is_calendar_date(year as int, month as int, day as int),
            date matches Some(d) ==> d@ == (DateView {
                year: year as int,
                month: month as int,
                day: day as int,
            }),
    {
        if year < MIN_YEAR || year > MAX_YEAR || month < 1 || month > 12 || day < 1 {
            return None;
        }
        // 262400 is a multiple of 400, so the shifted year is a leap year exactly when `year` is.
        let shifted: u32 = (year + 262400) as u32;
        let leap = shifted % 4 == 0 && (shifted % 100 != 0 || shifted % 400 == 0);
        assert(leap == is_leap_year(year as int));
        let last: u32 = if month == 2 {
            if leap {
                29
            } else {
                28
            }
        } else if month == 4 || month == 6 || month == 9 || month == 11 {
            30
        } else {
            31
        };
        if day > last {
            return None;
        }
        Some(Date { year, month, day })
    }

    /// The date of that year, month and day.
    pub fn from_ymd(year: i32, month: u32, day: u32) -> (date: Date)
        requires
            is_calendar_date(year as int, month as int, day as int),
        ensures
            date@ == (DateView { year: year as int, month: month as int, day: day as int }),
    {
        Date { year, month, day }
    }

    /// The date that a parser's answer stands for: none where it found none, and none where
    /// the calendar lacks the day it names.
    pub open spec fn of_parts(parts: Option<(i32, u32, u32)>) -> Option<DateView> {
        match parts {
            Some((year, month, day)) => if is_calendar_date(
                year as int,
                month as int,
                day as int,
            ) {
                Some(DateView { year: year as int, month: month as int, day: day as int })
            } else {
                None
            },
            None => None,
        }
    }

    /// The date written in `text`, read by the strftime-like `format`.
    pub fn parse_from_str(text: &str, format: &str) -> (date: Option<Date>)
        ensures
            date is Some <==> Date::of_parts(parsed_date(text@, format@)) is Some,
            date matches Some(d) ==> Some(d@) == Date::of_parts(parsed_date(text@, format@)),
    {
        match naive_date_parse(text, format) {
            Some((year, month, day)) => Date::from_ymd_opt(year, month, day),
            None => None,
        }
    }

    pub fn year(&self) -> (year: i32)
        ensures
            year == self@.year,
            MIN_YEAR <= year <= MAX_YEAR,
    {
        proof {
            use_type_invariant(self);
        }
        self.year
    }

    pub fn month(&self) -> (month: u32)
        ensures
            month == self@.month,
            1 <= month <= 12,
    {
        proof {
            use_type_invariant(self);
        }
        self.month
    }

    pub fn day(&self) -> (day: u32)
        ensures
            day == self@.day,
            1 <= day <= days_in_month(self@.year, self@.month),
    {
        proof {
            use_type_invariant(self);
        }
        self.day
    }

    /// The date as text, year first.
    pub fn to_string(&self) -> (text: String)
        ensures
            text@ == printed_date(self@.year, self@.month, self@.day),
    {
        proof {
            use_type_invariant(self);
            reveal_strlit("+");
            reveal_strlit("-");
        }
        let mut text = String::new();
        if 0 <= self.year && self.year <= 9999 {
            append_fixed_digits(&mut text, self.year as u128, 4);
        } else if self.year > 0 {
            text.append("+");
            append_digits(&mut text, self.year as u128);
        } else if self.year >= -9999 {
            text.append("-");
            append_fixed_digits(&mut text, (-self.year) as u128, 4);
        } else {
            text.append("-");
            append_digits(&mut text, (-self.year) as u128);
        }
        assert(text@ =~= printed_year(self.year as int));
        text.append("-");
        append_fixed_digits(&mut text, self.month as u128, 2);
        text.append("-");
        append_fixed_digits(&mut text, self.day as u128, 2);
        assert(text@ =~= printed_date(self.year as int, self.month as int, self.day as int));
        text
    }
}

} // verus!
