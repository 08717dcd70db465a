//! Calendar days, by which the daily logs are addressed.
//!
//! The calendar itself is chrono's: whether a day exists, which day follows
//! or precedes it, and how it is written are asked of `chrono::NaiveDate`.
//! The functions that ask are short and unverified; what they claim of
//! chrono is written out below in full, so that the rest can be proved
//! from it.

use vstd::prelude::*;
use chrono::{Datelike, NaiveDate};
use crate::decimal::{
    all_digits, decimal_text, digit_char, digits_value, is_digit, lemma_decimal_text_value,
};

verus! {

/// The first year that chrono's dates reach.
pub const MIN_YEAR: i32 = -262143;

/// The last year that chrono's dates reach.
pub const MAX_YEAR: i32 = 262142;

/// Leap years of the proleptic Gregorian calendar.
pub open spec fn is_leap_year(year: int) -> bool {
    year % 4 == 0 && (year % 100 != 0 || year % 400 == 0)
}

/// The number of days of a month, 1 to 12.
pub open spec fn days_in_month(year: int, month: int) -> int {
    if month == 2 {
        if is_leap_year(year) {
            29
        } else {
            28
        }
    } else if month == 4 || month == 6 || month == 9 || month == 11 {
        30
    } else {
        31
    }
}

/// Whether the year, month and day name a day of the calendar.
pub open spec fn is_calendar_day(year: int, month: int, day: int) -> bool {
    &&& MIN_YEAR <= year <= MAX_YEAR
    &&& 1 <= month <= 12
    &&& 1 <= day <= days_in_month(year, month)
}

/// The day after, where the calendar has one.
pub open spec fn day_after(year: int, month: int, day: int) -> Option<(int, int, int)> {
    if day < days_in_month(year, month) {
        Some((year, month, day + 1))
    } else if month < 12 {
        Some((year, month + 1, 1))
    } else if year < MAX_YEAR {
        Some((year + 1, 1, 1))
    } else {
        None
    }
}

/// The day before, where the calendar has one.
pub open spec fn day_before(year: int, month: int, day: int) -> Option<(int, int, int)> {
    if day > 1 {
        Some((year, month, day - 1))
    } else if month > 1 {
        Some((year, month - 1, days_in_month(year, month - 1)))
    } else if year > MIN_YEAR {
        Some((year - 1, 12, 31))
    } else {
        None
    }
}

/// Whether the day `a` comes before the day `b`.
pub open spec fn precedes(a: (int, int, int), b: (int, int, int)) -> bool {
    a.0 < b.0 || (a.0 == b.0 && (a.1 < b.1 || (a.1 == b.1 && a.2 < b.2)))
}

/// A number below a hundred in two digits.
pub open spec fn two_digits(n: int) -> Seq<char> {
    seq![digit_char((n / 10) as nat), digit_char((n % 10) as nat)]
}

/// A number in decimal, with zeros in front where it has fewer than four
/// digits.
pub open spec fn four_digits_or_more(n: nat) -> Seq<char> {
    let digits = decimal_text(n);
    if digits.len() >= 4 {
        digits
    } else {
        Seq::new((4 - digits.len()) as nat, |i: int| '0') + digits
    }
}

/// A year as ISO 8601 writes it: four digits from 0 to 9999, a sign and at
/// least four digits outside.
pub open spec fn year_text(year: int) -> Seq<char> {
    if 0 <= year <= 9999 {
        two_digits(year / 100) + two_digits(year % 100)
    } else if year < 0 {
        seq!['-'] + four_digits_or_more((-year) as nat)
    } else {
        seq!['+'] + four_digits_or_more(year as nat)
    }
}

/// A day as ISO 8601 writes it: year, month and day with hyphens between.
pub open spec fn iso_date_text(year: int, month: int, day: int) -> Seq<char> {
    year_text(year) + seq!['-'] + two_digits(month) + seq!['-'] + two_digits(day)
}

/// Zeros in front do not change the number that digits write.
proof fn lemma_leading_zeros(zeros: nat, digits: Seq<char>)
    ensures
        digits_value(Seq::new(zeros, |i: int| '0') + digits) == digits_value(digits),
    decreases digits.len(), zeros,
{
    let front = Seq::new(zeros, |i: int| '0');
    let whole = front + digits;
    if digits.len() > 0 {
        lemma_leading_zeros(zeros, digits.drop_last());
        assert(whole.drop_last() =~= front + digits.drop_last());
        assert(whole.last() == digits.last());
    } else if zeros > 0 {
        let fewer = Seq::new((zeros - 1) as nat, |i: int| '0');
        lemma_leading_zeros((zeros - 1) as nat, digits);
        assert(whole.drop_last() =~= fewer + digits);
        assert(whole.last() == '0');
    } else {
        assert(whole =~= digits);
    }
}

/// The number can be read off its padded form.
proof fn lemma_four_digits_value(n: nat)
    ensures
        digits_value(four_digits_or_more(n)) == n,
        four_digits_or_more(n).len() >= 4,
        all_digits(four_digits_or_more(n)),
{
    lemma_decimal_text_value(n);
    let digits = decimal_text(n);
    if digits.len() < 4 {
        lemma_leading_zeros((4 - digits.len()) as nat, digits);
    }
}

/// The year can be read off its text.
proof fn lemma_year_text_injective(a: int, b: int)
    requires
        year_text(a) == year_text(b),
    ensures
        a == b,
{
    let x = year_text(a);
    let y = year_text(b);
    let plain_a = 0 <= a <= 9999;
    let plain_b = 0 <= b <= 9999;
    if !plain_a {
        lemma_four_digits_value(if a < 0 {
            (-a) as nat
        } else {
            a as nat
        });
    }
    if !plain_b {
        lemma_four_digits_value(if b < 0 {
            (-b) as nat
        } else {
            b as nat
        });
    }
    assert(plain_a ==> is_digit(x[0]) && x.len() == 4);
    assert(plain_b ==> is_digit(y[0]) && y.len() == 4);
    assert(!plain_a ==> x[0] == (if a < 0 {
        '-'
    } else {
        '+'
    }));
    assert(!plain_b ==> y[0] == (if b < 0 {
        '-'
    } else {
        '+'
    }));
    if plain_a {
        assert(plain_b);
        assert(x[0] == y[0] && x[1] == y[1] && x[2] == y[2] && x[3] == y[3]);
        assert(a / 100 / 10 == b / 100 / 10);
        assert(a / 100 % 10 == b / 100 % 10);
        assert(a % 100 / 10 == b % 100 / 10);
        assert(a % 100 % 10 == b % 100 % 10);
    } else {
        assert(!plain_b);
        assert((a < 0) == (b < 0));
        let m: nat = if a < 0 {
            (-a) as nat
        } else {
            a as nat
        };
        let n: nat = if b < 0 {
            (-b) as nat
        } else {
            b as nat
        };
        assert(x.subrange(1, x.len() as int) =~= four_digits_or_more(m));
        assert(y.subrange(1, y.len() as int) =~= four_digits_or_more(n));
        assert(m == n);
    }
}

/// Two calendar days that are written alike are the same day.
pub proof fn lemma_iso_date_text_injective(a: (int, int, int), b: (int, int, int))
    requires
        is_calendar_day(a.0, a.1, a.2),
        is_calendar_day(b.0, b.1, b.2),
        iso_date_text(a.0, a.1, a.2) == iso_date_text(b.0, b.1, b.2),
    ensures
        a == b,
{
    let x = iso_date_text(a.0, a.1, a.2);
    let y = iso_date_text(b.0, b.1, b.2);
    let ya = year_text(a.0);
    let yb = year_text(b.0);
    assert(x.len() == ya.len() + 6);
    assert(y.len() == yb.len() + 6);
    assert(ya =~= x.subrange(0, ya.len() as int));
    assert(yb =~= y.subrange(0, yb.len() as int));
    lemma_year_text_injective(a.0, b.0);
    let n: int = ya.len() as int;
    assert(x[n + 1] == digit_char((a.1 / 10) as nat) && x[n + 2] == digit_char((a.1 % 10) as nat));
    assert(y[n + 1] == digit_char((b.1 / 10) as nat) && y[n + 2] == digit_char((b.1 % 10) as nat));
    assert(x[n + 4] == digit_char((a.2 / 10) as nat) && x[n + 5] == digit_char((a.2 % 10) as nat));
    assert(y[n + 4] == digit_char((b.2 / 10) as nat) && y[n + 5] == digit_char((b.2 % 10) as nat));
    assert(a.1 / 10 == b.1 / 10 && a.1 % 10 == b.1 % 10);
    assert(a.2 / 10 == b.2 / 10 && a.2 % 10 == b.2 % 10);
}

/// `NaiveDate::from_ymd_opt`, asked only whether it gives a date. It does
/// for the days of the proleptic Gregorian calendar in chrono's range of
/// years, and for nothing else.
#[verifier::external_body]
fn calendar_day_exists(year: i32, month: u32, day: u32) -> (exists: bool)
    ensures
        exists == is_calendar_day(year as int, month as int, day as int),
{
    NaiveDate::from_ymd_opt(year, month, day).is_some()
}

/// The `Display` form of the `NaiveDate` with this year, month and day,
/// where there is such a date. It is the ISO 8601 date: the year in four
/// digits, or signed outside 0 to 9999, then month and day in two digits
/// each, with hyphens between.
#[verifier::external_body]
fn write_calendar_day(year: i32, month: u32, day: u32) -> (text: Option<String>)
    ensures
        text is Some <==> is_calendar_day(year as int, month as int, day as int),
        text is Some ==> text->0@ == iso_date_text(year as int, month as int, day as int),
{
    match NaiveDate::from_ymd_opt(year, month, day) {
        Some(date) => Some(date.to_string()),
        None => None,
    }
}

/// `NaiveDate::succ_opt`, in year, month and day. It gives the next day of
/// the calendar, and nothing after the last day of chrono's last year.
/// Where the three numbers name no day, nothing is given either.
#[verifier::external_body]
fn calendar_day_after(year: i32, month: u32, day: u32) -> (next: Option<(i32, u32, u32)>)
    ensures
        !is_calendar_day(year as int, month as int, day as int) ==> next is None,
        is_calendar_day(year as int, month as int, day as int) ==> match (
            day_after(year as int, month as int, day as int),
            next,
        ) {
            (Some(expected), Some(found)) => expected == (
                found.0 as int,
                found.1 as int,
                found.2 as int,
            ),
            (None, None) => true,
            _ => false,
        },
{
    match NaiveDate::from_ymd_opt(year, month, day) {
        Some(date) => match date.succ_opt() {
            Some(next) => Some((next.year(), next.month(), next.day())),
            None => None,
        },
        None => None,
    }
}

/// `NaiveDate::pred_opt`, in year, month and day. It gives the previous day
/// of the calendar, and nothing before the first day of chrono's first year.
/// Where the three numbers name no day, nothing is given either.
#[verifier::external_body]
fn calendar_day_before(year: i32, month: u32, day: u32) -> (previous: Option<(i32, u32, u32)>)
    ensures
        !is_calendar_day(year as int, month as int, day as int) ==> previous is None,
        is_calendar_day(year as int, month as int, day as int) ==> match (
            day_before(year as int, month as int, day as int),
            previous,
        ) {
            (Some(expected), Some(found)) => expected == (
                found.0 as int,
                found.1 as int,
                found.2 as int,
            ),
            (None, None) => true,
            _ => false,
        },
{
    match NaiveDate::from_ymd_opt(year, month, day) {
        Some(date) => match date.pred_opt() {
            Some(previous) => Some((previous.year(), previous.month(), previous.day())),
            None => None,
        },
        None => None,
    }
}

/// A day of the calendar.
#[derive(Clone, Copy, Debug, PartialEq, Eq, Structural)]
pub struct Date {
    year: i32,
    month: u32,
    day: u32,
}

impl View for Date {
    type V = (int, int, int);

    /// Year, month and day.
    closed spec fn view(&self) -> (int, int, int) {
        (self.year as int, self.month as int, self.day as int)
    }
}

impl Date {
    #[verifier::type_invariant]
    spec fn inv(self) -> bool {
        is_calendar_day(self.year as int, self.month as int, self.day as int)
    }

    /// Two dates are the same where year, month and day are.
    pub proof fn lemma_same_day(self, other: Date)
        ensures
            (self@ == other@) <==> (self == other),
    {
    }

    /// The day with this year, month and day, if the calendar has it.
    pub fn new(year: i32, month: u32, day: u32) -> (date: Option<Date>)
        ensures
            date is Some <==> is_calendar_day(year as int, month as int, day as int),
            date is Some ==> date->0@ == (year as int, month as int, day as int),
    {
        if calendar_day_exists(year, month, day) {
            Some(Date { year, month, day })
        } else {
            None
        }
    }

    /// The year.
    pub fn year(&self) -> (year: i32)
        ensures
            year == self@.0,
            is_calendar_day(self@.0, self@.1, self@.2),
    {
        proof {
            use_type_invariant(self);
        }
        self.year
    }

    /// The month, 1 to 12.
    pub fn month(&self) -> (month: u32)
        ensures
            month == self@.1,
            1 <= month <= 12,
    {
        proof {
            use_type_invariant(self);
        }
        self.month
    }

    /// The day of the month, from 1.
    pub fn day(&self) -> (day: u32)
        ensures
            day == self@.2,
            1 <= day <= 31,
    {
        proof {
            use_type_invariant(self);
        }
        self.day
    }

    /// Whether this day comes before `other`.
    pub fn is_before(&self, other: &Date) -> (before: bool)
        ensures
            before == precedes(self@, other@),
            is_calendar_day(self@.0, self@.1, self@.2),
            is_calendar_day(other@.0, other@.1, other@.2),
    {
        proof {
            use_type_invariant(self);
            use_type_invariant(other);
        }
        self.year < other.year || (self.year == other.year && (self.month < other.month || (
        self.month == other.month && self.day < other.day)))
    }

    /// The date in ISO 8601, as in `2024-01-01`.
    pub fn iso_text(&self) -> (text: String)
        ensures
            text@ == iso_date_text(self@.0, self@.1, self@.2),
    {
        proof {
            use_type_invariant(self);
        }
        match write_calendar_day(self.year, self.month, self.day) {
            Some(text) => text,
            None => unreached(),
        }
    }

    /// The day after this one; none after the last day of the calendar.
    pub fn next(&self) -> (next: Option<Date>)
        ensures
            match (day_after(self@.0, self@.1, self@.2), next) {
                (Some(expected), Some(found)) => found@ == expected,
                (None, None) => true,
                _ => false,
            },
    {
        proof {
            use_type_invariant(self);
        }
        match calendar_day_after(self.year, self.month, self.day) {
            Some((year, month, day)) => Some(Date { year, month, day }),
            None => None,
        }
    }

    /// The day before this one; none before the first day of the calendar.
    pub fn previous(&self) -> (previous: Option<Date>)
        ensures
            match (day_before(self@.0, self@.1, self@.2), previous) {
                (Some(expected), Some(found)) => found@ == expected,
                (None, None) => true,
                _ => false,
            },
    {
        proof {
            use_type_invariant(self);
        }
        match calendar_day_before(self.year, self.month, self.day) {
            Some((year, month, day)) => Some(Date { year, month, day }),
            None => None,
        }
    }
}

} // verus!
