//! Calendar dates of the proleptic Gregorian calendar, restricted to the years
//! 1 to 9999, and the calendar arithmetic the journal needs.

use chrono::{Datelike, Days, Months, NaiveDate};
use vstd::prelude::*;

verus! {

/// First year a [`Date`] can hold.
pub const MIN_YEAR: u32 = 1;

/// Last year a [`Date`] can hold.
pub const MAX_YEAR: u32 = 9999;

/// Whether `y` is a leap year of the Gregorian calendar.
pub open spec fn is_leap_year(y: int) -> bool {
    y % 4 == 0 && (y % 100 != 0 || y % 400 == 0)
}

/// Number of days of month `m` (1 to 12) of year `y`.
pub open spec fn days_in_month(y: int, m: int) -> int {
    if m == 2 {
        if is_leap_year(y) { 29 } else { 28 }
    } else if m == 4 || m == 6 || m == 9 || m == 11 {
        30
    } else {
        31
    }
}

/// Whether year `y`, month `m`, day `d` name a day that exists.
pub open spec fn is_calendar_date(y: int, m: int, d: int) -> bool {
    1 <= m <= 12 && 1 <= d <= days_in_month(y, m)
}

/// Days that lie between 1 January of year 1 and 1 January of year `y`.
pub open spec fn days_before_year(y: int) -> int {
    365 * (y - 1) + (y - 1) / 4 - (y - 1) / 100 + (y - 1) / 400
}

/// Days of year `y` that lie before the first day of month `m`.
pub open spec fn days_before_month(y: int, m: int) -> int {
    let leap: int = if is_leap_year(y) { 1 } else { 0 };
    if m <= 1 { 0 }
    else if m == 2 { 31 }
    else if m == 3 { 59 + leap }
    else if m == 4 { 90 + leap }
    else if m == 5 { 120 + leap }
    else if m == 6 { 151 + leap }
    else if m == 7 { 181 + leap }
    else if m == 8 { 212 + leap }
    else if m == 9 { 243 + leap }
    else if m == 10 { 273 + leap }
    else if m == 11 { 304 + leap }
    else { 334 + leap }
}

/// The count of a day in the proleptic Gregorian calendar, 1 January of year
/// 1 being day 1: the days of the years before, the days of the months before
/// in its year, and its day of the month.
pub open spec fn day_number(y: int, m: int, d: int) -> int {
    days_before_year(y) + days_before_month(y, m) + d
}

/// Year, month and day reached from `(y, m, d)` by moving `delta` calendar
/// months; a day that the target month lacks becomes that month's last day.
pub open spec fn month_shift(y: int, m: int, d: int, delta: int) -> (int, int, int) {
    let total = y * 12 + (m - 1) + delta;
    let ny = total / 12;
    let nm = total % 12 + 1;
    let last = days_in_month(ny, nm);
    (ny, nm, if d > last { last } else { d })
}

/// The decimal digit character of `n`, for `n` below ten.
pub open spec fn digit_char(n: int) -> char {
    if n == 0 { '0' }
    else if n == 1 { '1' }
    else if n == 2 { '2' }
    else if n == 3 { '3' }
    else if n == 4 { '4' }
    else if n == 5 { '5' }
    else if n == 6 { '6' }
    else if n == 7 { '7' }
    else if n == 8 { '8' }
    else { '9' }
}

/// A number below one hundred as two digits.
pub open spec fn two_digits(n: int) -> Seq<char> {
    seq![digit_char(n / 10), digit_char(n % 10)]
}

/// A number below ten thousand as four digits.
pub open spec fn four_digits(n: int) -> Seq<char> {
    seq![
        digit_char(n / 1000),
        digit_char((n / 100) % 10),
        digit_char((n / 10) % 10),
        digit_char(n % 10),
    ]
}

/// The text `DD-MM-YYYY` of a day.
pub open spec fn dmy_text(y: int, m: int, d: int) -> Seq<char> {
    two_digits(d) + seq!['-'] + two_digits(m) + seq!['-'] + four_digits(y)
}

/// The three-letter English name of month `m`.
pub open spec fn month_abbrev(m: int) -> Seq<char> {
    if m == 1 { seq!['J', 'a', 'n'] }
    else if m == 2 { seq!['F', 'e', 'b'] }
    else if m == 3 { seq!['M', 'a', 'r'] }
    else if m == 4 { seq!['A', 'p', 'r'] }
    else if m == 5 { seq!['M', 'a', 'y'] }
    else if m == 6 { seq!['J', 'u', 'n'] }
    else if m == 7 { seq!['J', 'u', 'l'] }
    else if m == 8 { seq!['A', 'u', 'g'] }
    else if m == 9 { seq!['S', 'e', 'p'] }
    else if m == 10 { seq!['O', 'c', 't'] }
    else if m == 11 { seq!['N', 'o', 'v'] }
    else { seq!['D', 'e', 'c'] }
}

/// How a date is written out.
#[derive(Clone, Copy, Debug, PartialEq, Eq, Structural)]
pub enum DateStyle {
    /// `DD-MM-YYYY`.
    Full,
    /// The month's three-letter name.
    MonthName,
    /// The day of the month as two digits.
    DayNumber,
    /// The year as four digits.
    Year,
    /// The month's three-letter name, a blank, and the year.
    MonthYear,
}

/// The text of a day in a given style.
pub open spec fn styled_text(style: DateStyle, y: int, m: int, d: int) -> Seq<char> {
    match style {
        DateStyle::Full => dmy_text(y, m, d),
        DateStyle::MonthName => month_abbrev(m),
        DateStyle::DayNumber => two_digits(d),
        DateStyle::Year => four_digits(y),
        DateStyle::MonthYear => month_abbrev(m) + seq![' '] + four_digits(y),
    }
}

/// What `chrono` reads out of a text under the pattern `%d-%m-%Y`: year, month
/// and day, or nothing where it rejects the text.
pub uninterp spec fn parsed_dmy(text: Seq<char>) -> Option<(int, int, int)>;

/// A calendar date between the years 1 and 9999.
#[derive(Clone, Copy, Debug, PartialEq, Eq, Structural)]
pub struct Date {
    pub year: u32,
    pub month: u32,
    pub day: u32,
}

impl Date {
    /// The date names a day that exists, in a year this type holds.
    pub open spec fn wf(&self) -> bool {
        &&& MIN_YEAR <= self.year <= MAX_YEAR
        &&& is_calendar_date(self.year as int, self.month as int, self.day as int)
    }

    /// The day's count in the calendar.
    pub open spec fn ordinal(&self) -> int {
        day_number(self.year as int, self.month as int, self.day as int)
    }

    /// Calendar order: `self` is an earlier day than `other`.
    pub open spec fn before(&self, other: &Date) -> bool {
        self.year < other.year || (self.year == other.year && (self.month < other.month || (
        self.month == other.month && self.day < other.day)))
    }

    /// The text `DD-MM-YYYY` of the date.
    pub open spec fn text(&self) -> Seq<char> {
        dmy_text(self.year as int, self.month as int, self.day as int)
    }

    /// The date of a triple, where the triple names one.
    pub open spec fn of_triple(t: (int, int, int)) -> Option<Date> {
        if MIN_YEAR <= t.0 <= MAX_YEAR && is_calendar_date(t.0, t.1, t.2) {
            Some(Date { year: t.0 as u32, month: t.1 as u32, day: t.2 as u32 })
        } else {
            None
        }
    }

    /// Builds a date, or nothing where the day does not exist or the year is
    /// outside 1 to 9999.
    pub fn new(year: u32, month: u32, day: u32) -> (r: Option<Date>)
        ensures
            r == Date::of_triple((year as int, month as int, day as int)),
    {
        if year < MIN_YEAR || year > MAX_YEAR || month < 1 || month > 12 || day < 1 {
            return None;
        }
        if day > month_length(year, month) {
            return None;
        }
        Some(Date { year, month, day })
    }

    /// Builds a date from a year with a sign, as [`Date::new`] does.
    pub fn from_signed(year: i32, month: u32, day: u32) -> (r: Option<Date>)
        ensures
            r == Date::of_triple((year as int, month as int, day as int)),
    {
        if year < 1 {
            None
        } else {
            Date::new(year as u32, month, day)
        }
    }

    /// Whether `self` is an earlier day than `other`.
    pub fn is_before(&self, other: &Date) -> (r: bool)
        ensures
            r == self.before(other),
    {
        self.year < other.year || (self.year == other.year && (self.month < other.month || (
        self.month == other.month && self.day < other.day)))
    }

    /// The first day of the date's month.
    pub fn first_of_month(&self) -> (r: Date)
        requires
            self.wf(),
        ensures
            r == (Date { year: self.year, month: self.month, day: 1 }),
            r.wf(),
    {
        Date { year: self.year, month: self.month, day: 1 }
    }

    /// The last day of the date's month: the day before the first day of the
    /// month that follows.
    pub fn last_of_month(&self) -> (r: Date)
        requires
            self.wf(),
        ensures
            r.year == self.year,
            r.month == self.month,
            r.day == days_in_month(self.year as int, self.month as int),
            r.wf(),
    {
        let first = self.first_of_month();
        match first.plus_months(1) {
            Some(next) => match next.previous_day() {
                Some(last) => last,
                None => first,
            },
            None => Date { year: self.year, month: 12, day: 31 },
        }
    }

    /// The date moved forward by `months` calendar months, the day clamped to
    /// the target month's length; nothing where that leaves the years 1 to 9999.
    pub fn plus_months(&self, months: u32) -> (r: Option<Date>)
        requires
            self.wf(),
        ensures
            r == Date::of_triple(
                month_shift(self.year as int, self.month as int, self.day as int, months as int),
            ),
    {
        let shifted = add_months(*self, months);
        match shifted {
            Some((y, m, d)) => {
                Date::from_signed(y, m, d)
            },
            None => None,
        }
    }

    /// The date moved back by `months` calendar months, the day clamped to the
    /// target month's length; nothing where that leaves the years 1 to 9999.
    pub fn minus_months(&self, months: u32) -> (r: Option<Date>)
        requires
            self.wf(),
        ensures
            r == Date::of_triple(
                month_shift(self.year as int, self.month as int, self.day as int, -(months as int)),
            ),
    {
        let shifted = sub_months(*self, months);
        match shifted {
            Some((y, m, d)) => {
                Date::from_signed(y, m, d)
            },
            None => None,
        }
    }

    /// The day after, by the calendar: the next day of the month, else the
    /// first of the next month, else 1 January of the next year.
    pub open spec fn following(&self) -> Date {
        if self.day < days_in_month(self.year as int, self.month as int) {
            Date { year: self.year, month: self.month, day: (self.day + 1) as u32 }
        } else if self.month < 12 {
            Date { year: self.year, month: (self.month + 1) as u32, day: 1 }
        } else {
            Date { year: (self.year + 1) as u32, month: 1, day: 1 }
        }
    }

    /// The day before, by the calendar: the day before in the month, else the
    /// last of the month before, else 31 December of the year before.
    pub open spec fn preceding(&self) -> Date {
        if self.day > 1 {
            Date { year: self.year, month: self.month, day: (self.day - 1) as u32 }
        } else if self.month > 1 {
            Date {
                year: self.year,
                month: (self.month - 1) as u32,
                day: days_in_month(self.year as int, self.month - 1) as u32,
            }
        } else {
            Date { year: (self.year - 1) as u32, month: 12, day: 31 }
        }
    }

    /// The last day this type holds.
    pub open spec fn latest() -> Date {
        Date { year: MAX_YEAR, month: 12, day: 31 }
    }

    /// The first day this type holds.
    pub open spec fn earliest() -> Date {
        Date { year: MIN_YEAR, month: 1, day: 1 }
    }

    /// The next day; nothing after the last day of year 9999.
    pub fn next_day(&self) -> (r: Option<Date>)
        requires
            self.wf(),
        ensures
            r == (if *self == Date::latest() { None } else { Some(self.following()) }),
            r matches Some(n) ==> n.wf() && n.ordinal() == self.ordinal() + 1,
    {
        let (y, m, d) = add_one_day(*self);
        proof {
            lemma_day_number_year_bounds(self.year as int, self.month as int, self.day as int);
            lemma_year_length(self.year as int);
            if *self != Date::latest() {
                let next = self.following();
                assert(next.wf());
                assert(next.ordinal() == self.ordinal() + 1);
                lemma_triple_order(
                    next.year as int,
                    next.month as int,
                    next.day as int,
                    y as int,
                    m as int,
                    d as int,
                );
            } else {
                lemma_triple_order(
                    self.year as int,
                    self.month as int,
                    self.day as int,
                    y as int,
                    m as int,
                    d as int,
                );
            }
        }
        Date::from_signed(y, m, d)
    }

    /// The day before; nothing before the first day of year 1.
    pub fn previous_day(&self) -> (r: Option<Date>)
        requires
            self.wf(),
        ensures
            r == (if *self == Date::earliest() { None } else { Some(self.preceding()) }),
            r matches Some(p) ==> p.wf() && p.ordinal() == self.ordinal() - 1,
    {
        let (y, m, d) = sub_one_day(*self);
        proof {
            lemma_day_number_year_bounds(self.year as int, self.month as int, self.day as int);
            lemma_year_length(self.year as int - 1);
            if *self != Date::earliest() {
                let last = self.preceding();
                assert(last.wf());
                assert(last.ordinal() == self.ordinal() - 1);
                lemma_triple_order(
                    last.year as int,
                    last.month as int,
                    last.day as int,
                    y as int,
                    m as int,
                    d as int,
                );
            } else {
                lemma_triple_order(
                    y as int,
                    m as int,
                    d as int,
                    self.year as int,
                    self.month as int,
                    self.day as int,
                );
            }
        }
        Date::from_signed(y, m, d)
    }

    /// Days from `self` to `later`, negative where `later` is the earlier day.
    pub fn days_until(&self, later: &Date) -> (r: i64)
        requires
            self.wf(),
            later.wf(),
        ensures
            r == later.ordinal() - self.ordinal(),
    {
        days_between(*self, *later)
    }

    /// The date written in a given style.
    pub fn format(&self, style: DateStyle) -> (r: String)
        requires
            self.wf(),
        ensures
            r@ == styled_text(style, self.year as int, self.month as int, self.day as int),
            style == DateStyle::Full ==> Date::parsed(r@) == Some(*self),
    {
        proof {
            reveal_strlit("%d-%m-%Y");
            reveal_strlit("%b");
            reveal_strlit("%d");
            reveal_strlit("%Y");
            reveal_strlit("%b %Y");
            assert("%d-%m-%Y"@.len() == 8);
            assert("%b"@.len() == 2);
            assert("%d"@.len() == 2);
            assert("%Y"@.len() == 2);
            assert("%b %Y"@.len() == 5);
            assert("%b"@[1] == 'b');
            assert("%d"@[1] == 'd');
            assert("%Y"@[1] == 'Y');
        }
        match style {
            DateStyle::Full => format_date(*self, "%d-%m-%Y"),
            DateStyle::MonthName => format_date(*self, "%b"),
            DateStyle::DayNumber => format_date(*self, "%d"),
            DateStyle::Year => format_date(*self, "%Y"),
            DateStyle::MonthYear => format_date(*self, "%b %Y"),
        }
    }

    /// Reads a date from text under the pattern `DD-MM-YYYY`; nothing where
    /// the text is rejected or the year is outside 1 to 9999. The text that
    /// [`Date::text`] gives for a date is read as that date.
    pub fn parse(text: &str) -> (r: Option<Date>)
        ensures
            r == Date::parsed(text@),
            r matches Some(date) ==> date.wf(),
            forall|date: Date| date.wf() && text@ == #[trigger] date.text() ==> r == Some(date),
    {
        match parse_dmy(text) {
            Some((y, m, d)) => {
                Date::from_signed(y, m, d)
            },
            None => None,
        }
    }

    /// The date that a text stands for, if any.
    pub open spec fn parsed(text: Seq<char>) -> Option<Date> {
        match parsed_dmy(text) {
            Some(t) => Date::of_triple(t),
            None => None,
        }
    }
}

/// Number of days of a month.
pub fn month_length(year: u32, month: u32) -> (r: u32)
    ensures
        r == days_in_month(year as int, month as int),
{
    if month == 2 {
        if year % 4 == 0 && (year % 100 != 0 || year % 400 == 0) {
            29
        } else {
            28
        }
    } else if month == 4 || month == 6 || month == 9 || month == 11 {
        30
    } else {
        31
    }
}

/// The text under which a pattern is spelled for `chrono`.
pub open spec fn style_of_pattern(pattern: Seq<char>) -> Option<DateStyle> {
    if pattern == "%d-%m-%Y"@ {
        Some(DateStyle::Full)
    } else if pattern == "%b"@ {
        Some(DateStyle::MonthName)
    } else if pattern == "%d"@ {
        Some(DateStyle::DayNumber)
    } else if pattern == "%Y"@ {
        Some(DateStyle::Year)
    } else if pattern == "%b %Y"@ {
        Some(DateStyle::MonthYear)
    } else {
        None
    }
}

/// `chrono::NaiveDate::parse_from_str` under the pattern `%d-%m-%Y`. Trusted:
/// the outcome is a function of the text alone; what it accepts is a day that
/// exists; and the ten characters `DD-MM-YYYY` of a day of the years 1 to
/// 9999, each number padded with zeros, are read as that day.
#[verifier::external_body]
fn parse_dmy(text: &str) -> (r: Option<(i32, u32, u32)>)
    ensures
        r matches Some(t) ==> parsed_dmy(text@) == Some((t.0 as int, t.1 as int, t.2 as int))
            && is_calendar_date(t.0 as int, t.1 as int, t.2 as int),
        r is None ==> parsed_dmy(text@) is None,
        forall|y: int, m: int, d: int|
            1 <= y <= 9999 && is_calendar_date(y, m, d) && text@ == #[trigger] dmy_text(y, m, d)
                ==> r == Some((y as i32, m as u32, d as u32)),
{
    match NaiveDate::parse_from_str(text, "%d-%m-%Y") {
        Ok(date) => Some((date.year(), date.month(), date.day())),
        Err(_) => None,
    }
}

/// `chrono::NaiveDate::format` followed by `to_string`, under one of the
/// patterns `%d-%m-%Y`, `%b`, `%d`, `%Y` and `%b %Y`. Trusted: the day and the month come out
/// as two digits, the year as four, the month's name as its three English
/// letters; and what `%d-%m-%Y` writes, `chrono` reads back under that pattern
/// as the same day.
#[verifier::external_body]
fn format_date(date: Date, pattern: &str) -> (r: String)
    requires
        date.wf(),
        style_of_pattern(pattern@) is Some,
    ensures
        r@ == styled_text(
            style_of_pattern(pattern@).unwrap(),
            date.year as int,
            date.month as int,
            date.day as int,
        ),
        style_of_pattern(pattern@) == Some(DateStyle::Full) ==> parsed_dmy(r@) == Some(
            (date.year as int, date.month as int, date.day as int),
        ),
{
    NaiveDate::from_ymd_opt(date.year as i32, date.month, date.day).unwrap().format(
        pattern,
    ).to_string()
}

/// `chrono::NaiveDate::checked_add_months`. Trusted: the month count moves
/// forward by `months`, the day is clamped to the length of the month reached,
/// and there is a result exactly where the year reached is one `chrono` holds.
#[verifier::external_body]
fn add_months(date: Date, months: u32) -> (r: Option<(i32, u32, u32)>)
    requires
        date.wf(),
    ensures
        r is Some <==> -262143 <= month_shift(
            date.year as int,
            date.month as int,
            date.day as int,
            months as int,
        ).0 <= 262142,
        r matches Some(t) ==> (t.0 as int, t.1 as int, t.2 as int) == month_shift(
            date.year as int,
            date.month as int,
            date.day as int,
            months as int,
        ),
{
    let start = NaiveDate::from_ymd_opt(date.year as i32, date.month, date.day).unwrap();
    match start.checked_add_months(Months::new(months)) {
        Some(moved) => Some((moved.year(), moved.month(), moved.day())),
        None => None,
    }
}

/// `chrono::NaiveDate::checked_sub_months`. Trusted: the month count moves
/// back by `months`, the day is clamped to the length of the month reached,
/// and there is a result exactly where the year reached is one `chrono` holds.
#[verifier::external_body]
fn sub_months(date: Date, months: u32) -> (r: Option<(i32, u32, u32)>)
    requires
        date.wf(),
    ensures
        r is Some <==> -262143 <= month_shift(
            date.year as int,
            date.month as int,
            date.day as int,
            -(months as int),
        ).0 <= 262142,
        r matches Some(t) ==> (t.0 as int, t.1 as int, t.2 as int) == month_shift(
            date.year as int,
            date.month as int,
            date.day as int,
            -(months as int),
        ),
{
    let start = NaiveDate::from_ymd_opt(date.year as i32, date.month, date.day).unwrap();
    match start.checked_sub_months(Months::new(months)) {
        Some(moved) => Some((moved.year(), moved.month(), moved.day())),
        None => None,
    }
}

/// `chrono::NaiveDate::checked_add_days` by one day. Trusted: from a day of
/// the years 1 to 9999 there is a result, and it is the day that follows.
#[verifier::external_body]
fn add_one_day(date: Date) -> (r: (i32, u32, u32))
    requires
        date.wf(),
    ensures
        is_calendar_date(r.0 as int, r.1 as int, r.2 as int),
        day_number(r.0 as int, r.1 as int, r.2 as int) == date.ordinal() + 1,
{
    let next = NaiveDate::from_ymd_opt(date.year as i32, date.month, date.day).unwrap()
        .checked_add_days(Days::new(1)).unwrap();
    (next.year(), next.month(), next.day())
}

/// `chrono::NaiveDate::checked_sub_days` by one day. Trusted: from a day of
/// the years 1 to 9999 there is a result, and it is the day before.
#[verifier::external_body]
fn sub_one_day(date: Date) -> (r: (i32, u32, u32))
    requires
        date.wf(),
    ensures
        is_calendar_date(r.0 as int, r.1 as int, r.2 as int),
        day_number(r.0 as int, r.1 as int, r.2 as int) == date.ordinal() - 1,
{
    let previous = NaiveDate::from_ymd_opt(date.year as i32, date.month, date.day).unwrap()
        .checked_sub_days(Days::new(1)).unwrap();
    (previous.year(), previous.month(), previous.day())
}

/// `chrono::NaiveDate::signed_duration_since` read through
/// `chrono::TimeDelta::num_days`. Trusted: the result is the number of days
/// from `from` to `to`, the difference of their counts in the calendar.
#[verifier::external_body]
fn days_between(from: Date, to: Date) -> (r: i64)
    requires
        from.wf(),
        to.wf(),
    ensures
        r == to.ordinal() - from.ordinal(),
{
    let start = NaiveDate::from_ymd_opt(from.year as i32, from.month, from.day).unwrap();
    let end = NaiveDate::from_ymd_opt(to.year as i32, to.month, to.day).unwrap();
    end.signed_duration_since(start).num_days()
}

/// The first and the last day number of a year bracket every day of it.
pub proof fn lemma_day_number_year_bounds(y: int, m: int, d: int)
    requires
        is_calendar_date(y, m, d),
    ensures
        days_before_year(y) < day_number(y, m, d) <= days_before_year(y + 1),
        day_number(y, m, d) == days_before_year(y + 1) <==> (m == 12 && d == 31),
        day_number(y, m, d) == days_before_year(y) + 1 <==> (m == 1 && d == 1),
{
    lemma_year_length(y);
    let leap: int = if is_leap_year(y) { 1 } else { 0 };
    assert(days_before_month(y, m) + days_in_month(y, m) <= 365 + leap);
    assert(days_before_month(y, m) + days_in_month(y, m) == 365 + leap <==> m == 12);
    assert(days_before_month(y, m) == 0 <==> m == 1);
}

/// A year has 365 days, a leap year one more.
pub proof fn lemma_year_length(y: int)
    ensures
        days_before_year(y + 1) == days_before_year(y) + 365 + (if is_leap_year(y) {
            1int
        } else {
            0int
        }),
{
}

/// The count of days since year 1 never decreases from year to year.
pub proof fn lemma_days_before_year_monotone(y1: int, y2: int)
    requires
        y1 <= y2,
    ensures
        days_before_year(y1) <= days_before_year(y2),
{
}

/// Calendar order and the order of day counts agree.
pub proof fn lemma_triple_order(y1: int, m1: int, d1: int, y2: int, m2: int, d2: int)
    requires
        is_calendar_date(y1, m1, d1),
        is_calendar_date(y2, m2, d2),
    ensures
        (y1 < y2 || (y1 == y2 && (m1 < m2 || (m1 == m2 && d1 < d2)))) <==> day_number(y1, m1, d1)
            < day_number(y2, m2, d2),
        (y1 == y2 && m1 == m2 && d1 == d2) <==> day_number(y1, m1, d1) == day_number(y2, m2, d2),
{
    lemma_day_number_year_bounds(y1, m1, d1);
    lemma_day_number_year_bounds(y2, m2, d2);
    if y1 < y2 {
        lemma_days_before_year_monotone(y1 + 1, y2);
    } else if y2 < y1 {
        lemma_days_before_year_monotone(y2 + 1, y1);
    }
}

/// Calendar order of dates and the order of their day counts agree.
pub proof fn lemma_order_is_day_order(a: Date, b: Date)
    requires
        a.wf(),
        b.wf(),
    ensures
        a.before(&b) <==> a.ordinal() < b.ordinal(),
        a == b <==> a.ordinal() == b.ordinal(),
{
    lemma_triple_order(
        a.year as int,
        a.month as int,
        a.day as int,
        b.year as int,
        b.month as int,
        b.day as int,
    );
}

} // verus!
