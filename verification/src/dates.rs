//! Calendar dates, the wall clock, and the keywords that stand for a date.

use chrono::{Datelike, Local, NaiveDate, TimeDelta};
use vstd::prelude::*;

verus! {

/// The first year that a date can lie in.
pub const MIN_YEAR: i32 = -262143;

/// The last year that a date can lie in.
pub const MAX_YEAR: i32 = 262142;

/// Leap years of the proleptic Gregorian calendar. Year 0 exists and is one.
pub open spec fn is_leap_year(year: int) -> bool {
    year % 4 == 0 && (year % 100 != 0 || year % 400 == 0)
}

/// The number of days of a month, for `month` from 1 to 12.
pub open spec fn days_in_month(year: int, month: int) -> int {
    if month == 2 {
        if is_leap_year(year) {
            29
        } else {
            28
        }
    } else if month == 4 || month == 6 || month == 9 || month == 11 {
        30
    } else {
        31
    }
}

/// Whether year, month and day name a day of the calendar that lies within
/// the years supported.
pub open spec fn is_calendar_date(year: int, month: int, day: int) -> bool {
    &&& MIN_YEAR <= year <= MAX_YEAR
    &&& 1 <= month <= 12
    &&& 1 <= day <= days_in_month(year, month)
}

/// A date as the mathematics sees it.
pub struct Ymd {
    pub year: int,
    pub month: int,
    pub day: int,
}

/// The triple of a year, a month and a day.
pub open spec fn ymd(year: int, month: int, day: int) -> Ymd {
    Ymd { year, month, day }
}

impl Ymd {
    /// Whether the triple names a day that exists.
    pub open spec fn is_valid(self) -> bool {
        is_calendar_date(self.year, self.month, self.day)
    }
}

/// A day of the calendar. Every value is a date that exists.
#[derive(Clone, Copy, Debug)]
pub struct CalendarDate {
    year: i32,
    month: u32,
    day: u32,
}

impl View for CalendarDate {
    type V = Ymd;

    closed spec fn view(&self) -> Ymd {
        Ymd { year: self.year as int, month: self.month as int, day: self.day as int }
    }
}

/// The character for a digit from 0 to 9.
pub open spec fn digit(d: int) -> char {
    if d == 0 {
        '0'
    } else if d == 1 {
        '1'
    } else if d == 2 {
        '2'
    } else if d == 3 {
        '3'
    } else if d == 4 {
        '4'
    } else if d == 5 {
        '5'
    } else if d == 6 {
        '6'
    } else if d == 7 {
        '7'
    } else if d == 8 {
        '8'
    } else {
        '9'
    }
}

/// The last `width` decimal digits of `n`, zeros in front included.
pub open spec fn decimal(n: int, width: nat) -> Seq<char>
    decreases width,
{
    if width == 0 {
        Seq::empty()
    } else {
        decimal(n / 10, (width - 1) as nat).push(digit(n % 10))
    }
}

/// A year as ISO 8601 writes it: four digits from 0000 to 9999; outside of
/// these a sign, then the digits, at least four of them.
pub open spec fn year_text(year: int) -> Seq<char> {
    if 0 <= year <= 9999 {
        decimal(year, 4)
    } else {
        let size = if year < 0 {
            -year
        } else {
            year
        };
        let sign = if year < 0 {
            '-'
        } else {
            '+'
        };
        let width: nat = if size < 10000 {
            4
        } else if size < 100000 {
            5
        } else {
            6
        };
        seq![sign] + decimal(size, width)
    }
}

/// A date written as year, month and day with hyphens between, as in
/// `2025-03-01`.
pub open spec fn iso_text(date: Ymd) -> Seq<char> {
    year_text(date.year) + seq!['-'] + decimal(date.month, 2) + seq!['-'] + decimal(date.day, 2)
}

/// The day after a date of the calendar: the next day of the month, else the
/// first of the next month, else the first of January of the next year.
pub open spec fn day_after(date: Ymd) -> Ymd {
    if date.day < days_in_month(date.year, date.month) {
        ymd(date.year, date.month, date.day + 1)
    } else if date.month < 12 {
        ymd(date.year, date.month + 1, 1)
    } else {
        ymd(date.year + 1, 1, 1)
    }
}

/// The date that lies `days` days after `date`, whatever its year.
pub open spec fn days_after(date: Ymd, days: nat) -> Ymd
    decreases days,
{
    if days == 0 {
        date
    } else {
        day_after(days_after(date, (days - 1) as nat))
    }
}

/// The same day of the following month, or the date itself where the
/// following month has no such day (or lies beyond the years supported).
pub open spec fn next_month(date: Ymd) -> Ymd {
    let target = if date.month == 12 {
        ymd(date.year + 1, 1, date.day)
    } else {
        ymd(date.year, date.month + 1, date.day)
    };
    if target.is_valid() {
        target
    } else {
        date
    }
}

/// The date `days` days after `date`; `None` where it lies beyond the last
/// year supported.
pub open spec fn days_later(date: Ymd, days: int) -> Option<Ymd> {
    let later = days_after(date, days as nat);
    if later.year <= MAX_YEAR {
        Some(later)
    } else {
        None
    }
}

/// Days after a date of the calendar are dates of the calendar, in the same
/// year or a later one, and no more years later than days.
pub proof fn lemma_days_after(date: Ymd, days: nat)
    requires
        1 <= date.month <= 12,
        1 <= date.day <= days_in_month(date.year, date.month),
    ensures
        1 <= days_after(date, days).month <= 12,
        1 <= days_after(date, days).day <= days_in_month(
            days_after(date, days).year,
            days_after(date, days).month,
        ),
        date.year <= days_after(date, days).year <= date.year + days,
    decreases days,
{
    if days > 0 {
        lemma_days_after(date, (days - 1) as nat);
    }
}

/// Up to four weeks after a date lie in its year, or in January of the next
/// year.
pub proof fn lemma_few_days_after(date: Ymd, days: nat)
    requires
        1 <= date.month <= 12,
        1 <= date.day <= days_in_month(date.year, date.month),
        days <= 28,
    ensures
        days_after(date, days).year == date.year || (days_after(date, days).year == date.year + 1
            && days_after(date, days).month == 1 && days_after(date, days).day <= days),
    decreases days,
{
    if days > 0 {
        lemma_few_days_after(date, (days - 1) as nat);
        lemma_days_after(date, (days - 1) as nat);
    }
}

/// Whether a task's date is one of the four keywords that are replaced by a
/// date when the task is added.
pub open spec fn is_date_keyword(text: Seq<char>) -> bool {
    text == "Today"@ || text == "Tomorrow"@ || text == "This Week"@ || text == "This Month"@
}

/// What a task's date becomes on the day `today`: the keywords turn into
/// the date they stand for, written out; any other text stays as it is.
/// `None` where the date that `Tomorrow` or `This Week` stands for lies
/// beyond the years supported.
pub open spec fn resolved_date(text: Seq<char>, today: Ymd) -> Option<Seq<char>> {
    if text == "Today"@ {
        Some(iso_text(today))
    } else if text == "Tomorrow"@ {
        match days_later(today, 1) {
            Some(date) => Some(iso_text(date)),
            None => None,
        }
    } else if text == "This Week"@ {
        match days_later(today, 7) {
            Some(date) => Some(iso_text(date)),
            None => None,
        }
    } else if text == "This Month"@ {
        Some(iso_text(next_month(today)))
    } else {
        Some(text)
    }
}

/// `chrono::NaiveDate::from_ymd_opt`, asked only whether it finds the date:
/// it does exactly for the days that exist in the proleptic Gregorian
/// calendar, in the years from `MIN_YEAR` to `MAX_YEAR`.
#[verifier::external_body]
fn date_exists(year: i32, month: u32, day: u32) -> (found: bool)
    ensures
        found == is_calendar_date(year as int, month as int, day as int),
{
    NaiveDate::from_ymd_opt(year, month, day).is_some()
}

/// `chrono::Local::now`, reduced to its date by `date_naive`: today in the
/// machine's time zone. Whatever the clock says, the answer is a date that
/// exists. The call does not return where the clock lies before 1970 or
/// beyond the years supported.
#[verifier::external_body]
fn clock_date() -> (now: (i32, u32, u32))
    ensures
        is_calendar_date(now.0 as int, now.1 as int, now.2 as int),
{
    let now = Local::now().date_naive();
    (now.year(), now.month(), now.day())
}

/// `to_string` on the `chrono::NaiveDate` that
/// `chrono::NaiveDate::from_ymd_opt` makes of year, month and day, which
/// writes the date as its `Display` does: the text `iso_text`, for the dates
/// that exist, and no text for the others.
#[verifier::external_body]
fn ymd_text(year: i32, month: u32, day: u32) -> (rendered: Option<String>)
    ensures
        rendered is Some <==> is_calendar_date(year as int, month as int, day as int),
        rendered matches Some(t) ==> t@ == iso_text(ymd(year as int, month as int, day as int)),
{
    match NaiveDate::from_ymd_opt(year, month, day) {
        Some(date) => Some(date.to_string()),
        None => None,
    }
}

/// `chrono::NaiveDate::checked_add_signed` with `chrono::TimeDelta::days`,
/// on the date that `chrono::NaiveDate::from_ymd_opt` makes of year, month
/// and day. From a date that exists it gives the date that lies `days` days
/// later in the calendar, `days_after`, which lies within the years
/// supported, or `None` where that date lies beyond the last of them; from
/// any other triple it gives `None`.
#[verifier::external_body]
fn ymd_plus_days(year: i32, month: u32, day: u32, days: u32) -> (later: Option<(i32, u32, u32)>)
    ensures
        later matches Some(d) ==> is_calendar_date(year as int, month as int, day as int) && ymd(
            d.0 as int,
            d.1 as int,
            d.2 as int,
        ) == days_after(ymd(year as int, month as int, day as int), days as nat) && d.0
            <= MAX_YEAR,
        later is None && is_calendar_date(year as int, month as int, day as int) ==> days_after(
            ymd(year as int, month as int, day as int),
            days as nat,
        ).year > MAX_YEAR,
{
    let start = NaiveDate::from_ymd_opt(year, month, day)?;
    let end = start.checked_add_signed(TimeDelta::days(i64::from(days)))?;
    Some((end.year(), end.month(), end.day()))
}

impl CalendarDate {
    #[verifier::type_invariant]
    spec fn exists_in_calendar(self) -> bool {
        is_calendar_date(self.year as int, self.month as int, self.day as int)
    }

    /// The date with this year, month and day, if there is one.
    pub fn new(year: i32, month: u32, day: u32) -> (made: Option<CalendarDate>)
        ensures
            is_calendar_date(year as int, month as int, day as int) ==> (made matches Some(d)
                && d@ == ymd(year as int, month as int, day as int)),
            !is_calendar_date(year as int, month as int, day as int) ==> made is None,
    {
        if date_exists(year, month, day) {
            Some(CalendarDate { year, month, day })
        } else {
            None
        }
    }

    /// Today, by the machine's clock and time zone.
    pub fn today() -> (now: CalendarDate)
        ensures
            now@.is_valid(),
    {
        let (year, month, day) = clock_date();
        CalendarDate { year, month, day }
    }

    /// The date written out, as in `2025-03-01`.
    pub fn to_text(&self) -> (text: String)
        ensures
            text@ == iso_text(self@),
    {
        proof {
            use_type_invariant(self);
        }
        match ymd_text(self.year, self.month, self.day) {
            Some(text) => text,
            None => vstd::pervasive::unreached(),
        }
    }

    /// The date `days` days later; `None` where that date lies beyond the
    /// years supported.
    pub fn plus_days(&self, days: u32) -> (later: Option<CalendarDate>)
        ensures
            later matches Some(d) ==> days_later(self@, days as int) == Some(d@) && d@.is_valid(),
            later is None ==> days_later(self@, days as int) is None,
    {
        proof {
            use_type_invariant(self);
            lemma_days_after(self@, days as nat);
        }
        match ymd_plus_days(self.year, self.month, self.day, days) {
            Some((year, month, day)) => Some(CalendarDate { year, month, day }),
            None => None,
        }
    }

    /// The same day of the following month, or this date where the following
    /// month has no such day.
    pub fn same_day_next_month(&self) -> (later: CalendarDate)
        ensures
            later@ == next_month(self@),
    {
        proof {
            use_type_invariant(self);
        }
        let (year, month) = if self.month == 12 {
            (self.year + 1, 1)
        } else {
            (self.year, self.month + 1)
        };
        if date_exists(year, month, self.day) {
            CalendarDate { year, month, day: self.day }
        } else {
            *self
        }
    }

    pub fn year(&self) -> (year: i32)
        ensures
            year == self@.year,
            self@.is_valid(),
    {
        proof {
            use_type_invariant(self);
        }
        self.year
    }

    pub fn month(&self) -> (month: u32)
        ensures
            month == self@.month,
            self@.is_valid(),
    {
        proof {
            use_type_invariant(self);
        }
        self.month
    }

    pub fn day(&self) -> (day: u32)
        ensures
            day == self@.day,
            self@.is_valid(),
    {
        proof {
            use_type_invariant(self);
        }
        self.day
    }
}

/// Replaces a date keyword by the date it stands for on the day `today`, and
/// hands any other text back unchanged.
pub fn resolve_date(text: String, today: &CalendarDate) -> (resolved: Option<String>)
    ensures
        resolved matches Some(date) ==> resolved_date(text@, today@) == Some(date@),
        resolved is None ==> resolved_date(text@, today@) is None,
        !is_date_keyword(text@) ==> resolved == Some(text),
        today@.year < MAX_YEAR ==> resolved is Some,
        today@.is_valid(),
{
    proof {
        use_type_invariant(today);
        lemma_few_days_after(today@, 1);
        lemma_few_days_after(today@, 7);
    }
    let keyword = text.as_str();
    if *keyword == *"Today" {
        Some(today.to_text())
    } else if *keyword == *"Tomorrow" {
        match today.plus_days(1) {
            Some(date) => Some(date.to_text()),
            None => None,
        }
    } else if *keyword == *"This Week" {
        match today.plus_days(7) {
            Some(date) => Some(date.to_text()),
            None => None,
        }
    } else if *keyword == *"This Month" {
        Some(today.same_day_next_month().to_text())
    } else {
        Some(text)
    }
}

} // verus!
