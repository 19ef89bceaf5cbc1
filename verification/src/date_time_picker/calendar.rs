//! Calendar values of the picker and the calls into `chrono` that read, write
//! and move them.
//!
//! Dates, times and date-times are held as plain fields in the proleptic
//! Gregorian calendar, with the same range and the same leap-second rule as
//! `chrono`'s naive types, which do the parsing, formatting, day arithmetic and
//! clock reading.

use vstd::prelude::*;

use std::fmt::Write;

use chrono::{Datelike, Local, NaiveDate, NaiveDateTime, NaiveTime, TimeDelta, Timelike};

verus! {

/// First year a date can have.
pub const MIN_YEAR: i32 = -262143;

/// Last year a date can have.
pub const MAX_YEAR: i32 = 262142;

/// Largest number of days by which a date can be moved in one step: a larger
/// day count does not fit the clock's millisecond range.
pub const MAX_DAY_SHIFT: i64 = 106751991167;

/// Whether `year` has a 29 February.
pub open spec fn is_leap_year(year: int) -> bool {
    year % 4 == 0 && (year % 100 != 0 || year % 400 == 0)
}

/// Number of days of a month of a year.
pub open spec fn month_length(year: int, month: int) -> int {
    if month == 2 {
        if is_leap_year(year) { 29 } else { 28 }
    } else if month == 4 || month == 6 || month == 9 || month == 11 {
        30
    } else {
        31
    }
}

/// A calendar day.
#[derive(Clone, Copy, Debug, PartialEq, Eq, Hash, Structural)]
pub struct CalendarDate {
    pub year: i32,
    /// 1 to 12.
    pub month: u32,
    /// 1 to the length of the month.
    pub day: u32,
}

/// A time of day; a leap second is written as second 59 with a nanosecond
/// count of one second or more.
#[derive(Clone, Copy, Debug, PartialEq, Eq, Hash, Structural)]
pub struct ClockTime {
    pub hour: u32,
    pub minute: u32,
    pub second: u32,
    pub nanosecond: u32,
}

/// A calendar day with a time of day.
#[derive(Clone, Copy, Debug, PartialEq, Eq, Hash, Structural)]
pub struct CalendarDateTime {
    pub date: CalendarDate,
    pub time: ClockTime,
}

/// Whether the fields name an existing day.
pub open spec fn ymd_valid(year: int, month: int, day: int) -> bool {
    &&& MIN_YEAR <= year <= MAX_YEAR
    &&& 1 <= month <= 12
    &&& 1 <= day <= month_length(year, month)
}

impl CalendarDate {
    /// Whether the date exists.
    pub open spec fn is_valid(self) -> bool {
        ymd_valid(self.year as int, self.month as int, self.day as int)
    }

    /// Chronological order: `self` is not after `other`.
    pub open spec fn not_after(self, other: CalendarDate) -> bool {
        ||| self.year < other.year
        ||| (self.year == other.year && self.month < other.month)
        ||| (self.year == other.year && self.month == other.month && self.day <= other.day)
    }
}

impl ClockTime {
    /// Whether the time exists.
    pub open spec fn is_valid(self) -> bool {
        &&& self.hour < 24
        &&& self.minute < 60
        &&& self.second < 60
        &&& self.nanosecond < 2_000_000_000
        &&& (self.nanosecond >= 1_000_000_000 ==> self.second == 59)
    }

    /// Order within a day: `self` is not after `other`.
    pub open spec fn not_after(self, other: ClockTime) -> bool {
        ||| self.hour < other.hour
        ||| (self.hour == other.hour && self.minute < other.minute)
        ||| (self.hour == other.hour && self.minute == other.minute && self.second < other.second)
        ||| (self.hour == other.hour && self.minute == other.minute && self.second == other.second
            && self.nanosecond <= other.nanosecond)
    }
}

impl CalendarDateTime {
    /// Whether date and time exist.
    pub open spec fn is_valid(self) -> bool {
        self.date.is_valid() && self.time.is_valid()
    }

    /// Chronological order: `self` is not after `other`.
    pub open spec fn not_after(self, other: CalendarDateTime) -> bool {
        ||| (self.date.not_after(other.date) && self.date != other.date)
        ||| (self.date == other.date && self.time.not_after(other.time))
    }
}

/// Values with a chronological order, total and antisymmetric.
pub trait Chronological: Sized + Copy {
    /// `self` is not after `other`.
    spec fn precedes_or_equals(self, other: Self) -> bool;

    /// Any two values are ordered one way or the other.
    proof fn lemma_total(a: Self, b: Self)
        ensures
            a.precedes_or_equals(b) || b.precedes_or_equals(a),
    ;

    /// Values ordered both ways are equal.
    proof fn lemma_antisymmetric(a: Self, b: Self)
        requires
            a.precedes_or_equals(b),
            b.precedes_or_equals(a),
        ensures
            a == b,
    ;

    /// Whether `self` is not after `other`.
    fn not_later_than(&self, other: &Self) -> (r: bool)
        ensures
            r == self.precedes_or_equals(*other),
    ;
}

impl Chronological for CalendarDate {
    open spec fn precedes_or_equals(self, other: Self) -> bool {
        self.not_after(other)
    }

    proof fn lemma_total(a: Self, b: Self) {
    }

    proof fn lemma_antisymmetric(a: Self, b: Self) {
    }

    fn not_later_than(&self, other: &Self) -> (r: bool) {
        self.year < other.year || (self.year == other.year && (self.month < other.month || (
        self.month == other.month && self.day <= other.day)))
    }
}

impl Chronological for ClockTime {
    open spec fn precedes_or_equals(self, other: Self) -> bool {
        self.not_after(other)
    }

    proof fn lemma_total(a: Self, b: Self) {
    }

    proof fn lemma_antisymmetric(a: Self, b: Self) {
    }

    fn not_later_than(&self, other: &Self) -> (r: bool) {
        if self.hour != other.hour {
            self.hour < other.hour
        } else if self.minute != other.minute {
            self.minute < other.minute
        } else if self.second != other.second {
            self.second < other.second
        } else {
            self.nanosecond <= other.nanosecond
        }
    }
}

impl Chronological for CalendarDateTime {
    open spec fn precedes_or_equals(self, other: Self) -> bool {
        self.not_after(other)
    }

    proof fn lemma_total(a: Self, b: Self) {
    }

    proof fn lemma_antisymmetric(a: Self, b: Self) {
    }

    fn not_later_than(&self, other: &Self) -> (r: bool) {
        if self.date == other.date {
            self.time.not_later_than(&other.time)
        } else {
            self.date.not_later_than(&other.date)
        }
    }
}

/// Whether `a` is strictly before `b`.
pub fn date_before(a: CalendarDate, b: CalendarDate) -> (r: bool)
    ensures
        r == (a.not_after(b) && a != b),
{
    a.not_later_than(&b) && a != b
}

/// Whether `a` is strictly before `b`.
pub fn time_before(a: ClockTime, b: ClockTime) -> (r: bool)
    ensures
        r == (a.not_after(b) && a != b),
{
    a.not_later_than(&b) && a != b
}

/// Whether `a` is strictly before `b`.
pub fn datetime_before(a: CalendarDateTime, b: CalendarDateTime) -> (r: bool)
    ensures
        r == (a.not_after(b) && a != b),
{
    a.not_later_than(&b) && a != b
}

// ---------------------------------------------------------------------------
// What chrono computes, by name.

/// The date `days` days after `date` (before it when negative), if it is in
/// range.
pub uninterp spec fn shifted_date(date: CalendarDate, days: int) -> Option<CalendarDate>;

/// Days since the last Monday: 0 for a Monday, 6 for a Sunday.
pub uninterp spec fn weekday_from_monday(date: CalendarDate) -> int;

/// The date that `text` spells in the strftime-style `format`, if it spells one.
pub uninterp spec fn parsed_date(text: Seq<char>, format: Seq<char>) -> Option<CalendarDate>;

/// The time that `text` spells in `format`, if it spells one.
pub uninterp spec fn parsed_time(text: Seq<char>, format: Seq<char>) -> Option<ClockTime>;

/// The date-time that `text` spells in `format`, if it spells one.
pub uninterp spec fn parsed_datetime(text: Seq<char>, format: Seq<char>) -> Option<CalendarDateTime>;

/// `date` written in `format`, unless the format cannot write a date.
pub uninterp spec fn formatted_date(date: CalendarDate, format: Seq<char>) -> Option<Seq<char>>;

/// `time` written in `format`, unless the format cannot write a time.
pub uninterp spec fn formatted_time(time: ClockTime, format: Seq<char>) -> Option<Seq<char>>;

/// `datetime` written in `format`, unless the format cannot write a date-time.
pub uninterp spec fn formatted_datetime(datetime: CalendarDateTime, format: Seq<char>) -> Option<Seq<char>>;

/// A text option by its characters.
pub open spec fn chars_of(text: Option<String>) -> Option<Seq<char>> {
    match text {
        Some(s) => Some(s@),
        None => None,
    }
}

/// `NaiveDate::from_ymd_opt`: the date with these fields, if it exists.
#[verifier::external_body]
pub(crate) fn date_from_ymd(year: i32, month: u32, day: u32) -> (r: Option<CalendarDate>)
    ensures
        r == (if ymd_valid(year as int, month as int, day as int) {
            Some(CalendarDate { year, month, day })
        } else {
            None
        }),
{
    match NaiveDate::from_ymd_opt(year, month, day) {
        Some(d) => Some(CalendarDate { year: d.year(), month: d.month(), day: d.day() }),
        None => None,
    }
}

/// `NaiveTime::from_hms_opt`: the whole-second time with these fields, if it
/// exists.
#[verifier::external_body]
pub(crate) fn time_from_hms(hour: u32, minute: u32, second: u32) -> (r: Option<ClockTime>)
    ensures
        r == (if hour < 24 && minute < 60 && second < 60 {
            Some(ClockTime { hour, minute, second, nanosecond: 0 })
        } else {
            None
        }),
{
    match NaiveTime::from_hms_opt(hour, minute, second) {
        Some(t) => Some(ClockTime { hour: t.hour(), minute: t.minute(), second: t.second(), nanosecond: t.nanosecond() }),
        None => None,
    }
}

/// `NaiveDate::checked_add_signed` with `TimeDelta::days(days)`: the date moved
/// by whole days, or nothing when it leaves the supported range (1 January of
/// `MIN_YEAR` to 31 December of `MAX_YEAR`). Besides the name, the contract
/// states what the calendar gives plainly: a date moved back is not later and
/// one moved forward is not earlier; moving by at most 100 days from a year
/// short of the end of the range toward it, by at most 31 days back from
/// 1 February of the first year on, by at most 41 days forward up to
/// 20 November of the last year, or by one day from any day but the first
/// (last) supported one, stays in range; the day before the first of a month
/// is the last day of the month before.
#[verifier::external_body]
pub(crate) fn shift_date(date: CalendarDate, days: i64) -> (r: Option<CalendarDate>)
    requires
        date.is_valid(),
        -MAX_DAY_SHIFT <= days <= MAX_DAY_SHIFT,
    ensures
        r == shifted_date(date, days as int),
        r matches Some(moved) ==> moved.is_valid(),
        r matches Some(moved) ==> (days <= 0 ==> moved.not_after(date)),
        r matches Some(moved) ==> (days >= 0 ==> date.not_after(moved)),
        -100 <= days <= 0 && date.year > MIN_YEAR ==> r is Some,
        0 <= days <= 100 && date.year < MAX_YEAR ==> r is Some,
        days == -1 && date != (CalendarDate { year: MIN_YEAR, month: 1, day: 1 }) ==> r is Some,
        days == 1 && date != (CalendarDate { year: MAX_YEAR, month: 12, day: 31 }) ==> r is Some,
        -31 <= days <= 0 && (CalendarDate { year: MIN_YEAR, month: 2, day: 1 }).not_after(date) ==> r is Some,
        0 <= days <= 41 && date.not_after(CalendarDate { year: MAX_YEAR, month: 11, day: 20 }) ==> r is Some,
        days == -1 && date.day == 1 ==> (r matches Some(prev) ==> {
            &&& prev.day == month_length(prev.year as int, prev.month as int)
            &&& date.month == 1 ==> prev.year == date.year - 1 && prev.month == 12
            &&& date.month > 1 ==> prev.year == date.year && prev.month == date.month - 1
        }),
{
    let naive = NaiveDate::from_ymd_opt(date.year, date.month, date.day).unwrap();
    match naive.checked_add_signed(TimeDelta::days(days)) {
        Some(d) => Some(CalendarDate { year: d.year(), month: d.month(), day: d.day() }),
        None => None,
    }
}

/// `Datelike::weekday` with `Weekday::num_days_from_monday`.
#[verifier::external_body]
pub(crate) fn days_from_monday(date: CalendarDate) -> (r: u32)
    requires
        date.is_valid(),
    ensures
        r == weekday_from_monday(date),
        r < 7,
{
    NaiveDate::from_ymd_opt(date.year, date.month, date.day).unwrap().weekday().num_days_from_monday()
}

/// `NaiveDate::parse_from_str`.
#[verifier::external_body]
pub(crate) fn parse_naive_date(text: &str, format: &str) -> (r: Option<CalendarDate>)
    ensures
        r == parsed_date(text@, format@),
        r matches Some(d) ==> d.is_valid(),
{
    match NaiveDate::parse_from_str(text, format) {
        Ok(d) => Some(CalendarDate { year: d.year(), month: d.month(), day: d.day() }),
        Err(_) => None,
    }
}

/// `NaiveTime::parse_from_str`.
#[verifier::external_body]
pub(crate) fn parse_naive_time(text: &str, format: &str) -> (r: Option<ClockTime>)
    ensures
        r == parsed_time(text@, format@),
        r matches Some(t) ==> t.is_valid(),
{
    match NaiveTime::parse_from_str(text, format) {
        Ok(t) => Some(ClockTime { hour: t.hour(), minute: t.minute(), second: t.second(), nanosecond: t.nanosecond() }),
        Err(_) => None,
    }
}

/// `NaiveDateTime::parse_from_str`.
#[verifier::external_body]
pub(crate) fn parse_naive_datetime(text: &str, format: &str) -> (r: Option<CalendarDateTime>)
    ensures
        r == parsed_datetime(text@, format@),
        r matches Some(dt) ==> dt.is_valid(),
{
    match NaiveDateTime::parse_from_str(text, format) {
        Ok(v) => Some(CalendarDateTime {
            date: CalendarDate { year: v.year(), month: v.month(), day: v.day() },
            time: ClockTime { hour: v.hour(), minute: v.minute(), second: v.second(), nanosecond: v.nanosecond() },
        }),
        Err(_) => None,
    }
}

/// `NaiveDate::format`, written out; nothing when the format reports an error.
#[verifier::external_body]
pub(crate) fn format_naive_date(date: CalendarDate, format: &str) -> (r: Option<String>)
    requires
        date.is_valid(),
    ensures
        chars_of(r) == formatted_date(date, format@),
{
    let naive = NaiveDate::from_ymd_opt(date.year, date.month, date.day).unwrap();
    let mut out = String::new();
    match write!(out, "{}", naive.format(format)) {
        Ok(()) => Some(out),
        Err(_) => None,
    }
}

/// `NaiveTime::format`, written out; nothing when the format reports an error.
#[verifier::external_body]
pub(crate) fn format_naive_time(time: ClockTime, format: &str) -> (r: Option<String>)
    requires
        time.is_valid(),
    ensures
        chars_of(r) == formatted_time(time, format@),
{
    let naive = NaiveTime::from_hms_nano_opt(time.hour, time.minute, time.second, time.nanosecond).unwrap();
    let mut out = String::new();
    match write!(out, "{}", naive.format(format)) {
        Ok(()) => Some(out),
        Err(_) => None,
    }
}

/// `NaiveDateTime::format`, written out; nothing when the format reports an error.
#[verifier::external_body]
pub(crate) fn format_naive_datetime(datetime: CalendarDateTime, format: &str) -> (r: Option<String>)
    requires
        datetime.is_valid(),
    ensures
        chars_of(r) == formatted_datetime(datetime, format@),
{
    let d = datetime.date;
    let t = datetime.time;
    let naive = NaiveDateTime::new(
        NaiveDate::from_ymd_opt(d.year, d.month, d.day).unwrap(),
        NaiveTime::from_hms_nano_opt(t.hour, t.minute, t.second, t.nanosecond).unwrap(),
    );
    let mut out = String::new();
    match write!(out, "{}", naive.format(format)) {
        Ok(()) => Some(out),
        Err(_) => None,
    }
}

/// `Local::now` read as a naive local date-time. It depends on the clock, so
/// nothing is promised of it but that it is a valid date-time.
#[verifier::external_body]
pub(crate) fn local_now() -> (r: CalendarDateTime)
    ensures
        r.is_valid(),
{
    let v = Local::now().naive_local();
    CalendarDateTime {
        date: CalendarDate { year: v.year(), month: v.month(), day: v.day() },
        time: ClockTime { hour: v.hour(), minute: v.minute(), second: v.second(), nanosecond: v.nanosecond() },
    }
}

/// Today's date on the local clock.
pub fn today() -> (r: CalendarDate)
    ensures
        r.is_valid(),
{
    local_now().date
}

/// The local time of day, to the second.
pub fn now_time() -> (r: ClockTime)
    ensures
        r.is_valid(),
        r.nanosecond == 0,
{
    let now = local_now().time;
    ClockTime { nanosecond: 0, ..now }
}

/// Midnight.
pub fn default_time() -> (r: ClockTime)
    ensures
        r == (ClockTime { hour: 0, minute: 0, second: 0, nanosecond: 0 }),
{
    ClockTime { hour: 0, minute: 0, second: 0, nanosecond: 0 }
}

/// The last whole second of a day.
pub fn end_of_day_time() -> (r: ClockTime)
    ensures
        r == (ClockTime { hour: 23, minute: 59, second: 59, nanosecond: 0 }),
{
    ClockTime { hour: 23, minute: 59, second: 59, nanosecond: 0 }
}

} // verus!
