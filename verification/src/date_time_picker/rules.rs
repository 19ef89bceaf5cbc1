//! Parsing, formatting, constraint checks and calendar arithmetic of the picker.
//!
//! Everything here is a function of its arguments; the picker's state machine in
//! `state` builds on it.

use vstd::prelude::*;

use crate::text::{
    lemma_first_occurrence_found, chars_of, concat3, find_chars, first_occurrence_from, occurs_in, contains_chars,
    slice_chars, string_from_chars, trim_chars, trimmed,
};

use super::calendar::{
    chars_of as text_chars, date_before, date_from_ymd, datetime_before, days_from_monday,
    format_naive_date, format_naive_datetime, format_naive_time, formatted_date,
    formatted_datetime, formatted_time, parse_naive_date, parse_naive_datetime, parse_naive_time,
    parsed_date, parsed_datetime, parsed_time, shift_date, shifted_date, time_before,
    today, weekday_from_monday, ymd_valid, month_length, CalendarDate, CalendarDateTime,
    Chronological, ClockTime, MAX_YEAR, MIN_YEAR,
};
use super::props::{
    mode_of, value_valid, DateTimePickerMode, DateTimePickerValue, DateTimeRange,
};

verus! {

/// Why typed text cannot be committed.
#[derive(Clone, Copy, Debug, PartialEq, Eq, Structural)]
pub enum DateTimePickerParseError {
    /// The text does not spell a value in the current format.
    InvalidFormat,
    /// The text spells a value that the bounds or the disabled rules refuse.
    DisabledValue,
}

/// Display and entry formats. The same format is used for both ends of a range.
#[derive(Clone, Debug, PartialEq, Eq)]
pub struct DateTimePickerFormats {
    /// strftime-style format of dates.
    pub date_format: String,
    /// strftime-style format of times.
    pub time_format: String,
    /// strftime-style format of date-times.
    pub datetime_format: String,
    /// Text between the two ends of a range.
    pub range_separator: String,
}

/// What a value may be committed as: bounds and disabled rules. Bounds of
/// another family than the value's are ignored; the rules answer `true` for a
/// disabled date or time.
pub struct DateTimePickerConstraints<F, G> {
    /// Smallest committable value.
    pub min: Option<DateTimePickerValue>,
    /// Largest committable value.
    pub max: Option<DateTimePickerValue>,
    /// Rule that disables dates.
    pub disabled_date: Option<F>,
    /// Rule that disables times.
    pub disabled_time: Option<G>,
}

// ---------------------------------------------------------------------------
// Bounds and rules.

/// The lower date bound a bound value gives.
pub open spec fn lower_date_bound(value: Option<DateTimePickerValue>) -> Option<CalendarDate> {
    match value {
        Some(DateTimePickerValue::Date(d)) => Some(d),
        Some(DateTimePickerValue::DateRange(r)) => Some(r.start),
        Some(DateTimePickerValue::DateTime(dt)) => Some(dt.date),
        Some(DateTimePickerValue::DateTimeRange(r)) => Some(r.start.date),
        _ => None,
    }
}

/// The upper date bound a bound value gives.
pub open spec fn upper_date_bound(value: Option<DateTimePickerValue>) -> Option<CalendarDate> {
    match value {
        Some(DateTimePickerValue::Date(d)) => Some(d),
        Some(DateTimePickerValue::DateRange(r)) => Some(r.end),
        Some(DateTimePickerValue::DateTime(dt)) => Some(dt.date),
        Some(DateTimePickerValue::DateTimeRange(r)) => Some(r.end.date),
        _ => None,
    }
}

/// The lower time bound a bound value gives.
pub open spec fn lower_time_bound(value: Option<DateTimePickerValue>) -> Option<ClockTime> {
    match value {
        Some(DateTimePickerValue::Time(t)) => Some(t),
        Some(DateTimePickerValue::TimeRange(r)) => Some(r.start),
        _ => None,
    }
}

/// The upper time bound a bound value gives.
pub open spec fn upper_time_bound(value: Option<DateTimePickerValue>) -> Option<ClockTime> {
    match value {
        Some(DateTimePickerValue::Time(t)) => Some(t),
        Some(DateTimePickerValue::TimeRange(r)) => Some(r.end),
        _ => None,
    }
}

/// The lower date-time bound a bound value gives.
pub open spec fn lower_datetime_bound(value: Option<DateTimePickerValue>) -> Option<CalendarDateTime> {
    match value {
        Some(DateTimePickerValue::DateTime(dt)) => Some(dt),
        Some(DateTimePickerValue::DateTimeRange(r)) => Some(r.start),
        _ => None,
    }
}

/// The upper date-time bound a bound value gives.
pub open spec fn upper_datetime_bound(value: Option<DateTimePickerValue>) -> Option<CalendarDateTime> {
    match value {
        Some(DateTimePickerValue::DateTime(dt)) => Some(dt),
        Some(DateTimePickerValue::DateTimeRange(r)) => Some(r.end),
        _ => None,
    }
}

/// Whether `date` lies within the date bounds.
pub open spec fn date_in_bounds(date: CalendarDate, min: Option<DateTimePickerValue>, max: Option<DateTimePickerValue>) -> bool {
    &&& (lower_date_bound(min) matches Some(lo) ==> lo.not_after(date))
    &&& (upper_date_bound(max) matches Some(hi) ==> date.not_after(hi))
}

/// Whether `time` lies within the time bounds.
pub open spec fn time_in_bounds(time: ClockTime, min: Option<DateTimePickerValue>, max: Option<DateTimePickerValue>) -> bool {
    &&& (lower_time_bound(min) matches Some(lo) ==> lo.not_after(time))
    &&& (upper_time_bound(max) matches Some(hi) ==> time.not_after(hi))
}

/// Whether `datetime` lies within the date-time bounds.
pub open spec fn datetime_in_bounds(datetime: CalendarDateTime, min: Option<DateTimePickerValue>, max: Option<DateTimePickerValue>) -> bool {
    &&& (lower_datetime_bound(min) matches Some(lo) ==> lo.not_after(datetime))
    &&& (upper_datetime_bound(max) matches Some(hi) ==> datetime.not_after(hi))
}

/// `answer` is what the rule says of `arg`; no rule disables nothing.
pub open spec fn rule_answer<A, F: Fn(A) -> bool>(rule: Option<F>, arg: A, answer: bool) -> bool {
    match rule {
        Some(f) => call_ensures(f, (arg,), answer),
        None => answer == false,
    }
}

/// The rule, if any, accepts every argument.
pub open spec fn rule_callable<A, F: Fn(A) -> bool>(rule: Option<F>) -> bool {
    match rule {
        Some(f) => forall|a: A| #[trigger] call_requires(f, (a,)),
        None => true,
    }
}

/// Both rules of the constraints accept every argument.
pub open spec fn constraints_callable<F: Fn(CalendarDate) -> bool, G: Fn(ClockTime) -> bool>(
    c: DateTimePickerConstraints<F, G>,
) -> bool {
    rule_callable::<CalendarDate, F>(c.disabled_date) && rule_callable::<ClockTime, G>(c.disabled_time)
}

/// `date` is within its bounds and the date rule did not disable it.
pub open spec fn date_passes<F: Fn(CalendarDate) -> bool, G>(c: DateTimePickerConstraints<F, G>, date: CalendarDate) -> bool {
    &&& exists|answer: bool| #[trigger] rule_answer(c.disabled_date, date, answer) && !answer
    &&& date_in_bounds(date, c.min, c.max)
}

/// `date` is out of its bounds or the date rule disabled it.
pub open spec fn date_fails<F: Fn(CalendarDate) -> bool, G>(c: DateTimePickerConstraints<F, G>, date: CalendarDate) -> bool {
    ||| exists|answer: bool| #[trigger] rule_answer(c.disabled_date, date, answer) && answer
    ||| !date_in_bounds(date, c.min, c.max)
}

/// `time` is within its bounds and the time rule did not disable it.
pub open spec fn time_passes<F, G: Fn(ClockTime) -> bool>(c: DateTimePickerConstraints<F, G>, time: ClockTime) -> bool {
    &&& exists|answer: bool| #[trigger] rule_answer(c.disabled_time, time, answer) && !answer
    &&& time_in_bounds(time, c.min, c.max)
}

/// `time` is out of its bounds or the time rule disabled it.
pub open spec fn time_fails<F, G: Fn(ClockTime) -> bool>(c: DateTimePickerConstraints<F, G>, time: ClockTime) -> bool {
    ||| exists|answer: bool| #[trigger] rule_answer(c.disabled_time, time, answer) && answer
    ||| !time_in_bounds(time, c.min, c.max)
}

/// Date part, time part and the whole date-time all pass.
pub open spec fn datetime_passes<F: Fn(CalendarDate) -> bool, G: Fn(ClockTime) -> bool>(
    c: DateTimePickerConstraints<F, G>,
    dt: CalendarDateTime,
) -> bool {
    date_passes(c, dt.date) && time_passes(c, dt.time) && datetime_in_bounds(dt, c.min, c.max)
}

/// Date part, time part or the whole date-time fails.
pub open spec fn datetime_fails<F: Fn(CalendarDate) -> bool, G: Fn(ClockTime) -> bool>(
    c: DateTimePickerConstraints<F, G>,
    dt: CalendarDateTime,
) -> bool {
    date_fails(c, dt.date) || time_fails(c, dt.time) || !datetime_in_bounds(dt, c.min, c.max)
}

/// Every part of the value passes; both ends of a range are checked.
pub open spec fn value_passes<F: Fn(CalendarDate) -> bool, G: Fn(ClockTime) -> bool>(
    c: DateTimePickerConstraints<F, G>,
    value: DateTimePickerValue,
) -> bool {
    match value {
        DateTimePickerValue::Date(d) => date_passes(c, d),
        DateTimePickerValue::Time(t) => time_passes(c, t),
        DateTimePickerValue::DateTime(dt) => datetime_passes(c, dt),
        DateTimePickerValue::DateRange(r) => date_passes(c, r.start) && date_passes(c, r.end),
        DateTimePickerValue::TimeRange(r) => time_passes(c, r.start) && time_passes(c, r.end),
        DateTimePickerValue::DateTimeRange(r) => datetime_passes(c, r.start) && datetime_passes(c, r.end),
    }
}

/// Some part of the value fails.
pub open spec fn value_fails<F: Fn(CalendarDate) -> bool, G: Fn(ClockTime) -> bool>(
    c: DateTimePickerConstraints<F, G>,
    value: DateTimePickerValue,
) -> bool {
    match value {
        DateTimePickerValue::Date(d) => date_fails(c, d),
        DateTimePickerValue::Time(t) => time_fails(c, t),
        DateTimePickerValue::DateTime(dt) => datetime_fails(c, dt),
        DateTimePickerValue::DateRange(r) => date_fails(c, r.start) || date_fails(c, r.end),
        DateTimePickerValue::TimeRange(r) => time_fails(c, r.start) || time_fails(c, r.end),
        DateTimePickerValue::DateTimeRange(r) => datetime_fails(c, r.start) || datetime_fails(c, r.end),
    }
}

fn min_date_bound(value: &Option<DateTimePickerValue>) -> (r: Option<CalendarDate>)
    ensures
        r == lower_date_bound(*value),
{
    match value {
        Some(DateTimePickerValue::Date(d)) => Some(*d),
        Some(DateTimePickerValue::DateRange(r)) => Some(r.start),
        Some(DateTimePickerValue::DateTime(dt)) => Some(dt.date),
        Some(DateTimePickerValue::DateTimeRange(r)) => Some(r.start.date),
        _ => None,
    }
}

fn max_date_bound(value: &Option<DateTimePickerValue>) -> (r: Option<CalendarDate>)
    ensures
        r == upper_date_bound(*value),
{
    match value {
        Some(DateTimePickerValue::Date(d)) => Some(*d),
        Some(DateTimePickerValue::DateRange(r)) => Some(r.end),
        Some(DateTimePickerValue::DateTime(dt)) => Some(dt.date),
        Some(DateTimePickerValue::DateTimeRange(r)) => Some(r.end.date),
        _ => None,
    }
}

fn min_time_bound(value: &Option<DateTimePickerValue>) -> (r: Option<ClockTime>)
    ensures
        r == lower_time_bound(*value),
{
    match value {
        Some(DateTimePickerValue::Time(t)) => Some(*t),
        Some(DateTimePickerValue::TimeRange(r)) => Some(r.start),
        _ => None,
    }
}

fn max_time_bound(value: &Option<DateTimePickerValue>) -> (r: Option<ClockTime>)
    ensures
        r == upper_time_bound(*value),
{
    match value {
        Some(DateTimePickerValue::Time(t)) => Some(*t),
        Some(DateTimePickerValue::TimeRange(r)) => Some(r.end),
        _ => None,
    }
}

fn min_datetime_bound(value: &Option<DateTimePickerValue>) -> (r: Option<CalendarDateTime>)
    ensures
        r == lower_datetime_bound(*value),
{
    match value {
        Some(DateTimePickerValue::DateTime(dt)) => Some(*dt),
        Some(DateTimePickerValue::DateTimeRange(r)) => Some(r.start),
        _ => None,
    }
}

fn max_datetime_bound(value: &Option<DateTimePickerValue>) -> (r: Option<CalendarDateTime>)
    ensures
        r == upper_datetime_bound(*value),
{
    match value {
        Some(DateTimePickerValue::DateTime(dt)) => Some(*dt),
        Some(DateTimePickerValue::DateTimeRange(r)) => Some(r.end),
        _ => None,
    }
}

/// Whether a date may be committed: the date rule does not disable it and it
/// lies within the date bounds.
pub fn date_allowed<F: Fn(CalendarDate) -> bool, G: Fn(ClockTime) -> bool>(
    date: CalendarDate,
    constraints: &DateTimePickerConstraints<F, G>,
) -> (r: bool)
    requires
        rule_callable::<CalendarDate, F>(constraints.disabled_date),
    ensures
        r ==> date_passes(*constraints, date),
        !r ==> date_fails(*constraints, date),
{
    let disabled = match &constraints.disabled_date {
        Some(rule) => rule(date),
        None => false,
    };
    assert(rule_answer(constraints.disabled_date, date, disabled));
    if disabled {
        return false;
    }
    if let Some(min) = min_date_bound(&constraints.min) {
        if date_before(date, min) {
            return false;
        }
    }
    if let Some(max) = max_date_bound(&constraints.max) {
        if date_before(max, date) {
            return false;
        }
    }
    true
}

/// Whether a time may be committed: the time rule does not disable it and it
/// lies within the time bounds.
pub fn time_allowed<F: Fn(CalendarDate) -> bool, G: Fn(ClockTime) -> bool>(
    time: ClockTime,
    constraints: &DateTimePickerConstraints<F, G>,
) -> (r: bool)
    requires
        rule_callable::<ClockTime, G>(constraints.disabled_time),
    ensures
        r ==> time_passes(*constraints, time),
        !r ==> time_fails(*constraints, time),
{
    let disabled = match &constraints.disabled_time {
        Some(rule) => rule(time),
        None => false,
    };
    assert(rule_answer(constraints.disabled_time, time, disabled));
    if disabled {
        return false;
    }
    if let Some(min) = min_time_bound(&constraints.min) {
        if time_before(time, min) {
            return false;
        }
    }
    if let Some(max) = max_time_bound(&constraints.max) {
        if time_before(max, time) {
            return false;
        }
    }
    true
}

/// Whether a date-time may be committed: its date and its time are allowed
/// and it lies within the date-time bounds.
pub fn datetime_allowed<F: Fn(CalendarDate) -> bool, G: Fn(ClockTime) -> bool>(
    datetime: CalendarDateTime,
    constraints: &DateTimePickerConstraints<F, G>,
) -> (r: bool)
    requires
        constraints_callable(*constraints),
    ensures
        r ==> datetime_passes(*constraints, datetime),
        !r ==> datetime_fails(*constraints, datetime),
{
    if !date_allowed(datetime.date, constraints) {
        return false;
    }
    if !time_allowed(datetime.time, constraints) {
        return false;
    }
    if let Some(min) = min_datetime_bound(&constraints.min) {
        if datetime_before(datetime, min) {
            return false;
        }
    }
    if let Some(max) = max_datetime_bound(&constraints.max) {
        if datetime_before(max, datetime) {
            return false;
        }
    }
    true
}

/// Whether a value may be committed; both ends of a range must be allowed.
pub fn value_allowed<F: Fn(CalendarDate) -> bool, G: Fn(ClockTime) -> bool>(
    value: &DateTimePickerValue,
    constraints: &DateTimePickerConstraints<F, G>,
) -> (r: bool)
    requires
        constraints_callable(*constraints),
    ensures
        r ==> value_passes(*constraints, *value),
        !r ==> value_fails(*constraints, *value),
{
    match value {
        DateTimePickerValue::Date(d) => date_allowed(*d, constraints),
        DateTimePickerValue::Time(t) => time_allowed(*t, constraints),
        DateTimePickerValue::DateTime(dt) => datetime_allowed(*dt, constraints),
        DateTimePickerValue::DateRange(r) => date_allowed(r.start, constraints) && date_allowed(r.end, constraints),
        DateTimePickerValue::TimeRange(r) => time_allowed(r.start, constraints) && time_allowed(r.end, constraints),
        DateTimePickerValue::DateTimeRange(r) => datetime_allowed(r.start, constraints) && datetime_allowed(r.end, constraints),
    }
}

// ---------------------------------------------------------------------------
// Formatting.

/// A written text, or nothing when the format could not write the value.
pub open spec fn text_or_empty(text: Option<Seq<char>>) -> Seq<char> {
    match text {
        Some(t) => t,
        None => Seq::empty(),
    }
}

/// Both ends of a range and the separator between them, or nothing when an
/// end could not be written.
pub open spec fn joined(start: Option<Seq<char>>, separator: Seq<char>, end: Option<Seq<char>>) -> Seq<char> {
    match (start, end) {
        (Some(a), Some(b)) => a + separator + b,
        _ => Seq::empty(),
    }
}

/// The text a value is displayed as.
pub open spec fn value_text(value: DateTimePickerValue, formats: DateTimePickerFormats) -> Seq<char> {
    let sep = formats.range_separator@;
    match value {
        DateTimePickerValue::Date(d) => text_or_empty(formatted_date(d, formats.date_format@)),
        DateTimePickerValue::Time(t) => text_or_empty(formatted_time(t, formats.time_format@)),
        DateTimePickerValue::DateTime(dt) => text_or_empty(formatted_datetime(dt, formats.datetime_format@)),
        DateTimePickerValue::DateRange(r) => joined(
            formatted_date(r.start, formats.date_format@),
            sep,
            formatted_date(r.end, formats.date_format@),
        ),
        DateTimePickerValue::TimeRange(r) => joined(
            formatted_time(r.start, formats.time_format@),
            sep,
            formatted_time(r.end, formats.time_format@),
        ),
        DateTimePickerValue::DateTimeRange(r) => joined(
            formatted_datetime(r.start, formats.datetime_format@),
            sep,
            formatted_datetime(r.end, formats.datetime_format@),
        ),
    }
}

/// The text an optional value is displayed as in `mode`: empty for no value
/// and for a value of another mode.
pub open spec fn optional_value_text(
    value: Option<DateTimePickerValue>,
    mode: DateTimePickerMode,
    formats: DateTimePickerFormats,
) -> Seq<char> {
    match value {
        Some(v) => if mode_of(v) == mode { value_text(v, formats) } else { Seq::empty() },
        None => Seq::empty(),
    }
}

fn text_or_empty_string(text: Option<String>) -> (r: String)
    ensures
        r@ == text_or_empty(text_chars(text)),
{
    match text {
        Some(t) => t,
        None => String::new(),
    }
}

fn joined_string(start: Option<String>, separator: &str, end: Option<String>) -> (r: String)
    ensures
        r@ == joined(text_chars(start), separator@, text_chars(end)),
{
    match (start, end) {
        (Some(a), Some(b)) => {
            let all = concat3(&chars_of(a.as_str()), &chars_of(separator), &chars_of(b.as_str()));
            string_from_chars(&all)
        },
        _ => String::new(),
    }
}

/// The text a value is displayed as: each calendar value written in the
/// format of its kind, the two ends of a range joined by the separator. Where
/// `chrono` reports that a format cannot write the value, the text is empty.
pub fn format_value(value: &DateTimePickerValue, formats: &DateTimePickerFormats) -> (r: String)
    requires
        value_valid(*value),
    ensures
        r@ == value_text(*value, *formats),
{
    let sep = formats.range_separator.as_str();
    match value {
        DateTimePickerValue::Date(d) => text_or_empty_string(format_naive_date(*d, formats.date_format.as_str())),
        DateTimePickerValue::Time(t) => text_or_empty_string(format_naive_time(*t, formats.time_format.as_str())),
        DateTimePickerValue::DateTime(dt) => text_or_empty_string(
            format_naive_datetime(*dt, formats.datetime_format.as_str()),
        ),
        DateTimePickerValue::DateRange(r) => joined_string(
            format_naive_date(r.start, formats.date_format.as_str()),
            sep,
            format_naive_date(r.end, formats.date_format.as_str()),
        ),
        DateTimePickerValue::TimeRange(r) => joined_string(
            format_naive_time(r.start, formats.time_format.as_str()),
            sep,
            format_naive_time(r.end, formats.time_format.as_str()),
        ),
        DateTimePickerValue::DateTimeRange(r) => joined_string(
            format_naive_datetime(r.start, formats.datetime_format.as_str()),
            sep,
            format_naive_datetime(r.end, formats.datetime_format.as_str()),
        ),
    }
}

/// The text an optional value is displayed as in `mode`; empty for no value and
/// for a value of another mode.
pub fn format_optional_value(
    value: Option<DateTimePickerValue>,
    mode: DateTimePickerMode,
    formats: &DateTimePickerFormats,
) -> (r: String)
    requires
        value matches Some(v) ==> value_valid(v),
    ensures
        r@ == optional_value_text(value, mode, *formats),
{
    match value {
        Some(v) => if v.matches_mode(mode) { format_value(&v, formats) } else { String::new() },
        None => String::new(),
    }
}

// ---------------------------------------------------------------------------
// Parsing.

/// The two trimmed ends of a range text: the text must hold the separator
/// exactly once (scanning from the left without overlaps), with a non-blank
/// end on either side.
pub open spec fn range_parts(text: Seq<char>, separator: Seq<char>) -> Option<(Seq<char>, Seq<char>)> {
    match first_occurrence_from(text, separator, 0) {
        None => None,
        Some(i) => {
            let start = trimmed(text.subrange(0, i));
            let rest = text.subrange(i + separator.len(), text.len() as int);
            let end = trimmed(rest);
            if start.len() == 0 || end.len() == 0 || occurs_in(separator, rest) {
                None
            } else {
                Some((start, end))
            }
        },
    }
}

/// The range between two values, ordered.
pub open spec fn ordered_range<T: Chronological>(a: T, b: T) -> DateTimeRange<T> {
    if a.precedes_or_equals(b) {
        DateTimeRange { start: a, end: b }
    } else {
        DateTimeRange { start: b, end: a }
    }
}

/// The date a text spells after trimming.
pub open spec fn date_from_text(text: Seq<char>, formats: DateTimePickerFormats) -> Option<CalendarDate> {
    parsed_date(trimmed(text), formats.date_format@)
}

/// The time a text spells after trimming.
pub open spec fn time_from_text(text: Seq<char>, formats: DateTimePickerFormats) -> Option<ClockTime> {
    parsed_time(trimmed(text), formats.time_format@)
}

/// The date-time a text spells after trimming.
pub open spec fn datetime_from_text(text: Seq<char>, formats: DateTimePickerFormats) -> Option<CalendarDateTime> {
    parsed_datetime(trimmed(text), formats.datetime_format@)
}

/// The value of `mode` that a text spells, if any; a range is ordered.
pub open spec fn value_from_text(
    text: Seq<char>,
    mode: DateTimePickerMode,
    formats: DateTimePickerFormats,
) -> Option<DateTimePickerValue> {
    match mode {
        DateTimePickerMode::Date => match date_from_text(text, formats) {
            Some(d) => Some(DateTimePickerValue::Date(d)),
            None => None,
        },
        DateTimePickerMode::Time => match time_from_text(text, formats) {
            Some(t) => Some(DateTimePickerValue::Time(t)),
            None => None,
        },
        DateTimePickerMode::DateTime => match datetime_from_text(text, formats) {
            Some(dt) => Some(DateTimePickerValue::DateTime(dt)),
            None => None,
        },
        DateTimePickerMode::DateRange => match range_parts(text, formats.range_separator@) {
            Some((a, b)) => match (date_from_text(a, formats), date_from_text(b, formats)) {
                (Some(x), Some(y)) => Some(DateTimePickerValue::DateRange(ordered_range(x, y))),
                _ => None,
            },
            None => None,
        },
        DateTimePickerMode::TimeRange => match range_parts(text, formats.range_separator@) {
            Some((a, b)) => match (time_from_text(a, formats), time_from_text(b, formats)) {
                (Some(x), Some(y)) => Some(DateTimePickerValue::TimeRange(ordered_range(x, y))),
                _ => None,
            },
            None => None,
        },
        DateTimePickerMode::DateTimeRange => match range_parts(text, formats.range_separator@) {
            Some((a, b)) => match (datetime_from_text(a, formats), datetime_from_text(b, formats)) {
                (Some(x), Some(y)) => Some(DateTimePickerValue::DateTimeRange(ordered_range(x, y))),
                _ => None,
            },
            None => None,
        },
    }
}

/// What committing a text gives: no value for a blank text, else the value it
/// spells or a format error.
pub open spec fn optional_value_from_text(
    text: Seq<char>,
    mode: DateTimePickerMode,
    formats: DateTimePickerFormats,
) -> Result<Option<DateTimePickerValue>, DateTimePickerParseError> {
    let t = trimmed(text);
    if t.len() == 0 {
        Ok(None)
    } else {
        match value_from_text(t, mode, formats) {
            Some(v) => Ok(Some(v)),
            None => Err(DateTimePickerParseError::InvalidFormat),
        }
    }
}

fn trim_str(text: &str) -> (r: String)
    ensures
        r@ == trimmed(text@),
{
    string_from_chars(&trim_chars(&chars_of(text)))
}

/// Parses a date after trimming the text.
fn parse_date(text: &str, formats: &DateTimePickerFormats) -> (r: Result<CalendarDate, DateTimePickerParseError>)
    ensures
        r == (match date_from_text(text@, *formats) {
            Some(d) => Ok(d),
            None => Err(DateTimePickerParseError::InvalidFormat),
        }),
        r matches Ok(d) ==> d.is_valid(),
{
    let t = trim_str(text);
    match parse_naive_date(t.as_str(), formats.date_format.as_str()) {
        Some(d) => Ok(d),
        None => Err(DateTimePickerParseError::InvalidFormat),
    }
}

/// Parses a time after trimming the text.
fn parse_time(text: &str, formats: &DateTimePickerFormats) -> (r: Result<ClockTime, DateTimePickerParseError>)
    ensures
        r == (match time_from_text(text@, *formats) {
            Some(t) => Ok(t),
            None => Err(DateTimePickerParseError::InvalidFormat),
        }),
        r matches Ok(t) ==> t.is_valid(),
{
    let t = trim_str(text);
    match parse_naive_time(t.as_str(), formats.time_format.as_str()) {
        Some(v) => Ok(v),
        None => Err(DateTimePickerParseError::InvalidFormat),
    }
}

/// Parses a date-time after trimming the text.
fn parse_datetime(text: &str, formats: &DateTimePickerFormats) -> (r: Result<CalendarDateTime, DateTimePickerParseError>)
    ensures
        r == (match datetime_from_text(text@, *formats) {
            Some(dt) => Ok(dt),
            None => Err(DateTimePickerParseError::InvalidFormat),
        }),
        r matches Ok(dt) ==> dt.is_valid(),
{
    let t = trim_str(text);
    match parse_naive_datetime(t.as_str(), formats.datetime_format.as_str()) {
        Some(v) => Ok(v),
        None => Err(DateTimePickerParseError::InvalidFormat),
    }
}

/// Splits a range text into its two trimmed ends.
fn split_range(text: &str, formats: &DateTimePickerFormats) -> (r: Result<(String, String), DateTimePickerParseError>)
    ensures
        match r {
            Ok((a, b)) => range_parts(text@, formats.range_separator@) == Some((a@, b@)),
            Err(e) => range_parts(text@, formats.range_separator@) is None
                && e == DateTimePickerParseError::InvalidFormat,
        },
{
    let chars = chars_of(text);
    let sep = chars_of(formats.range_separator.as_str());
    match find_chars(&chars, &sep) {
        None => Err(DateTimePickerParseError::InvalidFormat),
        Some(i) => {
            proof {
                lemma_first_occurrence_found(chars@, sep@, 0, i as int);
            }
            let start = trim_chars(&slice_chars(&chars, 0, i));
            let rest = slice_chars(&chars, i + sep.len(), chars.len());
            let end = trim_chars(&rest);
            if start.len() == 0 || end.len() == 0 || contains_chars(&rest, &sep) {
                Err(DateTimePickerParseError::InvalidFormat)
            } else {
                Ok((string_from_chars(&start), string_from_chars(&end)))
            }
        },
    }
}

/// The range between two values, ordered.
fn ordered<T: Chronological>(a: T, b: T) -> (r: DateTimeRange<T>)
    ensures
        r == ordered_range(a, b),
{
    DateTimeRange::new(a, b)
}

/// Parses the value of `mode` that a text spells; a range text must hold the
/// separator once, and its ends come out ordered.
pub fn parse_value(
    text: &str,
    mode: DateTimePickerMode,
    formats: &DateTimePickerFormats,
) -> (r: Result<DateTimePickerValue, DateTimePickerParseError>)
    ensures
        r == (match value_from_text(text@, mode, *formats) {
            Some(v) => Ok(v),
            None => Err(DateTimePickerParseError::InvalidFormat),
        }),
        r matches Ok(v) ==> value_valid(v) && mode_of(v) == mode,
{
    match mode {
        DateTimePickerMode::Date => match parse_date(text, formats) {
            Ok(d) => Ok(DateTimePickerValue::Date(d)),
            Err(e) => Err(e),
        },
        DateTimePickerMode::Time => match parse_time(text, formats) {
            Ok(t) => Ok(DateTimePickerValue::Time(t)),
            Err(e) => Err(e),
        },
        DateTimePickerMode::DateTime => match parse_datetime(text, formats) {
            Ok(dt) => Ok(DateTimePickerValue::DateTime(dt)),
            Err(e) => Err(e),
        },
        DateTimePickerMode::DateRange => parse_date_range(text, formats),
        DateTimePickerMode::TimeRange => parse_time_range(text, formats),
        DateTimePickerMode::DateTimeRange => parse_datetime_range(text, formats),
    }
}

fn parse_date_range(text: &str, formats: &DateTimePickerFormats) -> (r: Result<DateTimePickerValue, DateTimePickerParseError>)
    ensures
        r == (match value_from_text(text@, DateTimePickerMode::DateRange, *formats) {
            Some(v) => Ok(v),
            None => Err(DateTimePickerParseError::InvalidFormat),
        }),
        r matches Ok(v) ==> value_valid(v) && mode_of(v) == DateTimePickerMode::DateRange,
{
    let (a, b) = match split_range(text, formats) {
        Ok(parts) => parts,
        Err(e) => return Err(e),
    };
    let start = match parse_date(a.as_str(), formats) {
        Ok(x) => x,
        Err(e) => return Err(e),
    };
    let end = match parse_date(b.as_str(), formats) {
        Ok(x) => x,
        Err(e) => return Err(e),
    };
    Ok(DateTimePickerValue::DateRange(ordered(start, end)))
}

fn parse_time_range(text: &str, formats: &DateTimePickerFormats) -> (r: Result<DateTimePickerValue, DateTimePickerParseError>)
    ensures
        r == (match value_from_text(text@, DateTimePickerMode::TimeRange, *formats) {
            Some(v) => Ok(v),
            None => Err(DateTimePickerParseError::InvalidFormat),
        }),
        r matches Ok(v) ==> value_valid(v) && mode_of(v) == DateTimePickerMode::TimeRange,
{
    let (a, b) = match split_range(text, formats) {
        Ok(parts) => parts,
        Err(e) => return Err(e),
    };
    let start = match parse_time(a.as_str(), formats) {
        Ok(x) => x,
        Err(e) => return Err(e),
    };
    let end = match parse_time(b.as_str(), formats) {
        Ok(x) => x,
        Err(e) => return Err(e),
    };
    Ok(DateTimePickerValue::TimeRange(ordered(start, end)))
}

fn parse_datetime_range(text: &str, formats: &DateTimePickerFormats) -> (r: Result<DateTimePickerValue, DateTimePickerParseError>)
    ensures
        r == (match value_from_text(text@, DateTimePickerMode::DateTimeRange, *formats) {
            Some(v) => Ok(v),
            None => Err(DateTimePickerParseError::InvalidFormat),
        }),
        r matches Ok(v) ==> value_valid(v) && mode_of(v) == DateTimePickerMode::DateTimeRange,
{
    let (a, b) = match split_range(text, formats) {
        Ok(parts) => parts,
        Err(e) => return Err(e),
    };
    let start = match parse_datetime(a.as_str(), formats) {
        Ok(x) => x,
        Err(e) => return Err(e),
    };
    let end = match parse_datetime(b.as_str(), formats) {
        Ok(x) => x,
        Err(e) => return Err(e),
    };
    Ok(DateTimePickerValue::DateTimeRange(ordered(start, end)))
}

/// Parses a text into an optional value: a blank text is no value.
pub fn parse_optional_value(
    text: &str,
    mode: DateTimePickerMode,
    formats: &DateTimePickerFormats,
) -> (r: Result<Option<DateTimePickerValue>, DateTimePickerParseError>)
    ensures
        r == optional_value_from_text(text@, mode, *formats),
        r matches Ok(Some(v)) ==> value_valid(v) && mode_of(v) == mode,
{
    let t = trim_str(text);
    if t.as_str().is_empty() {
        return Ok(None);
    }
    match parse_value(t.as_str(), mode, formats) {
        Ok(v) => Ok(Some(v)),
        Err(e) => Err(e),
    }
}

// ---------------------------------------------------------------------------
// Calendar arithmetic.

/// The step of the minute and second columns: a step of 0 or above 60 falls
/// back to 1, so that a column is never empty.
pub open spec fn step_of(step: int) -> int {
    if step == 0 || step > 60 { 1 } else { step }
}

/// Normalises a minute or second step.
pub fn normalized_step(step: usize) -> (r: usize)
    ensures
        r == step_of(step as int),
        1 <= r <= 60,
{
    if step == 0 || step > 60 {
        1
    } else {
        step
    }
}

/// The candidates of a minute or second column: the multiples of the
/// normalised step below 60, ascending.
pub fn stepped_values(step: usize) -> (r: Vec<u32>)
    ensures
        r@.len() == 59int / step_of(step as int) + 1,
        forall|i: int| 0 <= i < r@.len() ==> #[trigger] r@[i] == i * step_of(step as int),
{
    let s = normalized_step(step) as u32;
    let mut r: Vec<u32> = Vec::new();
    let mut v: u32 = 0;
    proof {
        assert(59int / (s as int) >= 0) by (nonlinear_arith)
            requires s >= 1;
        assert(r@.len() == 0);
        assert(0 * s == 0) by (nonlinear_arith);
    }
    while v < 60
        invariant
            s as int == step_of(step as int),
            1 <= s <= 60,
            v == r@.len() * s,
            v < 60 ==> r@.len() <= 59int / (s as int),
            v >= 60 ==> r@.len() == 59int / (s as int) + 1,
            forall|i: int| 0 <= i < r@.len() ==> #[trigger] r@[i] == i * s,
        decreases 120 - v,
    {
        r.push(v);
        proof {
            let n = r@.len() as int;
            assert(v + s == n * s) by (nonlinear_arith)
                requires v == (n - 1) * s;
            if v + s < 60 {
                assert(n <= 59int / (s as int)) by (nonlinear_arith)
                    requires n * s <= 59, s >= 1;
            } else {
                assert(n == 59int / (s as int) + 1) by (nonlinear_arith)
                    requires n * s >= 60, (n - 1) * s <= 59, s >= 1;
            }
        }
        v = v + s;
    }
    r
}

/// The month after a month.
pub open spec fn month_after(year: int, month: int) -> (int, int) {
    if month >= 12 { (year + 1, 1) } else { (year, month + 1) }
}

/// The month after a month.
pub fn next_month(year: i32, month: u32) -> (r: (i32, u32))
    requires
        month >= 12 ==> year < i32::MAX,
    ensures
        (r.0 as int, r.1 as int) == month_after(year as int, month as int),
{
    if month >= 12 {
        (year + 1, 1)
    } else {
        (year, month + 1)
    }
}

/// `month` clamped into 1 to 12.
pub open spec fn clamped_month(month: int) -> int {
    if month < 1 { 1 } else if month > 12 { 12 } else { month }
}

fn clamp_month(month: u32) -> (r: u32)
    ensures
        r == clamped_month(month as int),
{
    if month < 1 {
        1
    } else if month > 12 {
        12
    } else {
        month
    }
}

/// First cell of the six-week calendar grid of a month: the Monday on or
/// before the first day of the month.
pub open spec fn grid_start(year: int, month: int) -> CalendarDate {
    let first = CalendarDate { year: year as i32, month: clamped_month(month) as u32, day: 1 };
    shifted_date(first, -weekday_from_monday(first)).unwrap()
}

/// Whether the six-week grid of a month lies in the supported range: the year
/// is supported, and the month is neither January of the first year (whose
/// grid starts before 1 January) nor December of the last (whose grid runs
/// past 31 December).
pub open spec fn grid_in_range(year: int, month: int) -> bool {
    &&& MIN_YEAR <= year <= MAX_YEAR
    &&& !(year == MIN_YEAR && clamped_month(month) == 1)
    &&& !(year == MAX_YEAR && clamped_month(month) == 12)
}

/// The first cell of the calendar grid of a month (a month out of 1 to 12 is
/// clamped).
pub fn calendar_grid_start(year: i32, month: u32) -> (r: CalendarDate)
    requires
        grid_in_range(year as int, month as int),
    ensures
        r == grid_start(year as int, month as int),
        r.is_valid(),
        r.not_after(CalendarDate { year, month: clamped_month(month as int) as u32, day: 1 }),
{
    let first = match date_from_ymd(year, clamp_month(month), 1) {
        Some(d) => d,
        None => CalendarDate { year, month: 1, day: 1 },
    };
    let offset = days_from_monday(first);
    match shift_date(first, -(offset as i64)) {
        Some(d) => d,
        None => first,
    }
}

/// The 42 cells of a month's calendar grid: six weeks from the grid start.
pub open spec fn grid_cell(year: int, month: int, k: int) -> CalendarDate {
    shifted_date(grid_start(year, month), k).unwrap()
}

/// The 42 days of the calendar grid of a month, six weeks from Monday on.
pub fn calendar_days(year: i32, month: u32) -> (r: Vec<CalendarDate>)
    requires
        grid_in_range(year as int, month as int),
    ensures
        r@.len() == 42,
        forall|k: int| 0 <= k < 42 ==> #[trigger] r@[k] == grid_cell(year as int, month as int, k),
        forall|k: int| 0 <= k < 42 ==> (#[trigger] r@[k]).is_valid(),
{
    let start = calendar_grid_start(year, month);
    let mut r: Vec<CalendarDate> = Vec::new();
    let mut k: i64 = 0;
    while k < 42
        invariant
            0 <= k <= 42,
            r@.len() == k,
            start == grid_start(year as int, month as int),
            start.is_valid(),
            start.not_after(CalendarDate { year: MAX_YEAR, month: 11, day: 20 }),
            forall|j: int| 0 <= j < k ==> #[trigger] r@[j] == grid_cell(year as int, month as int, j),
            forall|j: int| 0 <= j < k ==> (#[trigger] r@[j]).is_valid(),
        decreases 42 - k,
    {
        let cell = match shift_date(start, k) {
            Some(d) => d,
            None => start,
        };
        r.push(cell);
        k = k + 1;
    }
    r
}

/// The number of days of a month (a month out of 1 to 12 is clamped); 31 for
/// a year outside the supported range.
pub open spec fn month_days(year: int, month: int) -> int {
    if MIN_YEAR <= year <= MAX_YEAR {
        month_length(year, clamped_month(month))
    } else {
        31
    }
}

/// Whether `month_days` can be computed: the month after December of the last
/// year does not fit the year type, and the first supported day has no day before it.
pub open spec fn month_days_defined(year: int, month: int) -> bool {
    clamped_month(month) == 12 ==> (year < i32::MAX && year != MIN_YEAR - 1)
}

/// The number of days of a month.
pub fn days_in_month(year: i32, month: u32) -> (r: u32)
    requires
        month_days_defined(year as int, month as int),
    ensures
        r == month_days(year as int, month as int),
        1 <= r <= 31,
{
    let m = clamp_month(month);
    let (next_year, next_month) = next_month(year, m);
    match date_from_ymd(next_year, next_month, 1) {
        None => 31,
        Some(first) => match shift_date(first, -1) {
            Some(last) => last.day,
            None => 31,
        },
    }
}

/// A value with its range, if it is one, ordered.
pub open spec fn normalized_value(value: DateTimePickerValue) -> DateTimePickerValue {
    match value {
        DateTimePickerValue::DateRange(r) => DateTimePickerValue::DateRange(ordered_range(r.start, r.end)),
        DateTimePickerValue::TimeRange(r) => DateTimePickerValue::TimeRange(ordered_range(r.start, r.end)),
        DateTimePickerValue::DateTimeRange(r) => DateTimePickerValue::DateTimeRange(ordered_range(r.start, r.end)),
        v => v,
    }
}

/// A value kept for `mode`: one of another mode is dropped, a range is ordered.
pub open spec fn value_for_mode(value: Option<DateTimePickerValue>, mode: DateTimePickerMode) -> Option<DateTimePickerValue> {
    match value {
        Some(v) => if mode_of(v) == mode { Some(normalized_value(v)) } else { None },
        None => None,
    }
}

/// Whether the ends of a range value are ordered.
pub open spec fn value_ordered(value: DateTimePickerValue) -> bool {
    match value {
        DateTimePickerValue::DateRange(r) => r.start.precedes_or_equals(r.end),
        DateTimePickerValue::TimeRange(r) => r.start.precedes_or_equals(r.end),
        DateTimePickerValue::DateTimeRange(r) => r.start.precedes_or_equals(r.end),
        _ => true,
    }
}

/// Keeps a value for `mode`: a value of another mode becomes no value, a range
/// is ordered.
pub fn normalize_value_for_mode(value: Option<DateTimePickerValue>, mode: DateTimePickerMode) -> (r: Option<DateTimePickerValue>)
    requires
        value matches Some(v) ==> value_valid(v),
    ensures
        r == value_for_mode(value, mode),
        r matches Some(v) ==> value_valid(v) && mode_of(v) == mode && value_ordered(v),
{
    match value {
        Some(v) => {
            if v.matches_mode(mode) {
                let n = match v {
                    DateTimePickerValue::DateRange(r) => DateTimePickerValue::DateRange(ordered(r.start, r.end)),
                    DateTimePickerValue::TimeRange(r) => DateTimePickerValue::TimeRange(ordered(r.start, r.end)),
                    DateTimePickerValue::DateTimeRange(r) => DateTimePickerValue::DateTimeRange(ordered(r.start, r.end)),
                    other => other,
                };
                proof {
                    match v {
                        DateTimePickerValue::DateRange(r) => CalendarDate::lemma_total(r.start, r.end),
                        DateTimePickerValue::TimeRange(r) => ClockTime::lemma_total(r.start, r.end),
                        DateTimePickerValue::DateTimeRange(r) => CalendarDateTime::lemma_total(r.start, r.end),
                        _ => {},
                    }
                }
                Some(n)
            } else {
                None
            }
        },
        None => None,
    }
}

/// The day a value puts the calendar on: the date, or the start of a date or
/// date-time range; times have none.
pub open spec fn calendar_date_of(value: Option<DateTimePickerValue>) -> Option<CalendarDate> {
    match value {
        Some(DateTimePickerValue::Date(d)) => Some(d),
        Some(DateTimePickerValue::DateTime(dt)) => Some(dt.date),
        Some(DateTimePickerValue::DateRange(r)) => Some(r.start),
        Some(DateTimePickerValue::DateTimeRange(r)) => Some(r.start.date),
        _ => None,
    }
}

/// The day a value puts the calendar on, or today when it has none.
pub fn calendar_date_from_value(value: &Option<DateTimePickerValue>) -> (r: CalendarDate)
    requires
        *value matches Some(v) ==> value_valid(v),
    ensures
        calendar_date_of(*value) matches Some(d) ==> r == d,
        r.is_valid(),
{
    match value {
        Some(DateTimePickerValue::Date(d)) => *d,
        Some(DateTimePickerValue::DateTime(dt)) => dt.date,
        Some(DateTimePickerValue::DateRange(r)) => r.start,
        Some(DateTimePickerValue::DateTimeRange(r)) => r.start.date,
        _ => today(),
    }
}

// ---------------------------------------------------------------------------
// Laws.

/// A range does not depend on the order its ends are given in, and is ordered.
pub proof fn lemma_range_ends_order_free<T: Chronological>(a: T, b: T)
    ensures
        ordered_range(a, b) == ordered_range(b, a),
        ordered_range(a, b).start.precedes_or_equals(ordered_range(a, b).end),
{
    T::lemma_total(a, b);
    if a.precedes_or_equals(b) && b.precedes_or_equals(a) {
        T::lemma_antisymmetric(a, b);
    }
}

/// Keeping a value for a mode twice is keeping it once.
pub proof fn lemma_value_for_mode_idempotent(value: Option<DateTimePickerValue>, mode: DateTimePickerMode)
    ensures
        value_for_mode(value_for_mode(value, mode), mode) == value_for_mode(value, mode),
{
    if let Some(v) = value {
        match v {
            DateTimePickerValue::DateRange(r) => {
                lemma_range_ends_order_free(r.start, r.end);
                let o = ordered_range(r.start, r.end);
                lemma_range_ends_order_free(o.start, o.end);
                if !(o.start.precedes_or_equals(o.end)) {
                    assert(false);
                }
            },
            DateTimePickerValue::TimeRange(r) => {
                lemma_range_ends_order_free(r.start, r.end);
                let o = ordered_range(r.start, r.end);
                lemma_range_ends_order_free(o.start, o.end);
            },
            DateTimePickerValue::DateTimeRange(r) => {
                lemma_range_ends_order_free(r.start, r.end);
                let o = ordered_range(r.start, r.end);
                lemma_range_ends_order_free(o.start, o.end);
            },
            _ => {},
        }
    }
}

} // verus!
