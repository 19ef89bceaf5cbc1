//! Public parameter and value types of `DateTimePicker`.
//!
//! Values are naive calendar values: the picker handles local form input only,
//! with no time zone, UTC or daylight-saving conversion.

use vstd::prelude::*;

use super::calendar::{CalendarDate, CalendarDateTime, Chronological, ClockTime};

verus! {

/// A range of values, always held with `start` not after `end`. A time range
/// has no notion of crossing midnight: both ends lie in the same day.
#[derive(Clone, Copy, Debug, PartialEq, Eq, Structural)]
pub struct DateTimeRange<T> {
    /// First value of the range.
    pub start: T,
    /// Last value of the range.
    pub end: T,
}

impl<T: Chronological> DateTimeRange<T> {
    /// The range between two values; reversed ends are swapped, so that the
    /// range is ordered whatever order the caller gives.
    pub fn new(start: T, end: T) -> (r: Self)
        ensures
            start.precedes_or_equals(end) ==> r == (DateTimeRange { start, end }),
            !start.precedes_or_equals(end) ==> r == (DateTimeRange { start: end, end: start }),
            r.start.precedes_or_equals(r.end),
    {
        proof {
            T::lemma_total(start, end);
        }
        if start.not_later_than(&end) {
            DateTimeRange { start, end }
        } else {
            DateTimeRange { start: end, end: start }
        }
    }
}

/// The kind of value a picker selects.
#[derive(Clone, Copy, Debug, PartialEq, Eq, Structural)]
pub enum DateTimePickerMode {
    /// One date.
    Date,
    /// One time of day.
    Time,
    /// One date with a time.
    DateTime,
    /// A range of dates.
    DateRange,
    /// A range of times within a day.
    TimeRange,
    /// A range of date-times.
    DateTimeRange,
}

impl Default for DateTimePickerMode {
    /// Date selection, the lightest form entry.
    fn default() -> (m: Self)
        ensures
            m == DateTimePickerMode::Date,
    {
        DateTimePickerMode::Date
    }
}

/// A value of a picker.
#[derive(Clone, Copy, Debug, PartialEq, Eq, Structural)]
pub enum DateTimePickerValue {
    Date(CalendarDate),
    Time(ClockTime),
    DateTime(CalendarDateTime),
    DateRange(DateTimeRange<CalendarDate>),
    TimeRange(DateTimeRange<ClockTime>),
    DateTimeRange(DateTimeRange<CalendarDateTime>),
}

/// The mode a value belongs to.
pub open spec fn mode_of(value: DateTimePickerValue) -> DateTimePickerMode {
    match value {
        DateTimePickerValue::Date(_) => DateTimePickerMode::Date,
        DateTimePickerValue::Time(_) => DateTimePickerMode::Time,
        DateTimePickerValue::DateTime(_) => DateTimePickerMode::DateTime,
        DateTimePickerValue::DateRange(_) => DateTimePickerMode::DateRange,
        DateTimePickerValue::TimeRange(_) => DateTimePickerMode::TimeRange,
        DateTimePickerValue::DateTimeRange(_) => DateTimePickerMode::DateTimeRange,
    }
}

/// Whether every calendar value inside `value` exists.
pub open spec fn value_valid(value: DateTimePickerValue) -> bool {
    match value {
        DateTimePickerValue::Date(d) => d.is_valid(),
        DateTimePickerValue::Time(t) => t.is_valid(),
        DateTimePickerValue::DateTime(dt) => dt.is_valid(),
        DateTimePickerValue::DateRange(r) => r.start.is_valid() && r.end.is_valid(),
        DateTimePickerValue::TimeRange(r) => r.start.is_valid() && r.end.is_valid(),
        DateTimePickerValue::DateTimeRange(r) => r.start.is_valid() && r.end.is_valid(),
    }
}

/// Whether an optional value is absent or valid.
pub open spec fn optional_value_valid(value: Option<DateTimePickerValue>) -> bool {
    match value {
        Some(v) => value_valid(v),
        None => true,
    }
}

impl DateTimePickerValue {
    /// The mode this value belongs to.
    pub fn mode(&self) -> (m: DateTimePickerMode)
        ensures
            m == mode_of(*self),
    {
        match self {
            DateTimePickerValue::Date(_) => DateTimePickerMode::Date,
            DateTimePickerValue::Time(_) => DateTimePickerMode::Time,
            DateTimePickerValue::DateTime(_) => DateTimePickerMode::DateTime,
            DateTimePickerValue::DateRange(_) => DateTimePickerMode::DateRange,
            DateTimePickerValue::TimeRange(_) => DateTimePickerMode::TimeRange,
            DateTimePickerValue::DateTimeRange(_) => DateTimePickerMode::DateTimeRange,
        }
    }

    /// Whether this value belongs to `mode`.
    pub fn matches_mode(&self, mode: DateTimePickerMode) -> (r: bool)
        ensures
            r == (mode_of(*self) == mode),
    {
        self.mode() == mode
    }
}

/// Size of a picker.
#[derive(Clone, Copy, Debug, PartialEq, Eq, Structural)]
pub enum DateTimePickerSize {
    /// Table filters and dense toolbars.
    Small,
    /// Regular forms.
    Medium,
    /// Emphasised areas.
    Large,
}

impl Default for DateTimePickerSize {
    fn default() -> (s: Self)
        ensures
            s == DateTimePickerSize::Medium,
    {
        DateTimePickerSize::Medium
    }
}

/// Visual variant of a picker.
#[derive(Clone, Copy, Debug, PartialEq, Eq, Structural)]
pub enum DateTimePickerVariant {
    /// Bordered input.
    Outlined,
    /// Lightly filled input.
    Filled,
    /// Input with a faint border.
    Borderless,
}

impl Default for DateTimePickerVariant {
    fn default() -> (v: Self)
        ensures
            v == DateTimePickerVariant::Outlined,
    {
        DateTimePickerVariant::Outlined
    }
}

/// Semantic status of a picker.
#[derive(Clone, Copy, Debug, PartialEq, Eq, Structural)]
pub enum DateTimePickerStatus {
    Default,
    Error,
    Warning,
    Success,
}

impl Default for DateTimePickerStatus {
    fn default() -> (s: Self)
        ensures
            s == DateTimePickerStatus::Default,
    {
        DateTimePickerStatus::Default
    }
}

/// Creation parameters of a picker, without the disabled-value predicates and
/// the callbacks, which the host application attaches.
#[derive(Clone, Debug)]
pub struct DateTimePickerProps {
    /// Selection mode.
    pub mode: DateTimePickerMode,
    /// Initial value; one of another mode is dropped.
    pub value: Option<DateTimePickerValue>,
    /// Text shown while there is no value.
    pub placeholder: String,
    /// A disabled picker cannot be focused, typed into, opened, cleared or chosen from.
    pub disabled: bool,
    /// A read-only picker can be focused and opened, but not changed.
    pub readonly: bool,
    /// Whether the field is marked as required.
    pub required: bool,
    /// Whether a clear button is offered.
    pub clearable: bool,
    /// Smallest value that can be committed; values of another family are ignored.
    pub min: Option<DateTimePickerValue>,
    /// Largest value that can be committed; values of another family are ignored.
    pub max: Option<DateTimePickerValue>,
    /// strftime-style format of dates.
    pub date_format: String,
    /// strftime-style format of times.
    pub time_format: String,
    /// strftime-style format of date-times.
    pub datetime_format: String,
    /// Text between the two ends of a range.
    pub range_separator: String,
    /// Step of the minute column.
    pub minute_step: usize,
    /// Step of the second column.
    pub second_step: usize,
    /// Size.
    pub size: DateTimePickerSize,
    /// Visual variant.
    pub variant: DateTimePickerVariant,
    /// Semantic status.
    pub status: DateTimePickerStatus,
    /// Helper text under the field.
    pub helper_text: Option<String>,
    /// Text shown when the typed text cannot be committed.
    pub parse_error_text: String,
    /// Maximum height of the pop-up, in whole pixels.
    pub max_popup_height: u32,
}

impl DateTimePickerProps {
    /// The default parameters.
    pub fn new() -> (p: Self)
        ensures
            p.mode == DateTimePickerMode::Date,
            p.value is None,
            p.placeholder@ == "请选择日期"@,
            !p.disabled && !p.readonly && !p.required && p.clearable,
            p.min is None && p.max is None,
            p.date_format@ == "%Y-%m-%d"@,
            p.time_format@ == "%H:%M:%S"@,
            p.datetime_format@ == "%Y-%m-%d %H:%M:%S"@,
            p.range_separator@ == " ~ "@,
            p.minute_step == 1 && p.second_step == 1,
            p.size == DateTimePickerSize::Medium,
            p.variant == DateTimePickerVariant::Outlined,
            p.status == DateTimePickerStatus::Default,
            p.helper_text is None,
            p.parse_error_text@ == "日期时间格式不正确"@,
            p.max_popup_height == 440,
    {
        DateTimePickerProps {
            mode: DateTimePickerMode::Date,
            value: None,
            placeholder: "请选择日期".to_owned(),
            disabled: false,
            readonly: false,
            required: false,
            clearable: true,
            min: None,
            max: None,
            date_format: "%Y-%m-%d".to_owned(),
            time_format: "%H:%M:%S".to_owned(),
            datetime_format: "%Y-%m-%d %H:%M:%S".to_owned(),
            range_separator: " ~ ".to_owned(),
            minute_step: 1,
            second_step: 1,
            size: DateTimePickerSize::Medium,
            variant: DateTimePickerVariant::Outlined,
            status: DateTimePickerStatus::Default,
            helper_text: None,
            parse_error_text: "日期时间格式不正确".to_owned(),
            max_popup_height: 440,
        }
    }

    /// Sets the mode.
    pub fn mode(self, mode: DateTimePickerMode) -> (p: Self)
        ensures
            p == (Self { mode, ..self }),
    {
        Self { mode, ..self }
    }

    /// Sets the initial value.
    pub fn value(self, value: Option<DateTimePickerValue>) -> (p: Self)
        ensures
            p == (Self { value, ..self }),
    {
        Self { value, ..self }
    }

    /// Sets the placeholder.
    pub fn placeholder(self, placeholder: String) -> (p: Self)
        ensures
            p == (Self { placeholder, ..self }),
    {
        Self { placeholder, ..self }
    }

    /// Sets the disabled flag.
    pub fn disabled(self, disabled: bool) -> (p: Self)
        ensures
            p == (Self { disabled, ..self }),
    {
        Self { disabled, ..self }
    }

    /// Sets the read-only flag.
    pub fn readonly(self, readonly: bool) -> (p: Self)
        ensures
            p == (Self { readonly, ..self }),
    {
        Self { readonly, ..self }
    }

    /// Sets the required flag.
    pub fn required(self, required: bool) -> (p: Self)
        ensures
            p == (Self { required, ..self }),
    {
        Self { required, ..self }
    }

    /// Sets whether a clear button is offered.
    pub fn clearable(self, clearable: bool) -> (p: Self)
        ensures
            p == (Self { clearable, ..self }),
    {
        Self { clearable, ..self }
    }

    /// Sets the smallest committable value.
    pub fn min(self, min: Option<DateTimePickerValue>) -> (p: Self)
        ensures
            p == (Self { min, ..self }),
    {
        Self { min, ..self }
    }

    /// Sets the largest committable value.
    pub fn max(self, max: Option<DateTimePickerValue>) -> (p: Self)
        ensures
            p == (Self { max, ..self }),
    {
        Self { max, ..self }
    }

    /// Sets the date format.
    pub fn date_format(self, date_format: String) -> (p: Self)
        ensures
            p == (Self { date_format, ..self }),
    {
        Self { date_format, ..self }
    }

    /// Sets the time format.
    pub fn time_format(self, time_format: String) -> (p: Self)
        ensures
            p == (Self { time_format, ..self }),
    {
        Self { time_format, ..self }
    }

    /// Sets the date-time format.
    pub fn datetime_format(self, datetime_format: String) -> (p: Self)
        ensures
            p == (Self { datetime_format, ..self }),
    {
        Self { datetime_format, ..self }
    }

    /// Sets the range separator.
    pub fn range_separator(self, range_separator: String) -> (p: Self)
        ensures
            p == (Self { range_separator, ..self }),
    {
        Self { range_separator, ..self }
    }

    /// Sets the minute step.
    pub fn minute_step(self, minute_step: usize) -> (p: Self)
        ensures
            p == (Self { minute_step, ..self }),
    {
        Self { minute_step, ..self }
    }

    /// Sets the second step.
    pub fn second_step(self, second_step: usize) -> (p: Self)
        ensures
            p == (Self { second_step, ..self }),
    {
        Self { second_step, ..self }
    }

    /// Sets the size.
    pub fn size(self, size: DateTimePickerSize) -> (p: Self)
        ensures
            p == (Self { size, ..self }),
    {
        Self { size, ..self }
    }

    /// Sets the variant.
    pub fn variant(self, variant: DateTimePickerVariant) -> (p: Self)
        ensures
            p == (Self { variant, ..self }),
    {
        Self { variant, ..self }
    }

    /// Sets the status.
    pub fn status(self, status: DateTimePickerStatus) -> (p: Self)
        ensures
            p == (Self { status, ..self }),
    {
        Self { status, ..self }
    }

    /// Sets the helper text.
    pub fn helper_text(self, helper_text: Option<String>) -> (p: Self)
        ensures
            p == (Self { helper_text, ..self }),
    {
        Self { helper_text, ..self }
    }

    /// Sets the parse error text.
    pub fn parse_error_text(self, parse_error_text: String) -> (p: Self)
        ensures
            p == (Self { parse_error_text, ..self }),
    {
        Self { parse_error_text, ..self }
    }

    /// Sets the maximum pop-up height.
    pub fn max_popup_height(self, max_popup_height: u32) -> (p: Self)
        ensures
            p == (Self { max_popup_height, ..self }),
    {
        Self { max_popup_height, ..self }
    }
}

} // verus!
