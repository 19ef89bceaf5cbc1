//! State machine of `DateTimePicker`: committed value, typed text, draft of the
//! pop-up, calendar page and keyboard day, and what each operation changes.

use vstd::prelude::*;

use crate::text::strings_equal;

use super::calendar::{
    date_from_ymd, default_time, end_of_day_time, shift_date, shifted_date, today, ymd_valid,
    CalendarDate, CalendarDateTime, ClockTime, MAX_DAY_SHIFT,
};
use super::props::{
    mode_of, optional_value_valid, value_valid, DateTimePickerMode, DateTimePickerValue,
    DateTimeRange,
};
use super::rules::{
    calendar_date_from_value, calendar_date_of, constraints_callable, days_in_month,
    format_optional_value, month_after, month_days, month_days_defined, next_month,
    normalize_value_for_mode, optional_value_from_text, optional_value_text, ordered_range,
    parse_optional_value, value_allowed, value_fails, value_for_mode, value_ordered,
    value_passes, DateTimePickerConstraints, DateTimePickerFormats, DateTimePickerParseError,
};

verus! {

/// What an operation changed, so that the host knows whether to repaint and
/// which callbacks to fire.
#[derive(Clone, Copy, Debug, PartialEq, Eq, Structural)]
pub struct DateTimePickerStateOutcome {
    /// The committed value changed.
    pub value_changed: bool,
    /// The typed text changed.
    pub input_changed: bool,
    /// The open flag changed.
    pub open_changed: bool,
    /// The mode changed.
    pub mode_changed: bool,
    /// The draft of the pop-up changed (or was reset).
    pub draft_changed: bool,
    /// The calendar page changed.
    pub view_changed: bool,
    /// The keyboard day changed.
    pub active_date_changed: bool,
    /// The parse error flag changed.
    pub parse_error_changed: bool,
}

impl Default for DateTimePickerStateOutcome {
    fn default() -> (o: Self)
        ensures
            o == DateTimePickerStateOutcome::none(),
    {
        DateTimePickerStateOutcome {
            value_changed: false,
            input_changed: false,
            open_changed: false,
            mode_changed: false,
            draft_changed: false,
            view_changed: false,
            active_date_changed: false,
            parse_error_changed: false,
        }
    }
}

impl DateTimePickerStateOutcome {
    /// The outcome in which nothing changed.
    pub open spec fn none() -> Self {
        DateTimePickerStateOutcome {
            value_changed: false,
            input_changed: false,
            open_changed: false,
            mode_changed: false,
            draft_changed: false,
            view_changed: false,
            active_date_changed: false,
            parse_error_changed: false,
        }
    }

    /// Whether anything changed.
    pub open spec fn any(self) -> bool {
        self.value_changed || self.input_changed || self.open_changed || self.mode_changed
            || self.draft_changed || self.view_changed || self.active_date_changed
            || self.parse_error_changed
    }

    /// Field-wise disjunction of two outcomes.
    pub open spec fn spec_merge(self, other: Self) -> Self {
        DateTimePickerStateOutcome {
            value_changed: self.value_changed || other.value_changed,
            input_changed: self.input_changed || other.input_changed,
            open_changed: self.open_changed || other.open_changed,
            mode_changed: self.mode_changed || other.mode_changed,
            draft_changed: self.draft_changed || other.draft_changed,
            view_changed: self.view_changed || other.view_changed,
            active_date_changed: self.active_date_changed || other.active_date_changed,
            parse_error_changed: self.parse_error_changed || other.parse_error_changed,
        }
    }

    /// Whether the host has to repaint: true exactly when something changed.
    pub fn should_notify(self) -> (r: bool)
        ensures
            r == self.any(),
    {
        self.value_changed || self.input_changed || self.open_changed || self.mode_changed
            || self.draft_changed || self.view_changed || self.active_date_changed
            || self.parse_error_changed
    }

    /// Combines the outcomes of two consecutive operations.
    pub fn merge(self, other: Self) -> (r: Self)
        ensures
            r == self.spec_merge(other),
    {
        DateTimePickerStateOutcome {
            value_changed: self.value_changed || other.value_changed,
            input_changed: self.input_changed || other.input_changed,
            open_changed: self.open_changed || other.open_changed,
            mode_changed: self.mode_changed || other.mode_changed,
            draft_changed: self.draft_changed || other.draft_changed,
            view_changed: self.view_changed || other.view_changed,
            active_date_changed: self.active_date_changed || other.active_date_changed,
            parse_error_changed: self.parse_error_changed || other.parse_error_changed,
        }
    }
}

/// Merging outcomes is commutative, associative and idempotent, and a merged
/// outcome asks for a repaint exactly when one of its parts does.
pub proof fn lemma_outcome_merge_laws(
    a: DateTimePickerStateOutcome,
    b: DateTimePickerStateOutcome,
    c: DateTimePickerStateOutcome,
)
    ensures
        a.spec_merge(b) == b.spec_merge(a),
        a.spec_merge(b).spec_merge(c) == a.spec_merge(b.spec_merge(c)),
        a.spec_merge(a) == a,
        a.spec_merge(DateTimePickerStateOutcome::none()) == a,
        a.spec_merge(b).any() == (a.any() || b.any()),
{
}

/// Value being chosen in the pop-up, not yet committed. A range with only its
/// first end picked is never reported as a value.
#[derive(Clone, Copy, Debug, PartialEq, Eq, Structural)]
pub enum DateTimePickerDraft {
    /// Nothing picked.
    Empty,
    /// A complete value, committed on confirmation.
    Value(DateTimePickerValue),
    /// First day of a date range.
    DateRangeStart(CalendarDate),
    /// First time of a time range.
    TimeRangeStart(ClockTime),
    /// First date-time of a date-time range.
    DateTimeRangeStart(CalendarDateTime),
}

/// End of a time range that a time pick sets.
#[derive(Clone, Copy, Debug, PartialEq, Eq, Structural)]
pub enum DateTimePickerRangeEndpoint {
    /// The first end.
    Start,
    /// The last end.
    End,
}

/// The draft a committed value opens the pop-up with.
pub open spec fn draft_of(value: Option<DateTimePickerValue>) -> DateTimePickerDraft {
    match value {
        Some(v) => DateTimePickerDraft::Value(v),
        None => DateTimePickerDraft::Empty,
    }
}

/// Whether every calendar value of a draft exists.
pub open spec fn draft_valid(draft: DateTimePickerDraft) -> bool {
    match draft {
        DateTimePickerDraft::Empty => true,
        DateTimePickerDraft::Value(v) => value_valid(v),
        DateTimePickerDraft::DateRangeStart(d) => d.is_valid(),
        DateTimePickerDraft::TimeRangeStart(t) => t.is_valid(),
        DateTimePickerDraft::DateTimeRangeStart(dt) => dt.is_valid(),
    }
}

fn draft_from_value(value: Option<DateTimePickerValue>) -> (d: DateTimePickerDraft)
    ensures
        d == draft_of(value),
{
    match value {
        Some(v) => DateTimePickerDraft::Value(v),
        None => DateTimePickerDraft::Empty,
    }
}

fn same_value(a: &Option<DateTimePickerValue>, b: &Option<DateTimePickerValue>) -> (r: bool)
    ensures
        r == (*a == *b),
{
    match (a, b) {
        (Some(x), Some(y)) => *x == *y,
        (None, None) => true,
        _ => false,
    }
}

/// Core state of a picker.
#[derive(Debug)]
pub struct DateTimePickerState {
    mode: DateTimePickerMode,
    value: Option<DateTimePickerValue>,
    input_text: String,
    is_open: bool,
    draft: DateTimePickerDraft,
    view_year: i32,
    view_month: u32,
    active_date: CalendarDate,
    parse_error: bool,
}

/// What a picker state holds, as plain values.
pub struct DateTimePickerStateView {
    pub mode: DateTimePickerMode,
    /// Committed value.
    pub value: Option<DateTimePickerValue>,
    /// Text of the input field.
    pub input_text: Seq<char>,
    pub is_open: bool,
    pub draft: DateTimePickerDraft,
    /// Year of the calendar page.
    pub view_year: int,
    /// Month of the calendar page.
    pub view_month: int,
    /// Day the keyboard acts on.
    pub active_date: CalendarDate,
    /// Whether the last commit failed.
    pub parse_error: bool,
}

/// Whether a committed value fits the state: it exists, belongs to the mode
/// and, as a range, is ordered.
pub open spec fn value_fits(value: Option<DateTimePickerValue>, mode: DateTimePickerMode) -> bool {
    value matches Some(v) ==> value_valid(v) && mode_of(v) == mode && value_ordered(v)
}

/// The state after committing `value`, with the calendar page on `active`.
pub open spec fn committed_view(
    old: DateTimePickerStateView,
    value: Option<DateTimePickerValue>,
    formats: DateTimePickerFormats,
    active: CalendarDate,
) -> DateTimePickerStateView {
    DateTimePickerStateView {
        mode: old.mode,
        value,
        input_text: optional_value_text(value, old.mode, formats),
        is_open: old.is_open,
        draft: draft_of(value),
        view_year: active.year as int,
        view_month: active.month as int,
        active_date: active,
        parse_error: false,
    }
}

/// What a successful commit reports.
pub open spec fn commit_outcome(old: DateTimePickerStateView, new: DateTimePickerStateView) -> DateTimePickerStateOutcome {
    DateTimePickerStateOutcome {
        value_changed: old.value != new.value,
        input_changed: old.input_text != new.input_text,
        draft_changed: true,
        active_date_changed: old.active_date != new.active_date,
        parse_error_changed: old.parse_error,
        ..DateTimePickerStateOutcome::none()
    }
}

/// The state after a failed commit: only the error flag is raised.
pub open spec fn failed_view(old: DateTimePickerStateView) -> DateTimePickerStateView {
    DateTimePickerStateView { parse_error: true, ..old }
}

/// Whether a day lies on the calendar pages shown: the current month, and for
/// date and date-time ranges also the month after it.
pub open spec fn date_on_page(view: DateTimePickerStateView, date: CalendarDate) -> bool {
    ||| (date.year == view.view_year && date.month == view.view_month)
    ||| ((view.mode == DateTimePickerMode::DateRange || view.mode == DateTimePickerMode::DateTimeRange)
        && (date.year as int, date.month as int) == month_after(view.view_year, view.view_month))
}

/// The state after a day is clicked, before the pick itself: the keyboard day
/// moves to it, and the page follows only if the day is not shown already.
pub open spec fn focused_view(old: DateTimePickerStateView, date: CalendarDate) -> DateTimePickerStateView {
    if date_on_page(old, date) {
        DateTimePickerStateView { active_date: date, ..old }
    } else {
        DateTimePickerStateView {
            active_date: date,
            view_year: date.year as int,
            view_month: date.month as int,
            ..old
        }
    }
}

/// What moving the keyboard day and page reports.
pub open spec fn focus_outcome(old: DateTimePickerStateView, new: DateTimePickerStateView) -> DateTimePickerStateOutcome {
    DateTimePickerStateOutcome {
        active_date_changed: old.active_date != new.active_date,
        view_changed: old.view_year != new.view_year || old.view_month != new.view_month,
        ..DateTimePickerStateOutcome::none()
    }
}

/// The date-time of a complete date-time draft.
pub open spec fn draft_datetime_of(draft: DateTimePickerDraft) -> Option<CalendarDateTime> {
    match draft {
        DateTimePickerDraft::Value(DateTimePickerValue::DateTime(dt)) => Some(dt),
        _ => None,
    }
}

/// The date-time of a committed date-time value.
pub open spec fn value_datetime_of(value: Option<DateTimePickerValue>) -> Option<CalendarDateTime> {
    match value {
        Some(DateTimePickerValue::DateTime(dt)) => Some(dt),
        _ => None,
    }
}

/// The date-time the pop-up currently edits: the draft's, else the value's.
pub open spec fn current_datetime(view: DateTimePickerStateView) -> Option<CalendarDateTime> {
    match draft_datetime_of(view.draft) {
        Some(dt) => Some(dt),
        None => value_datetime_of(view.value),
    }
}

/// The draft after a day is picked, in the modes where a pick only drafts: a
/// date-time keeps the time it had (midnight if none); a date range or
/// date-time range takes the day as its first end, or completes the range
/// begun by the previous pick (a date-time range spans from midnight of the
/// first day to 23:59:59 of the last).
pub open spec fn draft_after_day_pick(view: DateTimePickerStateView, date: CalendarDate) -> DateTimePickerDraft {
    match view.mode {
        DateTimePickerMode::DateTime => {
            let time = match current_datetime(view) {
                Some(dt) => dt.time,
                None => ClockTime { hour: 0, minute: 0, second: 0, nanosecond: 0 },
            };
            DateTimePickerDraft::Value(DateTimePickerValue::DateTime(CalendarDateTime { date, time }))
        },
        DateTimePickerMode::DateRange => match view.draft {
            DateTimePickerDraft::DateRangeStart(start) => DateTimePickerDraft::Value(
                DateTimePickerValue::DateRange(ordered_range(start, date)),
            ),
            _ => DateTimePickerDraft::DateRangeStart(date),
        },
        DateTimePickerMode::DateTimeRange => match view.draft {
            DateTimePickerDraft::DateTimeRangeStart(start) => DateTimePickerDraft::Value(
                DateTimePickerValue::DateTimeRange(ordered_range(
                    start,
                    CalendarDateTime { date, time: ClockTime { hour: 23, minute: 59, second: 59, nanosecond: 0 } },
                )),
            ),
            _ => DateTimePickerDraft::DateTimeRangeStart(
                CalendarDateTime { date, time: ClockTime { hour: 0, minute: 0, second: 0, nanosecond: 0 } },
            ),
        },
        _ => view.draft,
    }
}

/// Picking a day changes only the day of what is being chosen. In date-time
/// mode the draft becomes that day at the time already chosen: the time of the
/// drafted date-time, else of the committed one, else midnight. In date-range
/// mode the first pick starts a range, and the next pick completes it with
/// the two picked days as its ends, earlier first.
pub proof fn lemma_day_pick_keeps_chosen_time(view: DateTimePickerStateView, date: CalendarDate)
    ensures
        view.mode == DateTimePickerMode::DateTime ==> (draft_after_day_pick(view, date) matches
            DateTimePickerDraft::Value(DateTimePickerValue::DateTime(dt)) && dt.date == date && ({
            match (view.draft, view.value) {
                (DateTimePickerDraft::Value(DateTimePickerValue::DateTime(d)), _) => dt.time == d.time,
                (_, Some(DateTimePickerValue::DateTime(v))) => dt.time == v.time,
                _ => dt.time == (ClockTime { hour: 0, minute: 0, second: 0, nanosecond: 0 }),
            }
        })),
        view.mode == DateTimePickerMode::DateRange ==> match view.draft {
            DateTimePickerDraft::DateRangeStart(first) => draft_after_day_pick(view, date) matches
                DateTimePickerDraft::Value(DateTimePickerValue::DateRange(r)) && r.start.not_after(r.end)
                && ((r.start == first && r.end == date) || (r.start == date && r.end == first)),
            _ => draft_after_day_pick(view, date) == DateTimePickerDraft::DateRangeStart(date),
        },
{
}

/// The draft after a time is picked; `today` is the day a date-time gets when
/// nothing gives one.
pub open spec fn draft_after_time_pick(
    view: DateTimePickerStateView,
    time: ClockTime,
    endpoint: DateTimePickerRangeEndpoint,
    today: CalendarDate,
) -> DateTimePickerDraft {
    match view.mode {
        DateTimePickerMode::Time => DateTimePickerDraft::Value(DateTimePickerValue::Time(time)),
        DateTimePickerMode::DateTime => {
            let date = match current_datetime(view) {
                Some(dt) => dt.date,
                None => today,
            };
            DateTimePickerDraft::Value(DateTimePickerValue::DateTime(CalendarDateTime { date, time }))
        },
        DateTimePickerMode::TimeRange => match (view.draft, endpoint) {
            (DateTimePickerDraft::Value(DateTimePickerValue::TimeRange(r)), DateTimePickerRangeEndpoint::Start) =>
                DateTimePickerDraft::Value(DateTimePickerValue::TimeRange(ordered_range(time, r.end))),
            (DateTimePickerDraft::Value(DateTimePickerValue::TimeRange(r)), DateTimePickerRangeEndpoint::End) =>
                DateTimePickerDraft::Value(DateTimePickerValue::TimeRange(ordered_range(r.start, time))),
            (DateTimePickerDraft::TimeRangeStart(start), DateTimePickerRangeEndpoint::End) =>
                DateTimePickerDraft::Value(DateTimePickerValue::TimeRange(ordered_range(start, time))),
            _ => DateTimePickerDraft::TimeRangeStart(time),
        },
        DateTimePickerMode::DateTimeRange => match (view.draft, endpoint) {
            (DateTimePickerDraft::Value(DateTimePickerValue::DateTimeRange(r)), DateTimePickerRangeEndpoint::Start) =>
                DateTimePickerDraft::Value(DateTimePickerValue::DateTimeRange(
                    ordered_range(CalendarDateTime { date: r.start.date, time }, r.end),
                )),
            (DateTimePickerDraft::Value(DateTimePickerValue::DateTimeRange(r)), DateTimePickerRangeEndpoint::End) =>
                DateTimePickerDraft::Value(DateTimePickerValue::DateTimeRange(
                    ordered_range(r.start, CalendarDateTime { date: r.end.date, time }),
                )),
            (DateTimePickerDraft::DateTimeRangeStart(start), DateTimePickerRangeEndpoint::End) =>
                DateTimePickerDraft::Value(DateTimePickerValue::DateTimeRange(
                    ordered_range(start, CalendarDateTime { date: start.date, time }),
                )),
            _ => DateTimePickerDraft::DateTimeRangeStart(CalendarDateTime { date: today, time }),
        },
        _ => view.draft,
    }
}

/// Year and month `delta` months after the page of `view`.
pub open spec fn page_after_months(view: DateTimePickerStateView, delta: int) -> (int, int) {
    let total = view.view_year * 12 + view.view_month - 1 + delta;
    (total / 12, total % 12 + 1)
}

/// Whether moving the page by `delta` months stays within the year type at
/// every step of the computation.
pub open spec fn month_move_fits(view: DateTimePickerStateView, delta: int) -> bool {
    let a = view.view_year * 12;
    &&& i32::MIN <= a && a + view.view_month <= i32::MAX
    &&& i32::MIN <= a + view.view_month - 1 + delta <= i32::MAX
}

impl View for DateTimePickerState {
    type V = DateTimePickerStateView;

    closed spec fn view(&self) -> DateTimePickerStateView {
        DateTimePickerStateView {
            mode: self.mode,
            value: self.value,
            input_text: self.input_text@,
            is_open: self.is_open,
            draft: self.draft,
            view_year: self.view_year as int,
            view_month: self.view_month as int,
            active_date: self.active_date,
            parse_error: self.parse_error,
        }
    }
}

impl DateTimePickerState {
    #[verifier::type_invariant]
    spec fn well_formed(self) -> bool {
        &&& value_fits(self.value, self.mode)
        &&& draft_valid(self.draft)
        &&& self.active_date.is_valid()
        &&& 1 <= self.view_month <= 12
    }

    /// A picker in `mode` showing `value`; a value of another mode is dropped
    /// and a range is ordered. The page and the keyboard day start on the
    /// value's day, or today.
    pub fn new(
        mode: DateTimePickerMode,
        value: Option<DateTimePickerValue>,
        formats: &DateTimePickerFormats,
    ) -> (s: Self)
        requires
            optional_value_valid(value),
        ensures
            s@.mode == mode,
            s@.value == value_for_mode(value, mode),
            s@.input_text == optional_value_text(s@.value, mode, *formats),
            !s@.is_open,
            s@.draft == draft_of(s@.value),
            !s@.parse_error,
            calendar_date_of(s@.value) matches Some(d) ==> s@.active_date == d,
            s@.view_year == s@.active_date.year && s@.view_month == s@.active_date.month,
    {
        let value = normalize_value_for_mode(value, mode);
        let page = calendar_date_from_value(&value);
        let active_date = page;
        DateTimePickerState {
            mode,
            input_text: format_optional_value(value, mode, formats),
            draft: draft_from_value(value),
            value,
            is_open: false,
            view_year: page.year,
            view_month: page.month,
            active_date,
            parse_error: false,
        }
    }

    /// The mode.
    pub fn mode(&self) -> (m: DateTimePickerMode)
        ensures
            m == self@.mode,
    {
        self.mode
    }

    /// The committed value: it exists, belongs to the mode and, as a range, is
    /// ordered.
    pub fn value(&self) -> (r: Option<&DateTimePickerValue>)
        ensures
            match r {
                Some(v) => self@.value == Some(*v),
                None => self@.value is None,
            },
            value_fits(self@.value, self@.mode),
    {
        proof {
            use_type_invariant(self);
        }
        self.value.as_ref()
    }

    /// A copy of the committed value.
    pub fn value_cloned(&self) -> (r: Option<DateTimePickerValue>)
        ensures
            r == self@.value,
    {
        self.value
    }

    /// The typed text.
    pub fn input_text(&self) -> (r: &str)
        ensures
            r@ == self@.input_text,
    {
        self.input_text.as_str()
    }

    /// Whether the pop-up is open.
    pub fn is_open(&self) -> (r: bool)
        ensures
            r == self@.is_open,
    {
        self.is_open
    }

    /// The draft of the pop-up.
    pub fn draft(&self) -> (r: &DateTimePickerDraft)
        ensures
            *r == self@.draft,
    {
        &self.draft
    }

    /// Year of the calendar page.
    pub fn view_year(&self) -> (r: i32)
        ensures
            r == self@.view_year,
    {
        self.view_year
    }

    /// Month of the calendar page, 1 to 12.
    pub fn view_month(&self) -> (r: u32)
        ensures
            r == self@.view_month,
            1 <= r <= 12,
    {
        proof {
            use_type_invariant(self);
        }
        self.view_month
    }

    /// The day the keyboard acts on. It is not the committed value: moving it
    /// only moves the focus; Enter or a click drafts or commits.
    pub fn active_date(&self) -> (r: CalendarDate)
        ensures
            r == self@.active_date,
            r.is_valid(),
    {
        proof {
            use_type_invariant(self);
        }
        self.active_date
    }

    /// Whether the last commit failed.
    pub fn has_parse_error(&self) -> (r: bool)
        ensures
            r == self@.parse_error,
    {
        self.parse_error
    }

    /// The helper text shown under the field: the parse-error text while the
    /// typed text is refused, otherwise the configured helper text.
    pub fn helper_text_shown(&self, helper_text: &Option<String>, parse_error_text: &String) -> (r:
        Option<String>)
        ensures
            self@.parse_error ==> r == Some(*parse_error_text),
            !self@.parse_error ==> r == *helper_text,
    {
        if self.parse_error {
            Some(parse_error_text.clone())
        } else {
            match helper_text {
                Some(t) => Some(t.clone()),
                None => None,
            }
        }
    }
}

impl DateTimePickerState {
    /// Replaces the committed value from outside, without an interaction: the
    /// value is kept for the mode, the text, draft, page and keyboard day follow
    /// it and the error flag is cleared.
    pub fn set_value_silent(
        &mut self,
        value: Option<DateTimePickerValue>,
        formats: &DateTimePickerFormats,
    ) -> (o: DateTimePickerStateOutcome)
        requires
            optional_value_valid(value),
        ensures
            ({
                let (a, b) = (old(self)@, final(self)@);
                &&& b.mode == a.mode
                &&& b.value == value_for_mode(value, a.mode)
                &&& b.input_text == optional_value_text(b.value, a.mode, *formats)
                &&& b.is_open == a.is_open
                &&& b.draft == draft_of(b.value)
                &&& !b.parse_error
                &&& (calendar_date_of(b.value) matches Some(d) ==> b.active_date == d)
                &&& b.view_year == b.active_date.year && b.view_month == b.active_date.month
                &&& o == (DateTimePickerStateOutcome {
                    value_changed: a.value != b.value,
                    input_changed: a.input_text != b.input_text,
                    draft_changed: a.value != b.value,
                    view_changed: a.view_year != b.view_year || a.view_month != b.view_month,
                    active_date_changed: a.active_date != b.active_date,
                    parse_error_changed: a.parse_error,
                    ..DateTimePickerStateOutcome::none()
                })
            }),
    {
        let value = normalize_value_for_mode(value, self.mode);
        let input_text = format_optional_value(value, self.mode, formats);
        let value_changed = !same_value(&self.value, &value);
        let input_changed = !strings_equal(&self.input_text, &input_text);
        let parse_error_changed = self.parse_error;
        let page = calendar_date_from_value(&value);
        let view_changed = self.view_year != page.year || self.view_month != page.month;
        let active_date = page;
        let active_date_changed = self.active_date != active_date;
        *self = DateTimePickerState {
            mode: self.mode,
            value,
            input_text,
            is_open: self.is_open,
            draft: draft_from_value(value),
            view_year: page.year,
            view_month: page.month,
            active_date,
            parse_error: false,
        };
        DateTimePickerStateOutcome {
            value_changed,
            input_changed,
            open_changed: false,
            mode_changed: false,
            draft_changed: value_changed,
            view_changed,
            active_date_changed,
            parse_error_changed,
        }
    }

    /// Changes the mode from outside: a value of another mode is dropped, the
    /// text, draft and keyboard day follow the kept value, the page stays and
    /// the error flag is cleared.
    pub fn set_mode_silent(
        &mut self,
        mode: DateTimePickerMode,
        formats: &DateTimePickerFormats,
    ) -> (o: DateTimePickerStateOutcome)
        ensures
            ({
                let (a, b) = (old(self)@, final(self)@);
                &&& b.mode == mode
                &&& b.value == value_for_mode(a.value, mode)
                &&& b.input_text == optional_value_text(b.value, mode, *formats)
                &&& b.is_open == a.is_open
                &&& b.draft == draft_of(b.value)
                &&& b.view_year == a.view_year && b.view_month == a.view_month
                &&& !b.parse_error
                &&& (calendar_date_of(b.value) matches Some(d) ==> b.active_date == d)
                &&& o == (DateTimePickerStateOutcome {
                    value_changed: a.value != b.value,
                    input_changed: a.input_text != b.input_text,
                    mode_changed: a.mode != b.mode,
                    draft_changed: true,
                    active_date_changed: a.active_date != b.active_date,
                    parse_error_changed: a.parse_error,
                    ..DateTimePickerStateOutcome::none()
                })
            }),
    {
        proof {
            use_type_invariant(&*self);
        }
        let value = normalize_value_for_mode(self.value, mode);
        let input_text = format_optional_value(value, mode, formats);
        let value_changed = !same_value(&self.value, &value);
        let input_changed = !strings_equal(&self.input_text, &input_text);
        let mode_changed = self.mode != mode;
        let active_date = calendar_date_from_value(&value);
        let active_date_changed = self.active_date != active_date;
        let parse_error_changed = self.parse_error;
        *self = DateTimePickerState {
            mode,
            value,
            input_text,
            is_open: self.is_open,
            draft: draft_from_value(value),
            view_year: self.view_year,
            view_month: self.view_month,
            active_date,
            parse_error: false,
        };
        DateTimePickerStateOutcome {
            value_changed,
            input_changed,
            open_changed: false,
            mode_changed,
            draft_changed: true,
            view_changed: false,
            active_date_changed,
            parse_error_changed,
        }
    }

    /// Replaces the typed text from outside; nothing else changes.
    pub fn set_input_text_silent(&mut self, input_text: String) -> (o: DateTimePickerStateOutcome)
        ensures
            final(self)@ == (DateTimePickerStateView { input_text: input_text@, ..old(self)@ }),
            o == (DateTimePickerStateOutcome {
                input_changed: old(self)@.input_text != input_text@,
                ..DateTimePickerStateOutcome::none()
            }),
    {
        proof {
            use_type_invariant(&*self);
        }
        let input_changed = !strings_equal(&self.input_text, &input_text);
        self.input_text = input_text;
        DateTimePickerStateOutcome { input_changed, ..DateTimePickerStateOutcome::default() }
    }

    /// Opens the pop-up: the draft starts from the committed value, and the
    /// keyboard day and page go to the value's day, or today.
    pub fn open(&mut self) -> (o: DateTimePickerStateOutcome)
        ensures
            ({
                let (a, b) = (old(self)@, final(self)@);
                &&& b == (DateTimePickerStateView {
                    is_open: true,
                    draft: draft_of(a.value),
                    active_date: b.active_date,
                    view_year: b.active_date.year as int,
                    view_month: b.active_date.month as int,
                    ..a
                })
                &&& (calendar_date_of(a.value) matches Some(d) ==> b.active_date == d)
                &&& o == (DateTimePickerStateOutcome {
                    open_changed: !a.is_open,
                    draft_changed: true,
                    active_date_changed: a.active_date != b.active_date,
                    ..DateTimePickerStateOutcome::none()
                })
            }),
    {
        proof {
            use_type_invariant(&*self);
        }
        let open_changed = !self.is_open;
        let active_date = calendar_date_from_value(&self.value);
        let active_date_changed = self.active_date != active_date;
        self.is_open = true;
        self.draft = draft_from_value(self.value);
        self.active_date = active_date;
        self.view_year = active_date.year;
        self.view_month = active_date.month;
        DateTimePickerStateOutcome {
            open_changed,
            draft_changed: true,
            active_date_changed,
            ..DateTimePickerStateOutcome::default()
        }
    }

    /// Closes the pop-up and drops the draft; the text shows the committed
    /// value again.
    pub fn close_discard(&mut self, formats: &DateTimePickerFormats) -> (o: DateTimePickerStateOutcome)
        ensures
            ({
                let (a, b) = (old(self)@, final(self)@);
                &&& b == (DateTimePickerStateView {
                    is_open: false,
                    draft: draft_of(a.value),
                    input_text: optional_value_text(a.value, a.mode, *formats),
                    ..a
                })
                &&& o == (DateTimePickerStateOutcome {
                    open_changed: a.is_open,
                    draft_changed: true,
                    input_changed: a.input_text != b.input_text,
                    ..DateTimePickerStateOutcome::none()
                })
            }),
    {
        proof {
            use_type_invariant(&*self);
        }
        let open_changed = self.is_open;
        let input_text = format_optional_value(self.value, self.mode, formats);
        let input_changed = !strings_equal(&self.input_text, &input_text);
        self.is_open = false;
        self.draft = draft_from_value(self.value);
        self.input_text = input_text;
        DateTimePickerStateOutcome {
            open_changed,
            draft_changed: true,
            input_changed,
            ..DateTimePickerStateOutcome::default()
        }
    }

    /// Closes an open pop-up (dropping the draft, as `close_discard`), opens a
    /// closed one (as `open`).
    pub fn toggle(&mut self, formats: &DateTimePickerFormats) -> (o: DateTimePickerStateOutcome)
        ensures
            ({
                let (a, b) = (old(self)@, final(self)@);
                &&& a.is_open ==> b == (DateTimePickerStateView {
                    is_open: false,
                    draft: draft_of(a.value),
                    input_text: optional_value_text(a.value, a.mode, *formats),
                    ..a
                }) && o == (DateTimePickerStateOutcome {
                    open_changed: true,
                    draft_changed: true,
                    input_changed: a.input_text != b.input_text,
                    ..DateTimePickerStateOutcome::none()
                })
                &&& !a.is_open ==> b == (DateTimePickerStateView {
                    is_open: true,
                    draft: draft_of(a.value),
                    active_date: b.active_date,
                    view_year: b.active_date.year as int,
                    view_month: b.active_date.month as int,
                    ..a
                }) && (calendar_date_of(a.value) matches Some(d) ==> b.active_date == d)
                && o == (DateTimePickerStateOutcome {
                    open_changed: true,
                    draft_changed: true,
                    active_date_changed: a.active_date != b.active_date,
                    ..DateTimePickerStateOutcome::none()
                })
            }),
    {
        if self.is_open {
            self.close_discard(formats)
        } else {
            self.open()
        }
    }

    /// Clears the value and the text; the keyboard day and page go to today.
    pub fn clear(&mut self) -> (o: DateTimePickerStateOutcome)
        ensures
            ({
                let (a, b) = (old(self)@, final(self)@);
                &&& b == (DateTimePickerStateView {
                    value: None,
                    input_text: Seq::empty(),
                    draft: DateTimePickerDraft::Empty,
                    parse_error: false,
                    active_date: b.active_date,
                    view_year: b.active_date.year as int,
                    view_month: b.active_date.month as int,
                    ..a
                })
                &&& b.active_date.is_valid()
                &&& o == (DateTimePickerStateOutcome {
                    value_changed: a.value is Some,
                    input_changed: a.input_text.len() > 0,
                    draft_changed: true,
                    active_date_changed: a.active_date != b.active_date,
                    parse_error_changed: a.parse_error,
                    ..DateTimePickerStateOutcome::none()
                })
            }),
    {
        proof {
            use_type_invariant(&*self);
        }
        let value_changed = self.value.is_some();
        let input_changed = !self.input_text.as_str().is_empty();
        let parse_error_changed = self.parse_error;
        let active_date = today();
        let active_date_changed = self.active_date != active_date;
        self.value = None;
        self.input_text = String::new();
        self.draft = DateTimePickerDraft::Empty;
        self.parse_error = false;
        self.active_date = active_date;
        self.view_year = active_date.year;
        self.view_month = active_date.month;
        DateTimePickerStateOutcome {
            value_changed,
            input_changed,
            draft_changed: true,
            active_date_changed,
            parse_error_changed,
            ..DateTimePickerStateOutcome::default()
        }
    }
}

impl DateTimePickerState {
    /// Commits a complete value if the constraints allow it: the value, text,
    /// draft, keyboard day and page follow it and the error flag is cleared.
    /// A refused value changes nothing but raises the error flag.
    fn commit_value<F: Fn(CalendarDate) -> bool, G: Fn(ClockTime) -> bool>(
        &mut self,
        value: DateTimePickerValue,
        formats: &DateTimePickerFormats,
        constraints: &DateTimePickerConstraints<F, G>,
    ) -> (r: Result<DateTimePickerStateOutcome, DateTimePickerParseError>)
        requires
            value_valid(value),
            constraints_callable(*constraints),
        ensures
            ({
                let (a, b) = (old(self)@, final(self)@);
                match r {
                    Err(e) => e == DateTimePickerParseError::DisabledValue
                        && value_fails(*constraints, value) && b == failed_view(a),
                    Ok(o) => value_passes(*constraints, value)
                        && b == committed_view(a, value_for_mode(Some(value), a.mode), *formats, b.active_date)
                        && (calendar_date_of(b.value) matches Some(d) ==> b.active_date == d)
                        && o == commit_outcome(a, b),
                }
            }),
    {
        proof {
            use_type_invariant(&*self);
        }
        if !value_allowed(&value, constraints) {
            self.parse_error = true;
            return Err(DateTimePickerParseError::DisabledValue);
        }
        let value = normalize_value_for_mode(Some(value), self.mode);
        Ok(self.adopt_value(value, formats))
    }

    /// Takes `value` as the committed value, with text, draft, keyboard day and
    /// page following it.
    fn adopt_value(
        &mut self,
        value: Option<DateTimePickerValue>,
        formats: &DateTimePickerFormats,
    ) -> (o: DateTimePickerStateOutcome)
        requires
            value_fits(value, old(self)@.mode),
        ensures
            final(self)@ == committed_view(old(self)@, value, *formats, final(self)@.active_date),
            calendar_date_of(value) matches Some(d) ==> final(self)@.active_date == d,
            o == commit_outcome(old(self)@, final(self)@),
    {
        proof {
            use_type_invariant(&*self);
        }
        let input_text = format_optional_value(value, self.mode, formats);
        let value_changed = !same_value(&self.value, &value);
        let input_changed = !strings_equal(&self.input_text, &input_text);
        let parse_error_changed = self.parse_error;
        let active_date = calendar_date_from_value(&value);
        let active_date_changed = self.active_date != active_date;
        *self = DateTimePickerState {
            mode: self.mode,
            value,
            input_text,
            is_open: self.is_open,
            draft: draft_from_value(value),
            view_year: active_date.year,
            view_month: active_date.month,
            active_date,
            parse_error: false,
        };
        DateTimePickerStateOutcome {
            value_changed,
            input_changed,
            draft_changed: true,
            active_date_changed,
            parse_error_changed,
            ..DateTimePickerStateOutcome::default()
        }
    }

    /// Parses the typed text and commits it: a blank text commits no value. A
    /// text that does not parse, or a value the constraints refuse, changes
    /// nothing but raises the error flag.
    pub fn commit_input<F: Fn(CalendarDate) -> bool, G: Fn(ClockTime) -> bool>(
        &mut self,
        formats: &DateTimePickerFormats,
        constraints: &DateTimePickerConstraints<F, G>,
    ) -> (r: Result<DateTimePickerStateOutcome, DateTimePickerParseError>)
        requires
            constraints_callable(*constraints),
        ensures
            ({
                let (a, b) = (old(self)@, final(self)@);
                let parsed = optional_value_from_text(a.input_text, a.mode, *formats);
                match r {
                    Err(e) => b == failed_view(a) && match parsed {
                        Err(pe) => e == pe,
                        Ok(Some(v)) => e == DateTimePickerParseError::DisabledValue && value_fails(*constraints, v),
                        Ok(None) => false,
                    },
                    Ok(o) => parsed matches Ok(p)
                        && (p matches Some(v) ==> value_passes(*constraints, v))
                        && b == committed_view(a, p, *formats, b.active_date)
                        && (calendar_date_of(p) matches Some(d) ==> b.active_date == d)
                        && o == commit_outcome(a, b),
                }
            }),
    {
        proof {
            use_type_invariant(&*self);
        }
        let parsed = match parse_optional_value(self.input_text.as_str(), self.mode, formats) {
            Ok(p) => p,
            Err(e) => {
                self.parse_error = true;
                return Err(e);
            },
        };
        if let Some(value) = &parsed {
            if !value_allowed(value, constraints) {
                self.parse_error = true;
                return Err(DateTimePickerParseError::DisabledValue);
            }
        }
        Ok(self.adopt_value(parsed, formats))
    }

    /// Whether the keyboard day is on the calendar pages shown.
    fn active_date_visible_in_current_panel(&self) -> (r: bool)
        requires
            (self@.active_date.year != self@.view_year || self@.active_date.month != self@.view_month)
                && (self@.mode == DateTimePickerMode::DateRange || self@.mode == DateTimePickerMode::DateTimeRange)
                && self@.view_month >= 12 ==> self@.view_year < i32::MAX,
        ensures
            r == date_on_page(self@, self@.active_date),
    {
        if self.active_date.year == self.view_year && self.active_date.month == self.view_month {
            return true;
        }
        match self.mode {
            DateTimePickerMode::DateRange | DateTimePickerMode::DateTimeRange => {
                let (next_year, next_month) = next_month(self.view_year, self.view_month);
                self.active_date.year == next_year && self.active_date.month == next_month
            },
            _ => false,
        }
    }

    /// A day is clicked. The keyboard day moves to it and the page follows if
    /// the day is not shown (a range shows two months). A date is committed at
    /// once; a date-time, date range or date-time range is drafted, to be
    /// committed on confirmation; time modes pick no day, and report only the
    /// move of the keyboard day and the page.
    pub fn select_date<F: Fn(CalendarDate) -> bool, G: Fn(ClockTime) -> bool>(
        &mut self,
        date: CalendarDate,
        formats: &DateTimePickerFormats,
        constraints: &DateTimePickerConstraints<F, G>,
    ) -> (r: Result<DateTimePickerStateOutcome, DateTimePickerParseError>)
        requires
            date.is_valid(),
            constraints_callable(*constraints),
            (date.year != old(self)@.view_year || date.month != old(self)@.view_month)
                && (old(self)@.mode == DateTimePickerMode::DateRange
                    || old(self)@.mode == DateTimePickerMode::DateTimeRange)
                && old(self)@.view_month >= 12 ==> old(self)@.view_year < i32::MAX,
        ensures
            ({
                let (a, b) = (old(self)@, final(self)@);
                let f = focused_view(a, date);
                let picked = DateTimePickerValue::Date(date);
                match a.mode {
                    DateTimePickerMode::Date => match r {
                        Err(e) => e == DateTimePickerParseError::DisabledValue
                            && value_fails(*constraints, picked) && b == failed_view(f),
                        Ok(o) => value_passes(*constraints, picked)
                            && b == committed_view(f, Some(picked), *formats, date)
                            && o == commit_outcome(f, b).spec_merge(focus_outcome(a, f)),
                    },
                    DateTimePickerMode::Time | DateTimePickerMode::TimeRange =>
                        b == f && r == Ok::<DateTimePickerStateOutcome, DateTimePickerParseError>(focus_outcome(a, f)),
                    _ => b == (DateTimePickerStateView { draft: draft_after_day_pick(a, date), ..f })
                        && r == Ok::<DateTimePickerStateOutcome, DateTimePickerParseError>(DateTimePickerStateOutcome {
                            draft_changed: a.draft != b.draft,
                            ..focus_outcome(a, f)
                        }),
                }
            }),
    {
        proof {
            use_type_invariant(&*self);
        }
        let before_draft = self.draft;
        let before_active = self.active_date;
        let before_year = self.view_year;
        let before_month = self.view_month;
        self.active_date = date;
        if !self.active_date_visible_in_current_panel() {
            self.view_year = date.year;
            self.view_month = date.month;
        }
        let focus = DateTimePickerStateOutcome {
            active_date_changed: self.active_date != before_active,
            view_changed: self.view_year != before_year || self.view_month != before_month,
            ..DateTimePickerStateOutcome::default()
        };
        match self.mode {
            DateTimePickerMode::Date => match self.commit_value(DateTimePickerValue::Date(date), formats, constraints) {
                Ok(outcome) => Ok(outcome.merge(focus)),
                Err(e) => Err(e),
            },
            DateTimePickerMode::DateTime => {
                let time = match self.current_datetime() {
                    Some(dt) => dt.time,
                    None => default_time(),
                };
                self.draft = DateTimePickerDraft::Value(
                    DateTimePickerValue::DateTime(CalendarDateTime { date, time }),
                );
                Ok(DateTimePickerStateOutcome { draft_changed: self.draft != before_draft, ..focus })
            },
            DateTimePickerMode::DateRange => {
                self.draft = match self.draft {
                    DateTimePickerDraft::DateRangeStart(start) => DateTimePickerDraft::Value(
                        DateTimePickerValue::DateRange(DateTimeRange::new(start, date)),
                    ),
                    _ => DateTimePickerDraft::DateRangeStart(date),
                };
                Ok(DateTimePickerStateOutcome { draft_changed: self.draft != before_draft, ..focus })
            },
            DateTimePickerMode::DateTimeRange => {
                self.draft = match self.draft {
                    DateTimePickerDraft::DateTimeRangeStart(start) => {
                        let end = CalendarDateTime { date, time: end_of_day_time() };
                        DateTimePickerDraft::Value(
                            DateTimePickerValue::DateTimeRange(DateTimeRange::new(start, end)),
                        )
                    },
                    _ => DateTimePickerDraft::DateTimeRangeStart(
                        CalendarDateTime { date, time: default_time() },
                    ),
                };
                Ok(DateTimePickerStateOutcome { draft_changed: self.draft != before_draft, ..focus })
            },
            DateTimePickerMode::Time | DateTimePickerMode::TimeRange => Ok(focus),
        }
    }

    /// The date-time the pop-up currently edits: the draft's, else the value's.
    fn current_datetime(&self) -> (r: Option<CalendarDateTime>)
        ensures
            r == current_datetime(self@),
            r matches Some(dt) ==> dt.is_valid(),
    {
        proof {
            use_type_invariant(self);
        }
        match &self.draft {
            DateTimePickerDraft::Value(DateTimePickerValue::DateTime(dt)) => Some(*dt),
            _ => match &self.value {
                Some(DateTimePickerValue::DateTime(dt)) => Some(*dt),
                _ => None,
            },
        }
    }

    /// A time is picked for `endpoint`. A time is drafted; a date-time keeps
    /// the day it had (today if none); a time range or date-time range sets the
    /// chosen end, or starts a range, and is kept ordered; date modes pick no time.
    pub fn select_time(&mut self, time: ClockTime, endpoint: DateTimePickerRangeEndpoint) -> (o: DateTimePickerStateOutcome)
        requires
            time.is_valid(),
        ensures
            exists|t: CalendarDate| #![trigger draft_after_time_pick(old(self)@, time, endpoint, t)]
                t.is_valid() && final(self)@ == (DateTimePickerStateView {
                    draft: draft_after_time_pick(old(self)@, time, endpoint, t),
                    ..old(self)@
                }),
            o == (DateTimePickerStateOutcome {
                draft_changed: old(self)@.draft != final(self)@.draft,
                ..DateTimePickerStateOutcome::none()
            }),
    {
        proof {
            use_type_invariant(&*self);
        }
        let before_draft = self.draft;
        let ghost mut fallback = self.active_date;
        match self.mode {
            DateTimePickerMode::Time => {
                self.draft = DateTimePickerDraft::Value(DateTimePickerValue::Time(time));
            },
            DateTimePickerMode::DateTime => {
                let date = match self.current_datetime() {
                    Some(dt) => dt.date,
                    None => {
                        let t = today();
                        proof {
                            fallback = t;
                        }
                        t
                    },
                };
                self.draft = DateTimePickerDraft::Value(
                    DateTimePickerValue::DateTime(CalendarDateTime { date, time }),
                );
            },
            DateTimePickerMode::TimeRange => {
                self.draft = match (self.draft, endpoint) {
                    (DateTimePickerDraft::Value(DateTimePickerValue::TimeRange(r)), DateTimePickerRangeEndpoint::Start) =>
                        DateTimePickerDraft::Value(DateTimePickerValue::TimeRange(DateTimeRange::new(time, r.end))),
                    (DateTimePickerDraft::Value(DateTimePickerValue::TimeRange(r)), DateTimePickerRangeEndpoint::End) =>
                        DateTimePickerDraft::Value(DateTimePickerValue::TimeRange(DateTimeRange::new(r.start, time))),
                    (DateTimePickerDraft::TimeRangeStart(start), DateTimePickerRangeEndpoint::End) =>
                        DateTimePickerDraft::Value(DateTimePickerValue::TimeRange(DateTimeRange::new(start, time))),
                    _ => DateTimePickerDraft::TimeRangeStart(time),
                };
            },
            DateTimePickerMode::DateTimeRange => {
                let next = match (self.draft, endpoint) {
                    (DateTimePickerDraft::Value(DateTimePickerValue::DateTimeRange(r)), DateTimePickerRangeEndpoint::Start) =>
                        DateTimePickerDraft::Value(DateTimePickerValue::DateTimeRange(
                            DateTimeRange::new(CalendarDateTime { date: r.start.date, time }, r.end),
                        )),
                    (DateTimePickerDraft::Value(DateTimePickerValue::DateTimeRange(r)), DateTimePickerRangeEndpoint::End) =>
                        DateTimePickerDraft::Value(DateTimePickerValue::DateTimeRange(
                            DateTimeRange::new(r.start, CalendarDateTime { date: r.end.date, time }),
                        )),
                    (DateTimePickerDraft::DateTimeRangeStart(start), DateTimePickerRangeEndpoint::End) =>
                        DateTimePickerDraft::Value(DateTimePickerValue::DateTimeRange(
                            DateTimeRange::new(start, CalendarDateTime { date: start.date, time }),
                        )),
                    _ => {
                        let t = today();
                        proof {
                            fallback = t;
                        }
                        DateTimePickerDraft::DateTimeRangeStart(CalendarDateTime { date: t, time })
                    },
                };
                self.draft = next;
            },
            DateTimePickerMode::Date | DateTimePickerMode::DateRange => {},
        }
        assert(draft_after_time_pick(old(self)@, time, endpoint, fallback) == self@.draft);
        DateTimePickerStateOutcome { draft_changed: self.draft != before_draft, ..DateTimePickerStateOutcome::default() }
    }
}

impl DateTimePickerState {
    /// Moves the keyboard day by whole days; the page follows it. A move out of
    /// the supported range is ignored. Disabled days are not skipped: the
    /// constraints apply when the day is committed.
    pub fn move_active_date(&mut self, delta_days: i64) -> (o: DateTimePickerStateOutcome)
        requires
            -MAX_DAY_SHIFT <= delta_days <= MAX_DAY_SHIFT,
        ensures
            ({
                let (a, b) = (old(self)@, final(self)@);
                &&& match shifted_date(a.active_date, delta_days as int) {
                    Some(d) => b == (DateTimePickerStateView {
                        active_date: d,
                        view_year: d.year as int,
                        view_month: d.month as int,
                        ..a
                    }),
                    None => b == a,
                }
                &&& o == focus_outcome(a, b)
            }),
    {
        proof {
            use_type_invariant(&*self);
        }
        let before_date = self.active_date;
        let before_year = self.view_year;
        let before_month = self.view_month;
        if let Some(next) = shift_date(self.active_date, delta_days) {
            self.active_date = next;
            self.view_year = next.year;
            self.view_month = next.month;
        }
        DateTimePickerStateOutcome {
            active_date_changed: self.active_date != before_date,
            view_changed: self.view_year != before_year || self.view_month != before_month,
            ..DateTimePickerStateOutcome::default()
        }
    }

    /// Moves the keyboard day to the first day of the page's month (today if
    /// the page lies outside the supported years).
    pub fn move_active_to_month_start(&mut self) -> (o: DateTimePickerStateOutcome)
        ensures
            ({
                let (a, b) = (old(self)@, final(self)@);
                &&& b == (DateTimePickerStateView { active_date: b.active_date, ..a })
                &&& b.active_date.is_valid()
                &&& (ymd_valid(a.view_year, a.view_month, 1) ==> b.active_date
                    == (CalendarDate { year: a.view_year as i32, month: a.view_month as u32, day: 1 }))
                &&& o == (DateTimePickerStateOutcome {
                    active_date_changed: a.active_date != b.active_date,
                    ..DateTimePickerStateOutcome::none()
                })
            }),
    {
        proof {
            use_type_invariant(&*self);
        }
        let before_date = self.active_date;
        let next = match date_from_ymd(self.view_year, self.view_month, 1) {
            Some(d) => d,
            None => today(),
        };
        self.active_date = next;
        DateTimePickerStateOutcome {
            active_date_changed: self.active_date != before_date,
            ..DateTimePickerStateOutcome::default()
        }
    }

    /// Moves the keyboard day to the last day of the page's month (today if
    /// the page lies outside the supported years).
    pub fn move_active_to_month_end(&mut self) -> (o: DateTimePickerStateOutcome)
        requires
            month_days_defined(old(self)@.view_year, old(self)@.view_month),
        ensures
            ({
                let (a, b) = (old(self)@, final(self)@);
                let day = month_days(a.view_year, a.view_month);
                &&& b == (DateTimePickerStateView { active_date: b.active_date, ..a })
                &&& b.active_date.is_valid()
                &&& (ymd_valid(a.view_year, a.view_month, day) ==> b.active_date
                    == (CalendarDate { year: a.view_year as i32, month: a.view_month as u32, day: day as u32 }))
                &&& o == (DateTimePickerStateOutcome {
                    active_date_changed: a.active_date != b.active_date,
                    ..DateTimePickerStateOutcome::none()
                })
            }),
    {
        proof {
            use_type_invariant(&*self);
        }
        let before_date = self.active_date;
        let day = days_in_month(self.view_year, self.view_month);
        let next = match date_from_ymd(self.view_year, self.view_month, day) {
            Some(d) => d,
            None => today(),
        };
        self.active_date = next;
        DateTimePickerStateOutcome {
            active_date_changed: self.active_date != before_date,
            ..DateTimePickerStateOutcome::default()
        }
    }

    /// Commits the draft if it is a complete value (see `commit_value`); an
    /// incomplete or empty draft changes nothing.
    pub fn confirm_draft<F: Fn(CalendarDate) -> bool, G: Fn(ClockTime) -> bool>(
        &mut self,
        formats: &DateTimePickerFormats,
        constraints: &DateTimePickerConstraints<F, G>,
    ) -> (r: Result<DateTimePickerStateOutcome, DateTimePickerParseError>)
        requires
            constraints_callable(*constraints),
        ensures
            ({
                let (a, b) = (old(self)@, final(self)@);
                match a.draft {
                    DateTimePickerDraft::Value(v) => match r {
                        Err(e) => e == DateTimePickerParseError::DisabledValue
                            && value_fails(*constraints, v) && b == failed_view(a),
                        Ok(o) => value_passes(*constraints, v)
                            && b == committed_view(a, value_for_mode(Some(v), a.mode), *formats, b.active_date)
                            && (calendar_date_of(b.value) matches Some(d) ==> b.active_date == d)
                            && o == commit_outcome(a, b),
                    },
                    _ => b == a && r == Ok::<DateTimePickerStateOutcome, DateTimePickerParseError>(
                        DateTimePickerStateOutcome::none(),
                    ),
                }
            }),
    {
        proof {
            use_type_invariant(&*self);
        }
        match self.draft {
            DateTimePickerDraft::Value(value) => self.commit_value(value, formats, constraints),
            _ => Ok(DateTimePickerStateOutcome::default()),
        }
    }

    /// Moves the page by whole months (backwards when negative). The keyboard
    /// day keeps its day of month, clamped to the length of the new month, or
    /// stays where it was when that day does not exist.
    pub fn move_month(&mut self, delta: i32) -> (o: DateTimePickerStateOutcome)
        requires
            month_move_fits(old(self)@, delta as int),
            month_days_defined(page_after_months(old(self)@, delta as int).0, page_after_months(old(self)@, delta as int).1),
        ensures
            ({
                let (a, b) = (old(self)@, final(self)@);
                let (y, m) = page_after_months(a, delta as int);
                let len = month_days(y, m);
                let day = if a.active_date.day < len { a.active_date.day as int } else { len };
                &&& b == (DateTimePickerStateView {
                    view_year: y,
                    view_month: m,
                    active_date: b.active_date,
                    ..a
                })
                &&& b.active_date == (if ymd_valid(y, m, day) {
                    CalendarDate { year: y as i32, month: m as u32, day: day as u32 }
                } else {
                    a.active_date
                })
                &&& o == focus_outcome(a, b)
            }),
    {
        proof {
            use_type_invariant(&*self);
        }
        let before_year = self.view_year;
        let before_month = self.view_month;
        let before_active = self.active_date;
        let total: i32 = self.view_year * 12 + self.view_month as i32 - 1 + delta;
        let year: i32 = if total >= 0 {
            total / 12
        } else {
            let p: i32 = -(total + 1);
            -(p / 12) - 1
        };
        proof {
            let t = total as int;
            let q = year as int;
            if t >= 0 {
                assert(0 <= t - q * 12 < 12) by (nonlinear_arith)
                    requires q == t / 12, t >= 0;
            } else {
                let pp = -(t + 1);
                assert(0 <= t - q * 12 < 12) by (nonlinear_arith)
                    requires q == -(pp / 12) - 1, pp == -(t + 1), pp >= 0;
            }
            assert(q == t / 12 && t - q * 12 == t % 12) by (nonlinear_arith)
                requires 0 <= t - q * 12 < 12;
        }
        let rest: i64 = total as i64 - (year as i64) * 12;
        let month: u32 = (rest + 1) as u32;
        self.view_year = year;
        self.view_month = month;
        let len = days_in_month(year, month);
        let day = if self.active_date.day < len { self.active_date.day } else { len };
        if let Some(d) = date_from_ymd(year, month, day) {
            self.active_date = d;
        }
        DateTimePickerStateOutcome {
            view_changed: self.view_year != before_year || self.view_month != before_month,
            active_date_changed: self.active_date != before_active,
            ..DateTimePickerStateOutcome::default()
        }
    }
}

} // verus!
