//! Decisions of the picker's pop-up: which panels a mode shows, which calendar
//! days are marked, and how the time wheels move.

use vstd::prelude::*;

use super::calendar::{date_before, default_time, time_from_hms, today, CalendarDate, ClockTime};
use super::props::{DateTimePickerMode, DateTimePickerValue};
use super::rules::{
    date_allowed, date_fails, date_passes, rule_answer, rule_callable, DateTimePickerConstraints,
};
use super::state::{DateTimePickerDraft, DateTimePickerRangeEndpoint, DateTimePickerState};

verus! {

/// Panel of the pop-up.
#[derive(Clone, Copy, Debug, PartialEq, Eq, Structural)]
pub enum DateTimePickerPopupPanel {
    /// The calendar.
    Date,
    /// The time wheels.
    Time,
}

/// Column of the time wheels.
#[derive(Clone, Copy, Debug, PartialEq, Eq, Structural)]
pub enum TimeColumnKind {
    Hour,
    Minute,
    Second,
}

/// Whether a mode picks days.
pub open spec fn has_date(mode: DateTimePickerMode) -> bool {
    mode == DateTimePickerMode::Date || mode == DateTimePickerMode::DateTime
        || mode == DateTimePickerMode::DateRange || mode == DateTimePickerMode::DateTimeRange
}

/// Whether a mode picks times.
pub open spec fn has_time(mode: DateTimePickerMode) -> bool {
    mode == DateTimePickerMode::Time || mode == DateTimePickerMode::DateTime
        || mode == DateTimePickerMode::TimeRange || mode == DateTimePickerMode::DateTimeRange
}

/// Whether a mode picks days.
pub fn mode_has_date(mode: DateTimePickerMode) -> (r: bool)
    ensures
        r == has_date(mode),
{
    match mode {
        DateTimePickerMode::Date | DateTimePickerMode::DateTime | DateTimePickerMode::DateRange
        | DateTimePickerMode::DateTimeRange => true,
        _ => false,
    }
}

/// Whether a mode picks times.
pub fn mode_has_time(mode: DateTimePickerMode) -> (r: bool)
    ensures
        r == has_time(mode),
{
    match mode {
        DateTimePickerMode::Time | DateTimePickerMode::DateTime | DateTimePickerMode::TimeRange
        | DateTimePickerMode::DateTimeRange => true,
        _ => false,
    }
}

/// Whether the pop-up offers a switch between the date and the time panel:
/// only modes that pick both.
pub fn mode_uses_panel_switch(mode: DateTimePickerMode) -> (r: bool)
    ensures
        r == (has_date(mode) && has_time(mode)),
{
    mode_has_date(mode) && mode_has_time(mode)
}

/// Whether the pop-up body may scroll when space is short: the two-month
/// range calendars.
pub fn popup_body_can_scroll(mode: DateTimePickerMode) -> (r: bool)
    ensures
        r == (mode == DateTimePickerMode::DateRange || mode == DateTimePickerMode::DateTimeRange),
{
    match mode {
        DateTimePickerMode::DateRange | DateTimePickerMode::DateTimeRange => true,
        _ => false,
    }
}

/// The panel the pop-up opens on: the calendar when the mode picks days.
pub open spec fn first_panel(mode: DateTimePickerMode) -> DateTimePickerPopupPanel {
    if has_date(mode) { DateTimePickerPopupPanel::Date } else { DateTimePickerPopupPanel::Time }
}

/// Whether a panel belongs to a mode.
pub open spec fn panel_fits(mode: DateTimePickerMode, panel: DateTimePickerPopupPanel) -> bool {
    match panel {
        DateTimePickerPopupPanel::Date => has_date(mode),
        DateTimePickerPopupPanel::Time => has_time(mode),
    }
}

/// The panel the pop-up opens on.
pub fn initial_popup_panel(mode: DateTimePickerMode) -> (p: DateTimePickerPopupPanel)
    ensures
        p == first_panel(mode),
        panel_fits(mode, p),
{
    if mode_has_date(mode) {
        DateTimePickerPopupPanel::Date
    } else {
        DateTimePickerPopupPanel::Time
    }
}

/// Whether a panel belongs to a mode.
pub fn panel_allowed(mode: DateTimePickerMode, panel: DateTimePickerPopupPanel) -> (r: bool)
    ensures
        r == panel_fits(mode, panel),
{
    match panel {
        DateTimePickerPopupPanel::Date => mode_has_date(mode),
        DateTimePickerPopupPanel::Time => mode_has_time(mode),
    }
}

/// The panel kept after a mode change: the current one if it still belongs
/// to the mode, else the one the mode opens on.
pub fn normalized_popup_panel(mode: DateTimePickerMode, panel: DateTimePickerPopupPanel) -> (p: DateTimePickerPopupPanel)
    ensures
        p == (if panel_fits(mode, panel) { panel } else { first_panel(mode) }),
        panel_fits(mode, p),
{
    if panel_allowed(mode, panel) {
        panel
    } else {
        initial_popup_panel(mode)
    }
}

/// Slots shown above and below the selected slot of a time wheel.
pub const TIME_WHEEL_RADIUS: i32 = 3;

/// Index of the slot `offset` places from `selected` on a wheel of `count`
/// items that wraps around.
pub open spec fn wheel_index(count: int, selected: int, offset: int) -> int {
    (selected + offset) % count
}

/// The slots a time wheel shows around the selected item, as (item index,
/// offset) pairs from three above to three below; the wheel wraps around, so
/// that 23 is followed by 00. An empty column shows nothing.
pub fn time_wheel_visible_indices(item_count: usize, selected_index: usize) -> (r: Vec<(usize, i32)>)
    requires
        item_count <= i32::MAX,
        selected_index + TIME_WHEEL_RADIUS <= i32::MAX,
    ensures
        item_count == 0 ==> r@.len() == 0,
        item_count > 0 ==> r@.len() == 2 * TIME_WHEEL_RADIUS + 1,
        item_count > 0 ==> forall|k: int| 0 <= k < r@.len() ==> (#[trigger] r@[k]).1 == k - TIME_WHEEL_RADIUS
            && r@[k].0 == wheel_index(item_count as int, selected_index as int, k - TIME_WHEEL_RADIUS),
{
    let mut r: Vec<(usize, i32)> = Vec::new();
    if item_count == 0 {
        return r;
    }
    let n = item_count as i32;
    let mut offset: i32 = -TIME_WHEEL_RADIUS;
    while offset <= TIME_WHEEL_RADIUS
        invariant
            n == item_count,
            n > 0,
            selected_index + TIME_WHEEL_RADIUS <= i32::MAX,
            -TIME_WHEEL_RADIUS <= offset <= TIME_WHEEL_RADIUS + 1,
            r@.len() == offset + TIME_WHEEL_RADIUS,
            forall|k: int| 0 <= k < r@.len() ==> (#[trigger] r@[k]).1 == k - TIME_WHEEL_RADIUS
                && r@[k].0 == wheel_index(item_count as int, selected_index as int, k - TIME_WHEEL_RADIUS),
        decreases TIME_WHEEL_RADIUS + 1 - offset,
    {
        let position = selected_index as i32 + offset;
        let index: i32 = if position >= 0 {
            position % n
        } else {
            let q = (-position) % n;
            if q == 0 { 0 } else { n - q }
        };
        proof {
            let p = position as int;
            let m = n as int;
            assert(p == selected_index as int + offset as int);
            if p < 0 {
                let q = (-p) % m;
                let k = (-p) / m;
                vstd::arithmetic::div_mod::lemma_fundamental_div_mod(-p, m);
                assert(0 <= q < m);
                assert(p == (-k) * m - q) by (nonlinear_arith)
                    requires -p == m * k + q;
                if q == 0 {
                    vstd::arithmetic::div_mod::lemma_fundamental_div_mod_converse(p, m, -k, 0);
                } else {
                    assert(p == (-k - 1) * m + (m - q)) by (nonlinear_arith)
                        requires p == (-k) * m - q;
                    vstd::arithmetic::div_mod::lemma_fundamental_div_mod_converse(p, m, -k - 1, m - q);
                }
            }
        }
        r.push((index as usize, offset));
        offset = offset + 1;
    }
    r
}

/// The time with one column replaced by `value`; midnight when that gives
/// no valid time. Sub-second parts are dropped.
pub open spec fn time_with_part(current: ClockTime, kind: TimeColumnKind, value: int) -> ClockTime {
    let (h, m, s) = match kind {
        TimeColumnKind::Hour => (value, current.minute as int, current.second as int),
        TimeColumnKind::Minute => (current.hour as int, value, current.second as int),
        TimeColumnKind::Second => (current.hour as int, current.minute as int, value),
    };
    if 0 <= h < 24 && 0 <= m < 60 && 0 <= s < 60 {
        ClockTime { hour: h as u32, minute: m as u32, second: s as u32, nanosecond: 0 }
    } else {
        ClockTime { hour: 0, minute: 0, second: 0, nanosecond: 0 }
    }
}

/// The time with one column replaced by `value` (midnight if that is no valid
/// time).
pub fn build_time_from_part(current: ClockTime, kind: TimeColumnKind, value: u32) -> (t: ClockTime)
    ensures
        t == time_with_part(current, kind, value as int),
        t.is_valid(),
{
    let built = match kind {
        TimeColumnKind::Hour => time_from_hms(value, current.minute, current.second),
        TimeColumnKind::Minute => time_from_hms(current.hour, value, current.second),
        TimeColumnKind::Second => time_from_hms(current.hour, current.minute, value),
    };
    match built {
        Some(t) => t,
        None => default_time(),
    }
}

/// The value a time column shows for a time.
pub open spec fn time_part_of(time: ClockTime, kind: TimeColumnKind) -> u32 {
    match kind {
        TimeColumnKind::Hour => time.hour,
        TimeColumnKind::Minute => time.minute,
        TimeColumnKind::Second => time.second,
    }
}

/// The value a time column shows for a time.
pub fn current_time_part(time: ClockTime, kind: TimeColumnKind) -> (r: u32)
    ensures
        r == time_part_of(time, kind),
{
    match kind {
        TimeColumnKind::Hour => time.hour,
        TimeColumnKind::Minute => time.minute,
        TimeColumnKind::Second => time.second,
    }
}

/// Whether the candidate `value` of a column is disabled for the selected time:
/// what the time rule says of the time with that column replaced.
pub fn time_candidate_disabled<G: Fn(ClockTime) -> bool>(
    disabled_time: Option<&G>,
    selected_time: ClockTime,
    kind: TimeColumnKind,
    value: u32,
) -> (r: bool)
    requires
        rule_callable::<ClockTime, &G>(disabled_time),
    ensures
        rule_answer(disabled_time, time_with_part(selected_time, kind, value as int), r),
{
    let next_time = build_time_from_part(selected_time, kind, value);
    match disabled_time {
        Some(rule) => rule(next_time),
        None => false,
    }
}

/// Distance between two column values.
pub open spec fn value_distance(a: u32, b: u32) -> int {
    if a >= b { a - b } else { b - a }
}

/// Whether item `i` is the one a column scrolls to for `value`: the first
/// item equal to it, or, when none is, the first of the items nearest to it.
pub open spec fn is_scroll_index(values: Seq<u32>, value: u32, i: int) -> bool {
    &&& 0 <= i < values.len()
    &&& (exists|j: int| 0 <= j < values.len() && values[j] == value) ==> values[i] == value
        && forall|j: int| 0 <= j < i ==> values[j] != value
    &&& !(exists|j: int| 0 <= j < values.len() && values[j] == value) ==>
        (forall|j: int| 0 <= j < values.len() ==> value_distance(values[i], value) <= value_distance(#[trigger] values[j], value))
        && (forall|j: int| 0 <= j < i ==> value_distance(values[i], value) < value_distance(#[trigger] values[j], value))
}

/// The item a time column scrolls to for `value`: the first item equal to it,
/// else the first of the items nearest to it; none for an empty column.
pub fn time_value_scroll_index(values: &[u32], value: u32) -> (r: Option<usize>)
    ensures
        values@.len() == 0 <==> r is None,
        r matches Some(i) ==> is_scroll_index(values@, value, i as int),
{
    let mut i: usize = 0;
    while i < values.len()
        invariant
            i <= values@.len(),
            forall|j: int| 0 <= j < i ==> values@[j] != value,
        decreases values@.len() - i,
    {
        if values[i] == value {
            return Some(i);
        }
        i = i + 1;
    }
    if values.len() == 0 {
        return None;
    }
    let mut best: usize = 0;
    let mut best_distance: u32 = if values[0] >= value { values[0] - value } else { value - values[0] };
    let mut k: usize = 1;
    while k < values.len()
        invariant
            1 <= k <= values@.len(),
            best < k,
            best_distance == value_distance(values@[best as int], value),
            forall|j: int| 0 <= j < k ==> best_distance <= value_distance(#[trigger] values@[j], value),
            forall|j: int| 0 <= j < best ==> best_distance < value_distance(#[trigger] values@[j], value),
        decreases values@.len() - k,
    {
        let d = if values[k] >= value { values[k] - value } else { value - values[k] };
        if d < best_distance {
            best = k;
            best_distance = d;
        }
        k = k + 1;
    }
    Some(best)
}

/// The time rule was asked about candidate `i` of a column and did not
/// disable it.
pub open spec fn candidate_enabled<G: Fn(ClockTime) -> bool>(
    disabled_time: Option<&G>,
    selected_time: ClockTime,
    kind: TimeColumnKind,
    values: Seq<u32>,
    i: int,
) -> bool {
    exists|answer: bool|
        #[trigger] rule_answer(disabled_time, time_with_part(selected_time, kind, values[i] as int), answer)
        && !answer
}

/// One slot forward (`direction` > 0) or back on a wheel of `count` items.
pub open spec fn ring_step(index: int, direction: int, count: int) -> int {
    if direction > 0 {
        if index + 1 == count { 0 } else { index + 1 }
    } else {
        if index == 0 { count - 1 } else { index - 1 }
    }
}

/// `steps` slots forward or back on a wheel of `count` items.
pub open spec fn ring_walk(index: int, direction: int, steps: int, count: int) -> int
    decreases steps,
{
    if steps <= 0 {
        index
    } else {
        ring_step(ring_walk(index, direction, steps - 1, count), direction, count)
    }
}

/// Every answer the time rule gives agrees with `answers`; for a rule that
/// always answers alike for a time, its answers are such a function.
pub open spec fn rule_follows<G: Fn(ClockTime) -> bool>(rule: Option<&G>, answers: spec_fn(ClockTime) -> bool) -> bool {
    forall|t: ClockTime, b: bool| #[trigger] rule_answer(rule, t, b) ==> b == answers(t)
}

/// The first candidate enabled under `answers` among the next `tries` slots
/// after `index` in `direction`, wrapping around.
pub open spec fn scan_enabled(
    values: Seq<u32>,
    answers: spec_fn(ClockTime) -> bool,
    selected: ClockTime,
    kind: TimeColumnKind,
    index: int,
    direction: int,
    tries: int,
) -> Option<int>
    decreases tries,
{
    if tries <= 0 {
        None
    } else {
        let next = ring_step(index, direction, values.len() as int);
        if !answers(time_with_part(selected, kind, values[next] as int)) {
            Some(next)
        } else {
            scan_enabled(values, answers, selected, kind, next, direction, tries - 1)
        }
    }
}

/// Where `turns` notches from `index` land under `answers`: each notch moves
/// to the next enabled candidate; nothing when a notch finds none.
pub open spec fn wheel_turn(
    values: Seq<u32>,
    answers: spec_fn(ClockTime) -> bool,
    selected: ClockTime,
    kind: TimeColumnKind,
    index: int,
    direction: int,
    turns: int,
) -> Option<int>
    decreases turns,
{
    if turns <= 0 {
        Some(index)
    } else {
        match scan_enabled(values, answers, selected, kind, index, direction, values.len() as int) {
            None => None,
            Some(next) => wheel_turn(values, answers, selected, kind, next, direction, turns - 1),
        }
    }
}

/// The candidate a wheel turn of `steps` notches lands on, skipping candidates
/// the time rule disables: each notch moves to the next enabled candidate in
/// the turning direction, wrapping around. A turn of zero notches stays on the
/// current candidate (clamped into the column); none when the column is empty
/// or a notch finds no enabled candidate.
pub fn time_wheel_next_enabled_index<G: Fn(ClockTime) -> bool>(
    values: &[u32],
    current_index: usize,
    steps: i32,
    selected_time: ClockTime,
    kind: TimeColumnKind,
    disabled_time: Option<&G>,
) -> (r: Option<usize>)
    requires
        rule_callable::<ClockTime, &G>(disabled_time),
    ensures
        values@.len() == 0 ==> r is None,
        values@.len() > 0 && steps == 0 ==> r == Some(
            if current_index < values@.len() { current_index } else { (values@.len() - 1) as usize },
        ),
        r matches Some(i) ==> i < values@.len(),
        steps != 0 ==> match r {
            Some(i) => candidate_enabled(disabled_time, selected_time, kind, values@, i as int),
            None => true,
        },
        disabled_time is None && values@.len() > 0 && steps != 0 ==> r == Some(ring_walk(
            if current_index < values@.len() { current_index as int } else { values@.len() - 1 },
            steps as int,
            if steps > 0 { steps as int } else { -(steps as int) },
            values@.len() as int,
        ) as usize),
        r is None && values@.len() > 0 ==> disabled_time is Some,
        values@.len() > 0 ==> forall|answers: spec_fn(ClockTime) -> bool|
            #[trigger] rule_follows(disabled_time, answers) ==> (match r {
                Some(i) => Some(i as int),
                None => None,
            }) == wheel_turn(
                values@,
                answers,
                selected_time,
                kind,
                if current_index < values@.len() { current_index as int } else { values@.len() - 1 },
                steps as int,
                if steps > 0 { steps as int } else { -(steps as int) },
            ),
{
    let n = values.len();
    if n == 0 {
        return None;
    }
    let start = if current_index < n { current_index } else { n - 1 };
    if steps == 0 {
        proof {
            assert forall|a: spec_fn(ClockTime) -> bool| #[trigger] rule_follows(disabled_time, a) implies
                wheel_turn(values@, a, selected_time, kind, start as int, 0, 0) == Some(start as int) by {
            }
        }
        return Some(start);
    }
    let forward = steps > 0;
    let turns: u32 = if steps > 0 { steps as u32 } else { (-(steps as i64)) as u32 };
    let mut index = start;
    let mut done: u32 = 0;
    while done < turns
        invariant
            n == values@.len(),
            n > 0,
            index < n,
            done <= turns,
            turns as int == (if steps > 0 { steps as int } else { -(steps as int) }),
            start as int == (if current_index < n { current_index as int } else { n - 1 }),
            forward == (steps > 0),
            done > 0 ==> candidate_enabled(disabled_time, selected_time, kind, values@, index as int),
            disabled_time is None ==> index == ring_walk(start as int, steps as int, done as int, n as int),
            rule_callable::<ClockTime, &G>(disabled_time),
            forall|a: spec_fn(ClockTime) -> bool| #[trigger] rule_follows(disabled_time, a) ==>
                wheel_turn(values@, a, selected_time, kind, start as int, steps as int, turns as int)
                == wheel_turn(values@, a, selected_time, kind, index as int, steps as int, turns - done),
        decreases turns - done,
    {
        let mut found: Option<usize> = None;
        let mut probe = index;
        let mut tried: usize = 0;
        while tried < n && found.is_none()
            invariant
                n == values@.len(),
                n > 0,
                index < n,
                probe < n,
                tried <= n,
                forward == (steps > 0),
                match found {
                    Some(f) => f < n && candidate_enabled(disabled_time, selected_time, kind, values@, f as int),
                    None => true,
                },
                disabled_time is None && tried > 0 ==> found == Some(ring_step(index as int, steps as int, n as int) as usize),
                tried == 0 ==> found is None && probe == index,
                rule_callable::<ClockTime, &G>(disabled_time),
                forall|a: spec_fn(ClockTime) -> bool| #[trigger] rule_follows(disabled_time, a) ==>
                    scan_enabled(values@, a, selected_time, kind, index as int, steps as int, n as int)
                    == match found {
                        Some(x) => Some(x as int),
                        None => scan_enabled(values@, a, selected_time, kind, probe as int, steps as int, n - tried),
                    },
            decreases n - tried,
        {
            let ghost probe_before = probe;
            probe = if forward {
                if probe + 1 == n { 0 } else { probe + 1 }
            } else {
                if probe == 0 { n - 1 } else { probe - 1 }
            };
            let ghost before = probe_before;
            let disabled = time_candidate_disabled(disabled_time, selected_time, kind, values[probe]);
            assert(rule_answer(disabled_time, time_with_part(selected_time, kind, values@[probe as int] as int), disabled));
            if !disabled {
                found = Some(probe);
                assert(candidate_enabled(disabled_time, selected_time, kind, values@, probe as int));
            }
            proof {
                assert forall|a: spec_fn(ClockTime) -> bool| #[trigger] rule_follows(disabled_time, a) implies
                    scan_enabled(values@, a, selected_time, kind, index as int, steps as int, n as int)
                    == match found {
                        Some(x) => Some(x as int),
                        None => scan_enabled(values@, a, selected_time, kind, probe as int, steps as int, n - (tried + 1)),
                    } by {
                    assert(disabled == a(time_with_part(selected_time, kind, values@[probe as int] as int)));
                    assert(ring_step(before as int, steps as int, n as int) == probe as int);
                }
            }
            tried = tried + 1;
        }
        match found {
            Some(f) => {
                index = f;
            },
            None => {
                proof {
                    assert forall|a: spec_fn(ClockTime) -> bool| #[trigger] rule_follows(disabled_time, a) implies
                        wheel_turn(values@, a, selected_time, kind, start as int, steps as int, turns as int) is None by {
                        assert(scan_enabled(values@, a, selected_time, kind, probe as int, steps as int, n - tried) is None);
                        assert(scan_enabled(values@, a, selected_time, kind, index as int, steps as int, n as int) is None);
                    }
                }
                return None;
            },
        }
        done = done + 1;
    }
    proof {
        assert forall|a: spec_fn(ClockTime) -> bool| #[trigger] rule_follows(disabled_time, a) implies
            wheel_turn(values@, a, selected_time, kind, start as int, steps as int, turns as int) == Some(index as int) by {
            assert(wheel_turn(values@, a, selected_time, kind, index as int, steps as int, turns - done) == Some(index as int));
        }
    }
    Some(index)
}

/// Whether a value marks a calendar day as chosen: its date, or an end of a
/// date or date-time range; `None` for time values, which mark no day.
pub open spec fn value_marks_day(value: DateTimePickerValue, date: CalendarDate) -> Option<bool> {
    match value {
        DateTimePickerValue::Date(d) => Some(d == date),
        DateTimePickerValue::DateTime(dt) => Some(dt.date == date),
        DateTimePickerValue::DateRange(r) => Some(r.start == date || r.end == date),
        DateTimePickerValue::DateTimeRange(r) => Some(r.start.date == date || r.end.date == date),
        _ => None,
    }
}

/// Whether the committed value marks the day.
pub open spec fn committed_marks_day(value: Option<DateTimePickerValue>, date: CalendarDate) -> bool {
    match value {
        Some(v) => value_marks_day(v, date) == Some(true),
        None => false,
    }
}

/// Whether a calendar day is shown as chosen: by the draft if it names days,
/// else by the committed value.
pub open spec fn day_chosen(draft: DateTimePickerDraft, value: Option<DateTimePickerValue>, date: CalendarDate) -> bool {
    match draft {
        DateTimePickerDraft::Value(v) => match value_marks_day(v, date) {
            Some(b) => b,
            None => committed_marks_day(value, date),
        },
        DateTimePickerDraft::DateRangeStart(start) => start == date,
        DateTimePickerDraft::DateTimeRangeStart(start) => start.date == date,
        _ => committed_marks_day(value, date),
    }
}

fn value_marks(value: &DateTimePickerValue, date: CalendarDate) -> (r: Option<bool>)
    ensures
        r == value_marks_day(*value, date),
{
    match value {
        DateTimePickerValue::Date(d) => Some(*d == date),
        DateTimePickerValue::DateTime(dt) => Some(dt.date == date),
        DateTimePickerValue::DateRange(r) => Some(r.start == date || r.end == date),
        DateTimePickerValue::DateTimeRange(r) => Some(r.start.date == date || r.end.date == date),
        _ => None,
    }
}

fn committed_marks(value: Option<&DateTimePickerValue>, date: CalendarDate) -> (r: bool)
    ensures
        r == committed_marks_day(match value { Some(v) => Some(*v), None => None }, date),
{
    match value {
        Some(v) => match value_marks(v, date) {
            Some(b) => b,
            None => false,
        },
        None => false,
    }
}

/// Whether a calendar day is shown as chosen (an end of a range counts).
pub fn date_selected(draft: &DateTimePickerDraft, value: Option<&DateTimePickerValue>, date: CalendarDate) -> (r: bool)
    ensures
        r == day_chosen(*draft, match value { Some(v) => Some(*v), None => None }, date),
{
    match draft {
        DateTimePickerDraft::Value(v) => match value_marks(v, date) {
            Some(b) => b,
            None => committed_marks(value, date),
        },
        DateTimePickerDraft::DateRangeStart(start) => *start == date,
        DateTimePickerDraft::DateTimeRangeStart(start) => start.date == date,
        _ => committed_marks(value, date),
    }
}

/// Whether a value puts a day strictly inside a date or date-time range.
pub open spec fn value_spans_day(value: DateTimePickerValue, date: CalendarDate) -> Option<bool> {
    match value {
        DateTimePickerValue::DateRange(r) => Some(
            r.start.not_after(date) && r.start != date && date.not_after(r.end) && date != r.end,
        ),
        DateTimePickerValue::DateTimeRange(r) => Some(
            r.start.date.not_after(date) && r.start.date != date && date.not_after(r.end.date) && date != r.end.date,
        ),
        _ => None,
    }
}

/// Whether a calendar day is shown inside the chosen range: by a complete
/// range draft, else by the committed value.
pub open spec fn day_within_range(draft: DateTimePickerDraft, value: Option<DateTimePickerValue>, date: CalendarDate) -> bool {
    let committed = match value {
        Some(v) => value_spans_day(v, date) == Some(true),
        None => false,
    };
    match draft {
        DateTimePickerDraft::Value(v) => match value_spans_day(v, date) {
            Some(b) => b,
            None => committed,
        },
        _ => committed,
    }
}

fn value_spans(value: &DateTimePickerValue, date: CalendarDate) -> (r: Option<bool>)
    ensures
        r == value_spans_day(*value, date),
{
    match value {
        DateTimePickerValue::DateRange(r) => Some(date_before(r.start, date) && date_before(date, r.end)),
        DateTimePickerValue::DateTimeRange(r) => Some(date_before(r.start.date, date) && date_before(date, r.end.date)),
        _ => None,
    }
}

/// Whether a calendar day lies strictly between the ends of the chosen range.
pub fn date_in_range(draft: &DateTimePickerDraft, value: Option<&DateTimePickerValue>, date: CalendarDate) -> (r: bool)
    ensures
        r == day_within_range(*draft, match value { Some(v) => Some(*v), None => None }, date),
{
    let committed = match value {
        Some(v) => match value_spans(v, date) {
            Some(b) => b,
            None => false,
        },
        None => false,
    };
    match draft {
        DateTimePickerDraft::Value(v) => match value_spans(v, date) {
            Some(b) => b,
            None => committed,
        },
        _ => committed,
    }
}

/// The time a value shows in the wheels of `endpoint`, if it has times.
pub open spec fn value_time_at(value: DateTimePickerValue, endpoint: DateTimePickerRangeEndpoint) -> Option<ClockTime> {
    match value {
        DateTimePickerValue::Time(t) => Some(t),
        DateTimePickerValue::DateTime(dt) => Some(dt.time),
        DateTimePickerValue::TimeRange(r) => Some(if endpoint == DateTimePickerRangeEndpoint::Start { r.start } else { r.end }),
        DateTimePickerValue::DateTimeRange(r) => Some(
            if endpoint == DateTimePickerRangeEndpoint::Start { r.start.time } else { r.end.time },
        ),
        _ => None,
    }
}

/// The time the wheels of `endpoint` show: the draft's, else the committed value's.
pub open spec fn endpoint_time(
    draft: DateTimePickerDraft,
    value: Option<DateTimePickerValue>,
    endpoint: DateTimePickerRangeEndpoint,
) -> Option<ClockTime> {
    let committed = match value {
        Some(v) => value_time_at(v, endpoint),
        None => None,
    };
    match draft {
        DateTimePickerDraft::Value(v) => match value_time_at(v, endpoint) {
            Some(t) => Some(t),
            None => committed,
        },
        DateTimePickerDraft::TimeRangeStart(start) => Some(start),
        DateTimePickerDraft::DateTimeRangeStart(start) => Some(start.time),
        _ => committed,
    }
}

fn value_time(value: &DateTimePickerValue, endpoint: DateTimePickerRangeEndpoint) -> (r: Option<ClockTime>)
    ensures
        r == value_time_at(*value, endpoint),
{
    match value {
        DateTimePickerValue::Time(t) => Some(*t),
        DateTimePickerValue::DateTime(dt) => Some(dt.time),
        DateTimePickerValue::TimeRange(r) => match endpoint {
            DateTimePickerRangeEndpoint::Start => Some(r.start),
            DateTimePickerRangeEndpoint::End => Some(r.end),
        },
        DateTimePickerValue::DateTimeRange(r) => match endpoint {
            DateTimePickerRangeEndpoint::Start => Some(r.start.time),
            DateTimePickerRangeEndpoint::End => Some(r.end.time),
        },
        _ => None,
    }
}

/// The time the wheels of a range end show.
pub fn current_time_for_endpoint(
    draft: &DateTimePickerDraft,
    value: Option<&DateTimePickerValue>,
    endpoint: DateTimePickerRangeEndpoint,
) -> (r: Option<ClockTime>)
    ensures
        r == endpoint_time(*draft, match value { Some(v) => Some(*v), None => None }, endpoint),
{
    let committed = match value {
        Some(v) => value_time(v, endpoint),
        None => None,
    };
    match draft {
        DateTimePickerDraft::Value(v) => match value_time(v, endpoint) {
            Some(t) => Some(t),
            None => committed,
        },
        DateTimePickerDraft::TimeRangeStart(start) => Some(*start),
        DateTimePickerDraft::DateTimeRangeStart(start) => Some(start.time),
        _ => committed,
    }
}

/// The time the wheels of `endpoint` start from: the one they show, or midnight.
pub open spec fn wheel_base_time(
    draft: DateTimePickerDraft,
    value: Option<&DateTimePickerValue>,
    endpoint: DateTimePickerRangeEndpoint,
) -> ClockTime {
    match endpoint_time(draft, match value { Some(v) => Some(*v), None => None }, endpoint) {
        Some(t) => t,
        None => ClockTime { hour: 0, minute: 0, second: 0, nanosecond: 0 },
    }
}

/// The time a wheel turn of `steps` notches on one column gives: the column's
/// current value is located (nearest candidate), the turn moves to an enabled
/// candidate, and that candidate replaces the column in the time the wheels of
/// `endpoint` show (midnight if none). Nothing when the column is empty or no
/// enabled candidate is found.
pub fn time_for_wheel_delta<G: Fn(ClockTime) -> bool>(
    draft: &DateTimePickerDraft,
    value: Option<&DateTimePickerValue>,
    endpoint: DateTimePickerRangeEndpoint,
    kind: TimeColumnKind,
    values: &[u32],
    steps: i32,
    disabled_time: Option<&G>,
) -> (r: Option<ClockTime>)
    requires
        rule_callable::<ClockTime, &G>(disabled_time),
    ensures
        values@.len() == 0 ==> r is None,
        r is None && values@.len() > 0 ==> disabled_time is Some,
        match r {
            Some(t) => exists|i: int| 0 <= i < values@.len()
                && t == #[trigger] time_with_part(wheel_base_time(*draft, value, endpoint), kind, values@[i] as int)
                && (steps != 0 ==> candidate_enabled(disabled_time, wheel_base_time(*draft, value, endpoint), kind, values@, i)),
            None => true,
        },
        values@.len() > 0 ==> exists|start: int| #[trigger] is_scroll_index(
            values@,
            time_part_of(wheel_base_time(*draft, value, endpoint), kind),
            start,
        ) && forall|answers: spec_fn(ClockTime) -> bool| #[trigger] rule_follows(disabled_time, answers) ==>
            r == match wheel_turn(
                values@,
                answers,
                wheel_base_time(*draft, value, endpoint),
                kind,
                start,
                steps as int,
                if steps > 0 { steps as int } else { -(steps as int) },
            ) {
                Some(i) => Some(time_with_part(wheel_base_time(*draft, value, endpoint), kind, values@[i] as int)),
                None => None::<ClockTime>,
            },
{
    let selected_time = match current_time_for_endpoint(draft, value, endpoint) {
        Some(t) => t,
        None => default_time(),
    };
    let current = current_time_part(selected_time, kind);
    let current_index = match time_value_scroll_index(values, current) {
        Some(i) => i,
        None => return None,
    };
    let ghost shown = wheel_base_time(*draft, value, endpoint);
    assert(selected_time == shown);
    assert(is_scroll_index(values@, time_part_of(shown, kind), current_index as int));
    let next_index = match time_wheel_next_enabled_index(values, current_index, steps, selected_time, kind, disabled_time) {
        Some(i) => i,
        None => return None,
    };
    let t = build_time_from_part(selected_time, kind, values[next_index]);
    let ghost i = next_index as int;
    assert(0 <= i < values@.len());
    assert(t == time_with_part(shown, kind, values@[i] as int));
    assert(steps != 0 ==> candidate_enabled(disabled_time, shown, kind, values@, i));
    Some(t)
}

/// Background of a calendar day cell.
#[derive(Clone, Copy, Debug, PartialEq, Eq, Structural)]
pub enum DayCellBackground {
    /// A chosen day (or end of the chosen range).
    Selected,
    /// The keyboard day, or today.
    Active,
    /// A day strictly inside the chosen range.
    Range,
    /// Any other day.
    Plain,
}

/// Text colour of a calendar day cell.
#[derive(Clone, Copy, Debug, PartialEq, Eq, Structural)]
pub enum DayCellText {
    Disabled,
    Selected,
    /// A day of the month the grid shows.
    Normal,
    /// A day of the neighbouring months that fill the grid.
    Muted,
}

/// How a calendar day cell looks and whether it takes clicks.
#[derive(Clone, Copy, Debug, PartialEq, Eq, Structural)]
pub struct DayCellLook {
    pub background: DayCellBackground,
    pub text: DayCellText,
    /// A disabled cell is faded and takes no clicks.
    pub disabled: bool,
}

/// The look of a day cell from what holds of its day: being chosen wins over
/// being the keyboard day, which wins over lying in the range, which wins over
/// being today; a disabled day shows disabled text whatever else holds.
pub open spec fn day_look(
    disabled: bool,
    selected: bool,
    active: bool,
    in_range: bool,
    is_today: bool,
    in_month: bool,
) -> DayCellLook {
    DayCellLook {
        background: if selected {
            DayCellBackground::Selected
        } else if active {
            DayCellBackground::Active
        } else if in_range {
            DayCellBackground::Range
        } else if is_today {
            DayCellBackground::Active
        } else {
            DayCellBackground::Plain
        },
        text: if disabled {
            DayCellText::Disabled
        } else if selected {
            DayCellText::Selected
        } else if in_month {
            DayCellText::Normal
        } else {
            DayCellText::Muted
        },
        disabled,
    }
}

/// The look of a day cell from what holds of its day.
pub fn day_cell_look(
    disabled: bool,
    selected: bool,
    active: bool,
    in_range: bool,
    is_today: bool,
    in_month: bool,
) -> (r: DayCellLook)
    ensures
        r == day_look(disabled, selected, active, in_range, is_today, in_month),
{
    DayCellLook {
        background: if selected {
            DayCellBackground::Selected
        } else if active {
            DayCellBackground::Active
        } else if in_range {
            DayCellBackground::Range
        } else if is_today {
            DayCellBackground::Active
        } else {
            DayCellBackground::Plain
        },
        text: if disabled {
            DayCellText::Disabled
        } else if selected {
            DayCellText::Selected
        } else if in_month {
            DayCellText::Normal
        } else {
            DayCellText::Muted
        },
        disabled,
    }
}

/// The look of the cell of `date` in the grid of `month`, given whether the
/// constraints allow the day and which day is today.
pub open spec fn cell_look_for(
    draft: DateTimePickerDraft,
    value: Option<DateTimePickerValue>,
    is_open: bool,
    active_date: CalendarDate,
    date: CalendarDate,
    month: u32,
    allowed: bool,
    picker_disabled: bool,
    readonly: bool,
    today: CalendarDate,
) -> DayCellLook {
    day_look(
        !allowed || picker_disabled || readonly,
        day_chosen(draft, value, date),
        is_open && active_date == date,
        day_within_range(draft, value, date),
        date == today,
        date.month == month,
    )
}

/// The look of the cell of `date` in the grid of `month`: it is disabled when
/// the constraints refuse the day or the picker is disabled or read-only;
/// chosen and in-range follow the draft, else the value; it is the keyboard day
/// only while the pop-up is open.
pub fn date_cell<F: Fn(CalendarDate) -> bool, G: Fn(ClockTime) -> bool>(
    state: &DateTimePickerState,
    date: CalendarDate,
    month: u32,
    constraints: &DateTimePickerConstraints<F, G>,
    picker_disabled: bool,
    readonly: bool,
) -> (r: DayCellLook)
    requires
        rule_callable::<CalendarDate, F>(constraints.disabled_date),
    ensures
        exists|allowed: bool, today: CalendarDate|
            (allowed ==> date_passes(*constraints, date)) && (!allowed ==> date_fails(*constraints, date))
            && today.is_valid()
            && r == #[trigger] cell_look_for(state@.draft, state@.value, state@.is_open, state@.active_date,
                date, month, allowed, picker_disabled, readonly, today),
{
    let allowed = date_allowed(date, constraints);
    let disabled = !allowed || picker_disabled || readonly;
    let value = state.value();
    let selected = date_selected(state.draft(), value, date);
    let in_range = date_in_range(state.draft(), value, date);
    let active = state.is_open() && state.active_date() == date;
    let now = today();
    let is_today = date == now;
    let r = day_cell_look(disabled, selected, active, in_range, is_today, date.month == month);
    assert((match value { Some(v) => Some(*v), None => None }) == state@.value);
    assert(r == cell_look_for(state@.draft, state@.value, state@.is_open, state@.active_date,
        date, month, allowed, picker_disabled, readonly, now));
    r
}

/// What Enter does in a picker.
#[derive(Clone, Copy, Debug, PartialEq, Eq, Structural)]
pub enum EnterKeyAction {
    /// Open the pop-up.
    Open,
    /// Pick the keyboard day, as a click on it would.
    PickActiveDate,
    /// Confirm the draft.
    ConfirmDraft,
    /// Nothing.
    Ignore,
}

/// What Enter does: a closed picker opens; on the calendar panel the keyboard
/// day is picked if it may be (the picker is editable and the constraints
/// allow the day); on the time panel, or in a mode without days, the draft is
/// confirmed.
pub fn enter_key_action(
    is_open: bool,
    mode: DateTimePickerMode,
    panel: DateTimePickerPopupPanel,
    editable: bool,
    active_date_allowed: bool,
) -> (r: EnterKeyAction)
    ensures
        r == (if !is_open {
            EnterKeyAction::Open
        } else if has_date(mode) && panel == DateTimePickerPopupPanel::Date {
            if editable && active_date_allowed { EnterKeyAction::PickActiveDate } else { EnterKeyAction::Ignore }
        } else {
            EnterKeyAction::ConfirmDraft
        }),
{
    if !is_open {
        EnterKeyAction::Open
    } else if mode_has_date(mode) && panel == DateTimePickerPopupPanel::Date {
        if editable && active_date_allowed {
            EnterKeyAction::PickActiveDate
        } else {
            EnterKeyAction::Ignore
        }
    } else {
        EnterKeyAction::ConfirmDraft
    }
}

} // verus!
