//! Tests of `DateTimePicker`: parsing, formatting, range ordering, constraints,
//! time wheels and the state machine.

use xgpui::date_time_picker::panel::{
    date_cell, day_cell_look, enter_key_action, DayCellBackground, DayCellText, EnterKeyAction,
};
use xgpui::date_time_picker::{
    calendar_days, calendar_grid_start, date_allowed, date_in_range, date_selected,
    days_in_month, format_value, initial_popup_panel, mode_uses_panel_switch, next_month,
    normalized_popup_panel, normalized_step, parse_optional_value, stepped_values,
    time_value_scroll_index, time_wheel_next_enabled_index, time_wheel_visible_indices,
    value_allowed, CalendarDate, MAX_YEAR, MIN_YEAR, CalendarDateTime, ClockTime, DateTimePickerConstraints,
    DateTimePickerDraft, DateTimePickerFormats, DateTimePickerMode, DateTimePickerParseError,
    DateTimePickerPopupPanel, DateTimePickerRangeEndpoint, DateTimePickerState,
    DateTimePickerStateOutcome, DateTimePickerValue, DateTimeRange, TimeColumnKind,
};

fn d(year: i32, month: u32, day: u32) -> CalendarDate {
    CalendarDate { year, month, day }
}

fn t(hour: u32, minute: u32, second: u32) -> ClockTime {
    ClockTime { hour, minute, second, nanosecond: 0 }
}

fn dt(year: i32, month: u32, day: u32, hour: u32, minute: u32, second: u32) -> CalendarDateTime {
    CalendarDateTime { date: d(year, month, day), time: t(hour, minute, second) }
}

fn formats() -> DateTimePickerFormats {
    DateTimePickerFormats {
        date_format: "%Y-%m-%d".to_string(),
        time_format: "%H:%M:%S".to_string(),
        datetime_format: "%Y-%m-%d %H:%M:%S".to_string(),
        range_separator: " ~ ".to_string(),
    }
}

type NoDateRule = fn(CalendarDate) -> bool;
type NoTimeRule = fn(ClockTime) -> bool;

fn no_constraints() -> DateTimePickerConstraints<NoDateRule, NoTimeRule> {
    DateTimePickerConstraints { min: None, max: None, disabled_date: None, disabled_time: None }
}

#[test]
fn parses_single_and_range_values() {
    assert_eq!(
        parse_optional_value("2026-05-26", DateTimePickerMode::Date, &formats()).unwrap(),
        Some(DateTimePickerValue::Date(d(2026, 5, 26)))
    );
    assert_eq!(
        parse_optional_value("09:30:05", DateTimePickerMode::Time, &formats()).unwrap(),
        Some(DateTimePickerValue::Time(t(9, 30, 5)))
    );
    assert_eq!(
        parse_optional_value("2026-05-26 09:30:05", DateTimePickerMode::DateTime, &formats())
            .unwrap(),
        Some(DateTimePickerValue::DateTime(dt(2026, 5, 26, 9, 30, 5)))
    );
    assert_eq!(
        parse_optional_value("2026-05-28 ~ 2026-05-26", DateTimePickerMode::DateRange, &formats())
            .unwrap(),
        Some(DateTimePickerValue::DateRange(DateTimeRange::new(d(2026, 5, 26), d(2026, 5, 28))))
    );
}

#[test]
fn leap_day_parsing_respects_calendar_rules() {
    assert!(parse_optional_value("2024-02-29", DateTimePickerMode::Date, &formats()).is_ok());
    assert!(parse_optional_value("2025-02-29", DateTimePickerMode::Date, &formats()).is_err());
}

#[test]
fn constraints_block_out_of_range_or_disabled_dates() {
    let constraints = DateTimePickerConstraints {
        min: Some(DateTimePickerValue::Date(d(2026, 5, 10))),
        max: Some(DateTimePickerValue::Date(d(2026, 5, 20))),
        disabled_date: Some(|date: CalendarDate| date == d(2026, 5, 16)),
        disabled_time: None::<NoTimeRule>,
    };

    assert!(!date_allowed(d(2026, 5, 9), &constraints));
    assert!(date_allowed(d(2026, 5, 12), &constraints));
    assert!(!date_allowed(d(2026, 5, 16), &constraints));
}

#[test]
fn time_step_values_are_normalized() {
    assert_eq!(stepped_values(15), vec![0, 15, 30, 45]);
    assert_eq!(stepped_values(0).len(), 60);
    assert_eq!(stepped_values(99).len(), 60);
}

#[test]
fn time_scroll_index_uses_nearest_step_value() {
    let values = stepped_values(5);
    assert_eq!(time_value_scroll_index(&values, 30), Some(6));
    assert_eq!(time_value_scroll_index(&values, 32), Some(6));
    assert_eq!(time_value_scroll_index(&values, 33), Some(7));
    assert_eq!(time_value_scroll_index(&[], 10), None);
}

#[test]
fn time_wheel_visible_indices_wrap_around_edges() {
    assert_eq!(
        time_wheel_visible_indices(24, 0),
        vec![(21, -3), (22, -2), (23, -1), (0, 0), (1, 1), (2, 2), (3, 3)]
    );
    assert_eq!(
        time_wheel_visible_indices(24, 23),
        vec![(20, -3), (21, -2), (22, -1), (23, 0), (0, 1), (1, 2), (2, 3)]
    );
    assert!(time_wheel_visible_indices(0, 0).is_empty());
}

#[test]
fn time_wheel_next_enabled_index_skips_disabled_candidates() {
    let values = vec![0, 1, 2, 3, 4];
    let disabled = |time: ClockTime| matches!(time.minute, 1 | 2 | 4);

    assert_eq!(
        time_wheel_next_enabled_index(&values, 0, 1, t(9, 0, 0), TimeColumnKind::Minute, Some(&disabled)),
        Some(3)
    );
    assert_eq!(
        time_wheel_next_enabled_index(&values, 3, 1, t(9, 3, 0), TimeColumnKind::Minute, Some(&disabled)),
        Some(0)
    );
}

#[test]
fn mismatched_mode_value_is_normalized_to_none() {
    let state = DateTimePickerState::new(
        DateTimePickerMode::Time,
        Some(DateTimePickerValue::Date(d(2026, 5, 26))),
        &formats(),
    );

    assert!(state.value().is_none());
    assert_eq!(state.input_text(), "");
}

#[test]
fn active_date_navigation_tracks_visible_month() {
    let mut state = DateTimePickerState::new(
        DateTimePickerMode::Date,
        Some(DateTimePickerValue::Date(d(2026, 5, 31))),
        &formats(),
    );

    let outcome = state.move_active_date(1);
    assert!(outcome.active_date_changed);
    assert!(outcome.view_changed);
    assert_eq!(state.active_date(), d(2026, 6, 1));
    assert_eq!(state.view_year(), 2026);
    assert_eq!(state.view_month(), 6);

    let outcome = state.move_active_to_month_end();
    assert!(outcome.active_date_changed);
    assert_eq!(state.active_date(), d(2026, 6, 30));
}

#[test]
fn range_date_selection_keeps_visible_right_month_in_place() {
    let mut state = DateTimePickerState::new(
        DateTimePickerMode::DateRange,
        Some(DateTimePickerValue::DateRange(DateTimeRange::new(d(2026, 5, 10), d(2026, 6, 20)))),
        &formats(),
    );

    let outcome = state.select_date(d(2026, 6, 15), &formats(), &no_constraints()).unwrap();

    assert!(!outcome.view_changed);
    assert_eq!(state.view_year(), 2026);
    assert_eq!(state.view_month(), 5);
}

#[test]
fn reversed_range_is_ordered_on_creation() {
    let range = DateTimeRange::new(t(18, 0, 0), t(9, 0, 0));
    assert_eq!(range.start, t(9, 0, 0));
    assert_eq!(range.end, t(18, 0, 0));
    let same = DateTimeRange::new(d(2026, 1, 1), d(2026, 1, 1));
    assert_eq!(same.start, same.end);
}

#[test]
fn formatting_round_trips_through_parsing() {
    let value = DateTimePickerValue::DateTimeRange(DateTimeRange::new(
        dt(2026, 5, 26, 9, 0, 0),
        dt(2026, 5, 28, 18, 30, 0),
    ));
    let text = format_value(&value, &formats());
    assert_eq!(text, "2026-05-26 09:00:00 ~ 2026-05-28 18:30:00");
    assert_eq!(
        parse_optional_value(&text, DateTimePickerMode::DateTimeRange, &formats()).unwrap(),
        Some(value)
    );
}

#[test]
fn range_text_needs_exactly_one_separator_and_two_ends() {
    let f = formats();
    for text in ["2026-05-26", "2026-05-26 ~ ", " ~ 2026-05-26", "2026-05-26 ~ 2026-05-27 ~ 2026-05-28"] {
        assert_eq!(
            parse_optional_value(text, DateTimePickerMode::DateRange, &f),
            Err(DateTimePickerParseError::InvalidFormat)
        );
    }
    assert_eq!(parse_optional_value("   ", DateTimePickerMode::DateRange, &f), Ok(None));
}

#[test]
fn date_time_range_checks_both_ends() {
    let constraints = DateTimePickerConstraints {
        min: Some(DateTimePickerValue::DateTime(dt(2026, 5, 26, 12, 0, 0))),
        max: None,
        disabled_date: None::<NoDateRule>,
        disabled_time: Some(|time: ClockTime| time.hour == 3),
    };
    let inside = DateTimePickerValue::DateTimeRange(DateTimeRange::new(
        dt(2026, 5, 26, 12, 0, 0),
        dt(2026, 5, 27, 8, 0, 0),
    ));
    let early = DateTimePickerValue::DateTimeRange(DateTimeRange::new(
        dt(2026, 5, 26, 11, 59, 59),
        dt(2026, 5, 27, 8, 0, 0),
    ));
    let disabled_end = DateTimePickerValue::DateTimeRange(DateTimeRange::new(
        dt(2026, 5, 26, 13, 0, 0),
        dt(2026, 5, 27, 3, 0, 0),
    ));
    assert!(value_allowed(&inside, &constraints));
    assert!(!value_allowed(&early, &constraints));
    assert!(!value_allowed(&disabled_end, &constraints));
}

#[test]
fn calendar_grid_starts_on_monday_and_spans_six_weeks() {
    assert_eq!(calendar_grid_start(2026, 5), d(2026, 4, 27));
    let days = calendar_days(2026, 5);
    assert_eq!(days.len(), 42);
    assert_eq!(days[0], d(2026, 4, 27));
    assert_eq!(days[41], d(2026, 6, 7));
    assert_eq!(days_in_month(2024, 2), 29);
    assert_eq!(days_in_month(2025, 2), 28);
    assert_eq!(days_in_month(2026, 12), 31);
    assert_eq!(next_month(2026, 12), (2027, 1));
    assert_eq!(normalized_step(61), 1);
}

#[test]
fn panels_follow_the_mode() {
    assert_eq!(initial_popup_panel(DateTimePickerMode::Time), DateTimePickerPopupPanel::Time);
    assert_eq!(initial_popup_panel(DateTimePickerMode::DateTimeRange), DateTimePickerPopupPanel::Date);
    assert!(mode_uses_panel_switch(DateTimePickerMode::DateTime));
    assert!(!mode_uses_panel_switch(DateTimePickerMode::DateRange));
    assert_eq!(
        normalized_popup_panel(DateTimePickerMode::Date, DateTimePickerPopupPanel::Time),
        DateTimePickerPopupPanel::Date
    );
}

#[test]
fn date_range_is_drafted_then_committed() {
    let mut state = DateTimePickerState::new(DateTimePickerMode::DateRange, None, &formats());
    state.open();
    let first = state.select_date(d(2026, 5, 28), &formats(), &no_constraints()).unwrap();
    assert!(first.draft_changed);
    assert_eq!(*state.draft(), DateTimePickerDraft::DateRangeStart(d(2026, 5, 28)));
    state.select_date(d(2026, 5, 26), &formats(), &no_constraints()).unwrap();
    let range = DateTimePickerValue::DateRange(DateTimeRange::new(d(2026, 5, 26), d(2026, 5, 28)));
    assert_eq!(*state.draft(), DateTimePickerDraft::Value(range));
    assert!(date_selected(state.draft(), state.value(), d(2026, 5, 26)));
    assert!(date_in_range(state.draft(), state.value(), d(2026, 5, 27)));
    assert!(state.value().is_none());

    let outcome = state.confirm_draft(&formats(), &no_constraints()).unwrap();
    assert!(outcome.value_changed);
    assert!(outcome.input_changed);
    assert_eq!(state.value(), Some(&range));
    assert_eq!(state.input_text(), "2026-05-26 ~ 2026-05-28");
}

#[test]
fn invalid_text_keeps_value_and_marks_parse_error() {
    let mut state = DateTimePickerState::new(
        DateTimePickerMode::Date,
        Some(DateTimePickerValue::Date(d(2026, 5, 26))),
        &formats(),
    );
    state.set_input_text_silent("bad-date".to_string());
    assert_eq!(
        state.commit_input(&formats(), &no_constraints()),
        Err(DateTimePickerParseError::InvalidFormat)
    );
    assert_eq!(state.value(), Some(&DateTimePickerValue::Date(d(2026, 5, 26))));
    assert!(state.has_parse_error());

    state.set_input_text_silent(" 2026-06-01 ".to_string());
    let outcome = state.commit_input(&formats(), &no_constraints()).unwrap();
    assert!(outcome.value_changed && outcome.parse_error_changed);
    assert!(!state.has_parse_error());
    assert_eq!(state.input_text(), "2026-06-01");
    assert_eq!(state.active_date(), d(2026, 6, 1));
}

#[test]
fn refused_draft_keeps_value_and_marks_parse_error() {
    let constraints = DateTimePickerConstraints {
        min: Some(DateTimePickerValue::DateTime(dt(2026, 5, 26, 12, 0, 0))),
        max: None,
        disabled_date: None::<NoDateRule>,
        disabled_time: None::<NoTimeRule>,
    };
    let mut state = DateTimePickerState::new(DateTimePickerMode::DateTime, None, &formats());
    state.open();
    state.select_date(d(2026, 5, 26), &formats(), &constraints).unwrap();
    assert_eq!(
        *state.draft(),
        DateTimePickerDraft::Value(DateTimePickerValue::DateTime(dt(2026, 5, 26, 0, 0, 0)))
    );
    assert_eq!(
        state.confirm_draft(&formats(), &constraints),
        Err(DateTimePickerParseError::DisabledValue)
    );
    assert!(state.has_parse_error());
    assert!(state.value().is_none());
    assert!(state.is_open());
}

#[test]
fn time_range_picks_keep_the_range_ordered() {
    let mut state = DateTimePickerState::new(DateTimePickerMode::TimeRange, None, &formats());
    state.select_time(t(18, 0, 0), DateTimePickerRangeEndpoint::Start);
    assert_eq!(*state.draft(), DateTimePickerDraft::TimeRangeStart(t(18, 0, 0)));
    state.select_time(t(9, 0, 0), DateTimePickerRangeEndpoint::End);
    assert_eq!(
        *state.draft(),
        DateTimePickerDraft::Value(DateTimePickerValue::TimeRange(DateTimeRange::new(t(9, 0, 0), t(18, 0, 0))))
    );
}

#[test]
fn move_month_clamps_the_keyboard_day() {
    let mut state = DateTimePickerState::new(
        DateTimePickerMode::Date,
        Some(DateTimePickerValue::Date(d(2026, 1, 31))),
        &formats(),
    );
    let outcome = state.move_month(1);
    assert!(outcome.view_changed && outcome.active_date_changed);
    assert_eq!((state.view_year(), state.view_month()), (2026, 2));
    assert_eq!(state.active_date(), d(2026, 2, 28));
    state.move_month(-14);
    assert_eq!((state.view_year(), state.view_month()), (2024, 12));
    assert_eq!(state.active_date(), d(2024, 12, 28));
}

#[test]
fn outcome_merge_combines_changes() {
    let a = DateTimePickerStateOutcome { value_changed: true, ..DateTimePickerStateOutcome::default() };
    let b = DateTimePickerStateOutcome { view_changed: true, ..DateTimePickerStateOutcome::default() };
    let merged = a.merge(b);
    assert!(merged.value_changed && merged.view_changed && !merged.open_changed);
    assert!(merged.should_notify());
    assert!(!DateTimePickerStateOutcome::default().should_notify());
    assert_eq!(a.merge(b), b.merge(a));
}

#[test]
fn clear_drops_value_and_text() {
    let mut state = DateTimePickerState::new(
        DateTimePickerMode::Date,
        Some(DateTimePickerValue::Date(d(2026, 5, 26))),
        &formats(),
    );
    let outcome = state.clear();
    assert!(outcome.value_changed && outcome.input_changed);
    assert!(state.value().is_none());
    assert_eq!(state.input_text(), "");
    assert_eq!(*state.draft(), DateTimePickerDraft::Empty);
}

#[test]
fn day_cells_show_choice_range_and_constraints() {
    let look = day_cell_look(false, true, true, false, false, true);
    assert_eq!(look.background, DayCellBackground::Selected);
    assert_eq!(look.text, DayCellText::Selected);
    let look = day_cell_look(true, false, false, true, false, false);
    assert_eq!(look.background, DayCellBackground::Range);
    assert_eq!(look.text, DayCellText::Disabled);
    assert!(look.disabled);

    let state = DateTimePickerState::new(
        DateTimePickerMode::DateRange,
        Some(DateTimePickerValue::DateRange(DateTimeRange::new(d(2026, 5, 10), d(2026, 5, 20)))),
        &formats(),
    );
    let constraints = DateTimePickerConstraints {
        min: None,
        max: None,
        disabled_date: Some(|date: CalendarDate| date == d(2026, 5, 15)),
        disabled_time: None::<NoTimeRule>,
    };
    let end = date_cell(&state, d(2026, 5, 20), 5, &constraints, false, false);
    assert_eq!(end.background, DayCellBackground::Selected);
    let inside = date_cell(&state, d(2026, 5, 12), 5, &constraints, false, false);
    assert_eq!(inside.background, DayCellBackground::Range);
    assert_eq!(inside.text, DayCellText::Normal);
    let refused = date_cell(&state, d(2026, 5, 15), 5, &constraints, false, false);
    assert!(refused.disabled);
    let outside = date_cell(&state, d(2026, 6, 1), 5, &constraints, false, false);
    assert_eq!(outside.text, DayCellText::Muted);
}

#[test]
fn enter_opens_picks_or_confirms() {
    assert_eq!(
        enter_key_action(false, DateTimePickerMode::Date, DateTimePickerPopupPanel::Date, true, true),
        EnterKeyAction::Open
    );
    assert_eq!(
        enter_key_action(true, DateTimePickerMode::Date, DateTimePickerPopupPanel::Date, true, true),
        EnterKeyAction::PickActiveDate
    );
    assert_eq!(
        enter_key_action(true, DateTimePickerMode::Date, DateTimePickerPopupPanel::Date, true, false),
        EnterKeyAction::Ignore
    );
    assert_eq!(
        enter_key_action(true, DateTimePickerMode::DateTime, DateTimePickerPopupPanel::Time, true, true),
        EnterKeyAction::ConfirmDraft
    );
    assert_eq!(
        enter_key_action(true, DateTimePickerMode::Time, DateTimePickerPopupPanel::Date, false, false),
        EnterKeyAction::ConfirmDraft
    );
}

#[test]
fn month_lengths_follow_the_calendar() {
    assert_eq!(days_in_month(2024, 2), 29);
    assert_eq!(days_in_month(2023, 2), 28);
    assert_eq!(days_in_month(2000, 2), 29);
    assert_eq!(days_in_month(1900, 2), 28);
    assert_eq!(days_in_month(2026, 4), 30);
    assert_eq!(days_in_month(2026, 12), 31);
    assert_eq!(days_in_month(2026, 0), 31);
    assert_eq!(days_in_month(2026, 13), 31);
    assert_eq!(days_in_month(MAX_YEAR, 12), 31);
    assert_eq!(days_in_month(MIN_YEAR, 2), 28);
    assert_eq!(days_in_month(MAX_YEAR + 1, 2), 31);
}

#[test]
fn calendar_grid_reaches_the_ends_of_the_supported_years() {
    let first = calendar_days(MIN_YEAR, 2);
    assert_eq!(first.len(), 42);
    assert_eq!(first[0].year, MIN_YEAR);
    assert_eq!(first[0].month, 1);
    let last = calendar_days(MAX_YEAR, 11);
    assert_eq!(last.len(), 42);
    assert_eq!(last[41].year, MAX_YEAR);
    assert_eq!(last[41].month, 12);
}

#[test]
fn page_follows_the_keyboard_day_without_a_value() {
    let state = DateTimePickerState::new(DateTimePickerMode::Time, None, &formats());
    assert_eq!(state.view_year(), state.active_date().year);
    assert_eq!(state.view_month(), state.active_date().month);
}

#[test]
fn time_mode_date_click_reports_only_the_keyboard_day() {
    let mut state = DateTimePickerState::new(
        DateTimePickerMode::Time,
        Some(DateTimePickerValue::Time(t(9, 30, 0))),
        &formats(),
    );
    let value_before = state.value().cloned();
    let text_before = state.input_text().to_string();
    let target = d(2030, 7, 4);
    let outcome = state.select_date(target, &formats(), &no_constraints()).unwrap();
    assert_eq!(state.active_date(), target);
    assert!(outcome.active_date_changed);
    assert!(outcome.view_changed);
    assert!(!outcome.value_changed);
    assert_eq!(state.value().cloned(), value_before);
    assert_eq!(state.input_text(), text_before);

    let again = state.select_date(target, &formats(), &no_constraints()).unwrap();
    assert!(!again.active_date_changed);
    assert!(!again.view_changed);
}

#[test]
fn helper_text_shows_the_parse_error_while_text_is_refused() {
    let mut state = DateTimePickerState::new(DateTimePickerMode::Date, None, &formats());
    let helper = Some("pick a day".to_string());
    let error = "bad date".to_string();
    assert_eq!(state.helper_text_shown(&helper, &error), helper);
    assert_eq!(state.helper_text_shown(&None, &error), None);
    state.set_input_text_silent("bad-date".to_string());
    assert!(state.commit_input(&formats(), &no_constraints()).is_err());
    assert_eq!(state.helper_text_shown(&helper, &error), Some(error.clone()));
}
