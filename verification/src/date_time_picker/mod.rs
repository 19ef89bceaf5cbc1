//! `DateTimePicker`: date, time and date-time selection, single or as a range,
//! with manual text entry, constraints and a calendar pop-up.

pub mod calendar;
pub mod panel;
pub mod props;
pub mod rules;
pub mod state;

pub use calendar::{
    default_time, end_of_day_time, now_time, today, CalendarDate, CalendarDateTime,
    Chronological, ClockTime, MAX_YEAR, MIN_YEAR,
};
pub use panel::{
    build_time_from_part, current_time_for_endpoint, current_time_part, date_in_range,
    date_selected, initial_popup_panel, mode_has_date, mode_has_time, mode_uses_panel_switch,
    normalized_popup_panel, panel_allowed, popup_body_can_scroll, time_candidate_disabled,
    time_for_wheel_delta,
    time_value_scroll_index, time_wheel_next_enabled_index, time_wheel_visible_indices,
    DateTimePickerPopupPanel, TimeColumnKind,
};
pub use props::{
    DateTimePickerMode, DateTimePickerProps, DateTimePickerSize, DateTimePickerStatus,
    DateTimePickerValue, DateTimePickerVariant, DateTimeRange,
};
pub use rules::{
    calendar_days, calendar_grid_start, date_allowed, datetime_allowed, days_in_month,
    format_optional_value, format_value, next_month, normalize_value_for_mode,
    normalized_step, parse_optional_value, parse_value, stepped_values, time_allowed,
    value_allowed, DateTimePickerConstraints, DateTimePickerFormats, DateTimePickerParseError,
};
pub use state::{
    DateTimePickerDraft, DateTimePickerRangeEndpoint, DateTimePickerState,
    DateTimePickerStateOutcome,
};
pub mod style;
