//! Colour rules of `DateTimePicker`.

use vstd::prelude::*;

use crate::field_style::{
    field_opacity, semantic_color, status_color, FieldColorToken, FieldOpacity, FieldStatus,
};

use super::props::{DateTimePickerSize, DateTimePickerStatus};

verus! {

/// The resolved look of a picker.
#[derive(Clone, Copy, Debug, PartialEq, Eq, Structural)]
pub struct ResolvedDateTimePickerStyle {
    /// Size whose metrics apply.
    pub size: DateTimePickerSize,
    pub text: FieldColorToken,
    pub muted_text: FieldColorToken,
    pub helper: FieldColorToken,
    pub opacity: FieldOpacity,
}

/// The shared status a picker status stands for.
pub open spec fn picker_field_status(status: DateTimePickerStatus) -> FieldStatus {
    match status {
        DateTimePickerStatus::Default => FieldStatus::Default,
        DateTimePickerStatus::Error => FieldStatus::Error,
        DateTimePickerStatus::Warning => FieldStatus::Warning,
        DateTimePickerStatus::Success => FieldStatus::Success,
    }
}

/// The look of a picker: a parse error turns the helper text to the danger
/// colour whatever the status; otherwise a status shows its colour there, and
/// a disabled picker is faded with disabled text.
pub open spec fn picker_style_of(
    size: DateTimePickerSize,
    status: DateTimePickerStatus,
    focused: bool,
    open: bool,
    disabled: bool,
    has_parse_error: bool,
) -> ResolvedDateTimePickerStyle {
    let semantic = status_color(picker_field_status(status), focused || open);
    ResolvedDateTimePickerStyle {
        size,
        text: if disabled { FieldColorToken::DisabledText } else { FieldColorToken::Text },
        muted_text: if disabled { FieldColorToken::DisabledText } else { FieldColorToken::MutedText },
        helper: if has_parse_error {
            FieldColorToken::Danger
        } else if status == DateTimePickerStatus::Default {
            FieldColorToken::Helper
        } else {
            semantic
        },
        opacity: if disabled { FieldOpacity::Disabled } else { FieldOpacity::Full },
    }
}

/// Resolves the look of a picker in the given state.
pub fn resolve_date_time_picker_style(
    size: DateTimePickerSize,
    status: DateTimePickerStatus,
    focused: bool,
    open: bool,
    disabled: bool,
    has_parse_error: bool,
) -> (s: ResolvedDateTimePickerStyle)
    ensures
        s == picker_style_of(size, status, focused, open, disabled, has_parse_error),
{
    let field_status = match status {
        DateTimePickerStatus::Default => FieldStatus::Default,
        DateTimePickerStatus::Error => FieldStatus::Error,
        DateTimePickerStatus::Warning => FieldStatus::Warning,
        DateTimePickerStatus::Success => FieldStatus::Success,
    };
    let semantic = semantic_color(field_status, focused || open);
    let is_default = match status {
        DateTimePickerStatus::Default => true,
        _ => false,
    };
    ResolvedDateTimePickerStyle {
        size,
        text: if disabled { FieldColorToken::DisabledText } else { FieldColorToken::Text },
        muted_text: if disabled { FieldColorToken::DisabledText } else { FieldColorToken::MutedText },
        helper: if has_parse_error {
            FieldColorToken::Danger
        } else if is_default {
            FieldColorToken::Helper
        } else {
            semantic
        },
        opacity: field_opacity(disabled),
    }
}

} // verus!
