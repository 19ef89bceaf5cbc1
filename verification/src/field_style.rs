//! Colour rules shared by the form fields (`Select`, `DataTable` frame,
//! `DateTimePicker`): which theme token a part uses for a given status, focus
//! and disabled state. The rendering layer maps tokens to the active theme's
//! colours and sizes to its metrics.

use vstd::prelude::*;

verus! {

/// A step of the theme's field-height scale: the height of an input of that
/// size. The rendering layer maps each step to the theme's pixels; the scale
/// grows from `Small` to `Large`, the order in which the steps are declared.
#[derive(Clone, Copy, Debug, PartialEq, Eq, PartialOrd, Ord, Hash, Structural)]
pub enum FieldHeight {
    Small,
    Medium,
    Large,
}

/// Position of a height step on the scale, from the lowest.
pub open spec fn height_rank(h: FieldHeight) -> int {
    match h {
        FieldHeight::Small => 0,
        FieldHeight::Medium => 1,
        FieldHeight::Large => 2,
    }
}

/// A colour token of a field theme.
#[derive(Clone, Copy, Debug, PartialEq, Eq, Structural)]
pub enum FieldColorToken {
    Background,
    FilledBackground,
    Border,
    GhostBorder,
    Focus,
    Danger,
    Warning,
    Success,
    Text,
    MutedText,
    DisabledText,
    Helper,
    Icon,
}

/// Semantic status of a field.
#[derive(Clone, Copy, Debug, PartialEq, Eq, Structural)]
pub enum FieldStatus {
    Default,
    Error,
    Warning,
    Success,
}

/// Visual variant of a field.
#[derive(Clone, Copy, Debug, PartialEq, Eq, Structural)]
pub enum FieldVariant {
    Outlined,
    Filled,
    Borderless,
}

/// Opacity level of a field.
#[derive(Clone, Copy, Debug, PartialEq, Eq, Structural)]
pub enum FieldOpacity {
    /// Fully opaque.
    Full,
    /// Faded while disabled.
    Disabled,
}

/// The colour of a status: the focus colour for an active field without
/// status, the border colour for an idle one.
pub open spec fn status_color(status: FieldStatus, active: bool) -> FieldColorToken {
    match status {
        FieldStatus::Default => if active { FieldColorToken::Focus } else { FieldColorToken::Border },
        FieldStatus::Error => FieldColorToken::Danger,
        FieldStatus::Warning => FieldColorToken::Warning,
        FieldStatus::Success => FieldColorToken::Success,
    }
}

/// Background and border of a variant: a borderless field keeps a faint border
/// whatever its status.
pub open spec fn variant_colors(variant: FieldVariant, semantic: FieldColorToken) -> (FieldColorToken, FieldColorToken) {
    match variant {
        FieldVariant::Outlined => (FieldColorToken::Background, semantic),
        FieldVariant::Filled => (FieldColorToken::FilledBackground, semantic),
        FieldVariant::Borderless => (FieldColorToken::Background, FieldColorToken::GhostBorder),
    }
}

/// The colour of a status.
pub fn semantic_color(status: FieldStatus, active: bool) -> (c: FieldColorToken)
    ensures
        c == status_color(status, active),
{
    match status {
        FieldStatus::Default => if active { FieldColorToken::Focus } else { FieldColorToken::Border },
        FieldStatus::Error => FieldColorToken::Danger,
        FieldStatus::Warning => FieldColorToken::Warning,
        FieldStatus::Success => FieldColorToken::Success,
    }
}

/// Background and border of a variant.
pub fn variant_tokens(variant: FieldVariant, semantic: FieldColorToken) -> (r: (FieldColorToken, FieldColorToken))
    ensures
        r == variant_colors(variant, semantic),
{
    match variant {
        FieldVariant::Outlined => (FieldColorToken::Background, semantic),
        FieldVariant::Filled => (FieldColorToken::FilledBackground, semantic),
        FieldVariant::Borderless => (FieldColorToken::Background, FieldColorToken::GhostBorder),
    }
}

/// The opacity of a field.
pub fn field_opacity(disabled: bool) -> (o: FieldOpacity)
    ensures
        o == (if disabled { FieldOpacity::Disabled } else { FieldOpacity::Full }),
{
    if disabled { FieldOpacity::Disabled } else { FieldOpacity::Full }
}

} // verus!
