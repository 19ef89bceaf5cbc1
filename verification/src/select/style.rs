//! Colour rules of `Select`.

use vstd::prelude::*;

use crate::field_style::{
    field_opacity, semantic_color, status_color, variant_colors, variant_tokens, FieldColorToken,
    FieldOpacity, FieldStatus, FieldVariant,
};

use super::props::{SelectSize, SelectStatus, SelectVariant};

verus! {

/// The resolved look of a select.
#[derive(Clone, Copy, Debug, PartialEq, Eq, Structural)]
pub struct ResolvedSelectStyle {
    /// Size whose metrics apply.
    pub size: SelectSize,
    pub background: FieldColorToken,
    pub border: FieldColorToken,
    pub text: FieldColorToken,
    pub helper: FieldColorToken,
    pub icon: FieldColorToken,
    pub opacity: FieldOpacity,
}

/// The shared status a select status stands for.
pub open spec fn select_field_status(status: SelectStatus) -> FieldStatus {
    match status {
        SelectStatus::Default => FieldStatus::Default,
        SelectStatus::Error => FieldStatus::Error,
        SelectStatus::Warning => FieldStatus::Warning,
        SelectStatus::Success => FieldStatus::Success,
    }
}

/// The shared variant a select variant stands for.
pub open spec fn select_field_variant(variant: SelectVariant) -> FieldVariant {
    match variant {
        SelectVariant::Outlined => FieldVariant::Outlined,
        SelectVariant::Filled => FieldVariant::Filled,
        SelectVariant::Borderless => FieldVariant::Borderless,
    }
}

/// The look of a select: a focused or open select without status shows the
/// focus colour, a status shows its colour on the border and helper text, and
/// a disabled select is faded with disabled text and icon.
pub open spec fn select_style_of(
    size: SelectSize,
    variant: SelectVariant,
    status: SelectStatus,
    focused: bool,
    open: bool,
    disabled: bool,
) -> ResolvedSelectStyle {
    let semantic = status_color(select_field_status(status), focused || open);
    let (background, border) = variant_colors(select_field_variant(variant), semantic);
    ResolvedSelectStyle {
        size,
        background,
        border,
        text: if disabled { FieldColorToken::DisabledText } else { FieldColorToken::Text },
        helper: if status == SelectStatus::Default { FieldColorToken::Helper } else { semantic },
        icon: if disabled { FieldColorToken::DisabledText } else { FieldColorToken::Icon },
        opacity: if disabled { FieldOpacity::Disabled } else { FieldOpacity::Full },
    }
}

/// Resolves the look of a select in the given state.
pub fn resolve_select_style(
    size: SelectSize,
    variant: SelectVariant,
    status: SelectStatus,
    focused: bool,
    open: bool,
    disabled: bool,
) -> (s: ResolvedSelectStyle)
    ensures
        s == select_style_of(size, variant, status, focused, open, disabled),
{
    let field_status = match status {
        SelectStatus::Default => FieldStatus::Default,
        SelectStatus::Error => FieldStatus::Error,
        SelectStatus::Warning => FieldStatus::Warning,
        SelectStatus::Success => FieldStatus::Success,
    };
    let field_variant = match variant {
        SelectVariant::Outlined => FieldVariant::Outlined,
        SelectVariant::Filled => FieldVariant::Filled,
        SelectVariant::Borderless => FieldVariant::Borderless,
    };
    let semantic = semantic_color(field_status, focused || open);
    let (background, border) = variant_tokens(field_variant, semantic);
    let is_default = match status {
        SelectStatus::Default => true,
        _ => false,
    };
    ResolvedSelectStyle {
        size,
        background,
        border,
        text: if disabled { FieldColorToken::DisabledText } else { FieldColorToken::Text },
        helper: if is_default { FieldColorToken::Helper } else { semantic },
        icon: if disabled { FieldColorToken::DisabledText } else { FieldColorToken::Icon },
        opacity: field_opacity(disabled),
    }
}

} // verus!
