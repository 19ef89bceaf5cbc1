//! Colour rules of `DataTable`'s frame.

use vstd::prelude::*;

use crate::field_style::{
    field_opacity, semantic_color, status_color, variant_colors, variant_tokens, FieldColorToken,
    FieldOpacity, FieldStatus, FieldVariant,
};

use super::props::{DataTableSize, DataTableStatus, DataTableVariant};

verus! {

/// The resolved look of a table frame.
#[derive(Clone, Copy, Debug, PartialEq, Eq, Structural)]
pub struct ResolvedDataTableStyle {
    /// Size whose metrics apply.
    pub size: DataTableSize,
    pub background: FieldColorToken,
    pub border: FieldColorToken,
    pub text: FieldColorToken,
    pub muted_text: FieldColorToken,
    pub helper: FieldColorToken,
    pub opacity: FieldOpacity,
}

/// The shared status a table status stands for.
pub open spec fn table_field_status(status: DataTableStatus) -> FieldStatus {
    match status {
        DataTableStatus::Default => FieldStatus::Default,
        DataTableStatus::Error => FieldStatus::Error,
        DataTableStatus::Warning => FieldStatus::Warning,
        DataTableStatus::Success => FieldStatus::Success,
    }
}

/// The shared variant a table variant stands for.
pub open spec fn table_field_variant(variant: DataTableVariant) -> FieldVariant {
    match variant {
        DataTableVariant::Outlined => FieldVariant::Outlined,
        DataTableVariant::Filled => FieldVariant::Filled,
        DataTableVariant::Borderless => FieldVariant::Borderless,
    }
}

/// The look of a table frame: a focused table without status shows the focus
/// colour, a status shows its colour on the border and helper text, and a
/// disabled table is faded with disabled text.
pub open spec fn table_style_of(
    size: DataTableSize,
    variant: DataTableVariant,
    status: DataTableStatus,
    focused: bool,
    disabled: bool,
) -> ResolvedDataTableStyle {
    let semantic = status_color(table_field_status(status), focused);
    let (background, border) = variant_colors(table_field_variant(variant), semantic);
    ResolvedDataTableStyle {
        size,
        background,
        border,
        text: if disabled { FieldColorToken::DisabledText } else { FieldColorToken::Text },
        muted_text: if disabled { FieldColorToken::DisabledText } else { FieldColorToken::MutedText },
        helper: if status == DataTableStatus::Default { FieldColorToken::Helper } else { semantic },
        opacity: if disabled { FieldOpacity::Disabled } else { FieldOpacity::Full },
    }
}

/// Resolves the look of a table frame in the given state.
pub fn resolve_data_table_style(
    size: DataTableSize,
    variant: DataTableVariant,
    status: DataTableStatus,
    focused: bool,
    disabled: bool,
) -> (s: ResolvedDataTableStyle)
    ensures
        s == table_style_of(size, variant, status, focused, disabled),
{
    let field_status = match status {
        DataTableStatus::Default => FieldStatus::Default,
        DataTableStatus::Error => FieldStatus::Error,
        DataTableStatus::Warning => FieldStatus::Warning,
        DataTableStatus::Success => FieldStatus::Success,
    };
    let field_variant = match variant {
        DataTableVariant::Outlined => FieldVariant::Outlined,
        DataTableVariant::Filled => FieldVariant::Filled,
        DataTableVariant::Borderless => FieldVariant::Borderless,
    };
    let semantic = semantic_color(field_status, focused);
    let (background, border) = variant_tokens(field_variant, semantic);
    let is_default = match status {
        DataTableStatus::Default => true,
        _ => false,
    };
    ResolvedDataTableStyle {
        size,
        background,
        border,
        text: if disabled { FieldColorToken::DisabledText } else { FieldColorToken::Text },
        muted_text: if disabled { FieldColorToken::DisabledText } else { FieldColorToken::MutedText },
        helper: if is_default { FieldColorToken::Helper } else { semantic },
        opacity: field_opacity(disabled),
    }
}

} // verus!
