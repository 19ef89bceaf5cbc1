//! Colour rules of `Button`: which theme token each part of a button uses for a
//! given variant, tone and interaction state. The rendering layer maps tokens to
//! the colours of the active theme and sizes to its layout metrics.

use vstd::prelude::*;

use super::props::{ButtonSize, ButtonTone, ButtonVariant};
use crate::field_style::{height_rank, FieldHeight};

verus! {

/// A colour token of the button theme.
#[derive(Clone, Copy, Debug, PartialEq, Eq, Structural)]
pub enum ButtonColorToken {
    PrimaryBackground,
    PrimaryHoverBackground,
    PrimaryActiveBackground,
    PrimaryText,
    DangerBackground,
    DangerHoverBackground,
    DangerActiveBackground,
    DangerText,
    SecondaryBackground,
    SecondaryHoverBackground,
    SecondaryActiveBackground,
    Text,
    Border,
    GhostHoverBackground,
    GhostActiveBackground,
    DangerGhostHoverBackground,
    DangerGhostActiveBackground,
    Focus,
    DisabledBackground,
    DisabledBorder,
    DisabledText,
    /// Fully transparent.
    Transparent,
}

/// Opacity level of a button.
#[derive(Clone, Copy, Debug, PartialEq, Eq, Structural)]
pub enum ButtonOpacity {
    /// Fully opaque.
    Full,
    /// Slightly faded while loading.
    Loading,
    /// Faded while disabled.
    Disabled,
}

/// Colours a variant and tone give a button before interaction states apply.
#[derive(Clone, Copy, Debug, PartialEq, Eq, Structural)]
pub struct ButtonChrome {
    pub background: ButtonColorToken,
    pub border: ButtonColorToken,
    pub text: ButtonColorToken,
    pub hover_background: ButtonColorToken,
    pub active_background: ButtonColorToken,
    pub underline: bool,
}

/// The resolved look of a button.
#[derive(Clone, Copy, Debug, PartialEq, Eq, Structural)]
pub struct ResolvedButtonStyle {
    /// Size whose layout metrics apply; focus never changes it.
    pub size: ButtonSize,
    pub background: ButtonColorToken,
    pub border: ButtonColorToken,
    pub text: ButtonColorToken,
    pub hover_background: ButtonColorToken,
    pub active_background: ButtonColorToken,
    pub opacity: ButtonOpacity,
    pub underline: bool,
}

/// Colours of a variant and tone. A danger tone recolours the filled variant
/// entirely; on the other variants it keeps the resting background and
/// changes only the text, the hover and press feedback and, for the outlined
/// variant, the border.
pub open spec fn chrome_of(variant: ButtonVariant, tone: ButtonTone) -> ButtonChrome {
    let danger = tone == ButtonTone::Danger;
    let solid_background = if danger { ButtonColorToken::DangerBackground } else { ButtonColorToken::PrimaryBackground };
    let subtle_text = if danger { ButtonColorToken::DangerBackground } else { ButtonColorToken::Text };
    let ghost_hover = if danger { ButtonColorToken::DangerGhostHoverBackground } else { ButtonColorToken::GhostHoverBackground };
    let ghost_active = if danger { ButtonColorToken::DangerGhostActiveBackground } else { ButtonColorToken::GhostActiveBackground };
    match variant {
        ButtonVariant::Primary => ButtonChrome {
            background: solid_background,
            border: solid_background,
            text: if danger { ButtonColorToken::DangerText } else { ButtonColorToken::PrimaryText },
            hover_background: if danger { ButtonColorToken::DangerHoverBackground } else { ButtonColorToken::PrimaryHoverBackground },
            active_background: if danger { ButtonColorToken::DangerActiveBackground } else { ButtonColorToken::PrimaryActiveBackground },
            underline: false,
        },
        ButtonVariant::Secondary => ButtonChrome {
            background: ButtonColorToken::SecondaryBackground,
            border: ButtonColorToken::Transparent,
            text: subtle_text,
            hover_background: if danger { ghost_active } else { ButtonColorToken::SecondaryHoverBackground },
            active_background: if danger { ghost_active } else { ButtonColorToken::SecondaryActiveBackground },
            underline: false,
        },
        ButtonVariant::Outline => ButtonChrome {
            background: ButtonColorToken::Transparent,
            border: if danger { ButtonColorToken::DangerBackground } else { ButtonColorToken::Border },
            text: subtle_text,
            hover_background: ghost_hover,
            active_background: ghost_active,
            underline: false,
        },
        ButtonVariant::Borderless => ButtonChrome {
            background: ButtonColorToken::Transparent,
            border: ButtonColorToken::Transparent,
            text: subtle_text,
            hover_background: ghost_hover,
            active_background: ghost_active,
            underline: false,
        },
        ButtonVariant::Link => ButtonChrome {
            background: ButtonColorToken::Transparent,
            border: ButtonColorToken::Transparent,
            text: subtle_text,
            hover_background: ButtonColorToken::Transparent,
            active_background: ghost_hover,
            underline: true,
        },
    }
}

/// The resolved look: disabled tokens replace background, border and text;
/// focus replaces only the border of an enabled button; disabled and loading
/// buttons show no hover or press feedback.
pub open spec fn style_of(
    size: ButtonSize,
    variant: ButtonVariant,
    tone: ButtonTone,
    focused: bool,
    disabled: bool,
    loading: bool,
) -> ResolvedButtonStyle {
    let chrome = chrome_of(variant, tone);
    ResolvedButtonStyle {
        size,
        background: if disabled { ButtonColorToken::DisabledBackground } else { chrome.background },
        border: if disabled {
            ButtonColorToken::DisabledBorder
        } else if focused {
            ButtonColorToken::Focus
        } else {
            chrome.border
        },
        text: if disabled { ButtonColorToken::DisabledText } else { chrome.text },
        hover_background: if disabled || loading { chrome.background } else { chrome.hover_background },
        active_background: if disabled || loading { chrome.background } else { chrome.active_background },
        opacity: if disabled {
            ButtonOpacity::Disabled
        } else if loading {
            ButtonOpacity::Loading
        } else {
            ButtonOpacity::Full
        },
        underline: chrome.underline,
    }
}

/// Colours of a variant and tone; a danger tone keeps the resting background
/// of every variant but the filled one.
pub fn resolve_chrome(variant: ButtonVariant, tone: ButtonTone) -> (c: ButtonChrome)
    ensures
        c == chrome_of(variant, tone),
{
    let danger = match tone {
        ButtonTone::Danger => true,
        ButtonTone::Default => false,
    };
    let solid_background = if danger { ButtonColorToken::DangerBackground } else { ButtonColorToken::PrimaryBackground };
    let subtle_text = if danger { ButtonColorToken::DangerBackground } else { ButtonColorToken::Text };
    let ghost_hover = if danger { ButtonColorToken::DangerGhostHoverBackground } else { ButtonColorToken::GhostHoverBackground };
    let ghost_active = if danger { ButtonColorToken::DangerGhostActiveBackground } else { ButtonColorToken::GhostActiveBackground };
    match variant {
        ButtonVariant::Primary => ButtonChrome {
            background: solid_background,
            border: solid_background,
            text: if danger { ButtonColorToken::DangerText } else { ButtonColorToken::PrimaryText },
            hover_background: if danger { ButtonColorToken::DangerHoverBackground } else { ButtonColorToken::PrimaryHoverBackground },
            active_background: if danger { ButtonColorToken::DangerActiveBackground } else { ButtonColorToken::PrimaryActiveBackground },
            underline: false,
        },
        ButtonVariant::Secondary => ButtonChrome {
            background: ButtonColorToken::SecondaryBackground,
            border: ButtonColorToken::Transparent,
            text: subtle_text,
            hover_background: if danger { ghost_active } else { ButtonColorToken::SecondaryHoverBackground },
            active_background: if danger { ghost_active } else { ButtonColorToken::SecondaryActiveBackground },
            underline: false,
        },
        ButtonVariant::Outline => ButtonChrome {
            background: ButtonColorToken::Transparent,
            border: if danger { ButtonColorToken::DangerBackground } else { ButtonColorToken::Border },
            text: subtle_text,
            hover_background: ghost_hover,
            active_background: ghost_active,
            underline: false,
        },
        ButtonVariant::Borderless => ButtonChrome {
            background: ButtonColorToken::Transparent,
            border: ButtonColorToken::Transparent,
            text: subtle_text,
            hover_background: ghost_hover,
            active_background: ghost_active,
            underline: false,
        },
        ButtonVariant::Link => ButtonChrome {
            background: ButtonColorToken::Transparent,
            border: ButtonColorToken::Transparent,
            text: subtle_text,
            hover_background: ButtonColorToken::Transparent,
            active_background: ghost_hover,
            underline: true,
        },
    }
}

/// Resolves the look of a button in the given interaction state.
pub fn resolve_button_style(
    size: ButtonSize,
    variant: ButtonVariant,
    tone: ButtonTone,
    focused: bool,
    disabled: bool,
    loading: bool,
) -> (s: ResolvedButtonStyle)
    ensures
        s == style_of(size, variant, tone, focused, disabled, loading),
{
    let chrome = resolve_chrome(variant, tone);
    let border = if focused && !disabled { ButtonColorToken::Focus } else { chrome.border };
    ResolvedButtonStyle {
        size,
        background: if disabled { ButtonColorToken::DisabledBackground } else { chrome.background },
        border: if disabled { ButtonColorToken::DisabledBorder } else { border },
        text: if disabled { ButtonColorToken::DisabledText } else { chrome.text },
        hover_background: if disabled || loading { chrome.background } else { chrome.hover_background },
        active_background: if disabled || loading { chrome.background } else { chrome.active_background },
        opacity: if disabled {
            ButtonOpacity::Disabled
        } else if loading {
            ButtonOpacity::Loading
        } else {
            ButtonOpacity::Full
        },
        underline: chrome.underline,
    }
}

/// Whether a button in this state may fire its click handler; mouse and keyboard
/// share this rule.
pub fn can_trigger(disabled: bool, loading: bool) -> (r: bool)
    ensures
        r == (!disabled && !loading),
{
    !disabled && !loading
}

/// On every variant but the filled one, a danger tone keeps the resting
/// background of the default tone.
pub proof fn lemma_danger_keeps_background(variant: ButtonVariant)
    requires
        variant != ButtonVariant::Primary,
    ensures
        chrome_of(variant, ButtonTone::Danger).background == chrome_of(variant, ButtonTone::Default).background,
{
}

/// Focus only changes the border colour of a button: everything else, the size
/// among it, stays as it is.
pub proof fn lemma_focus_only_changes_border(
    size: ButtonSize,
    variant: ButtonVariant,
    tone: ButtonTone,
    disabled: bool,
    loading: bool,
)
    ensures
        ({
            let plain = style_of(size, variant, tone, false, disabled, loading);
            let focused = style_of(size, variant, tone, true, disabled, loading);
            focused == (ResolvedButtonStyle { border: focused.border, ..plain })
        }),
        !disabled ==> style_of(size, variant, tone, true, disabled, loading).border == ButtonColorToken::Focus,
{
}

/// A loading button keeps the colours of its enabled look; only the feedback
/// and opacity differ.
pub proof fn lemma_loading_keeps_colours(
    size: ButtonSize,
    variant: ButtonVariant,
    tone: ButtonTone,
    focused: bool,
)
    ensures
        ({
            let idle = style_of(size, variant, tone, focused, false, false);
            let busy = style_of(size, variant, tone, focused, false, true);
            &&& busy.background == idle.background
            &&& busy.border == idle.border
            &&& busy.text == idle.text
            &&& busy.opacity == ButtonOpacity::Loading
            &&& idle.opacity == ButtonOpacity::Full
        }),
{
}

/// Layout metrics of a button size: the height and the edge of an icon-only
/// button as steps of the theme's field-height scale, and the metrics the
/// button itself fixes, in pixels. Paddings and fonts come from the theme.
#[derive(Clone, Copy, Debug, PartialEq, Eq, Structural)]
pub struct ButtonSizeTokens {
    /// Height of the button.
    pub height: FieldHeight,
    /// Edge of an icon-only button.
    pub icon_only_size: FieldHeight,
    /// Minimum width of a button with text.
    pub min_width: u32,
    /// Edge of its icons.
    pub icon_size: u32,
}

/// The metrics of a size, as a spec function.
pub open spec fn tokens_of(size: ButtonSize) -> ButtonSizeTokens {
    match size {
        ButtonSize::Small => ButtonSizeTokens {
            height: FieldHeight::Small,
            icon_only_size: FieldHeight::Small,
            min_width: 64,
            icon_size: 14,
        },
        ButtonSize::Medium => ButtonSizeTokens {
            height: FieldHeight::Medium,
            icon_only_size: FieldHeight::Medium,
            min_width: 80,
            icon_size: 16,
        },
        ButtonSize::Large => ButtonSizeTokens {
            height: FieldHeight::Large,
            icon_only_size: FieldHeight::Large,
            min_width: 96,
            icon_size: 18,
        },
    }
}

/// The metrics of a size: a button is as tall as a field of its size, and an
/// icon-only button is a square of that height.
pub fn size_tokens(size: ButtonSize) -> (t: ButtonSizeTokens)
    ensures
        t == tokens_of(size),
{
    match size {
        ButtonSize::Small => ButtonSizeTokens {
            height: FieldHeight::Small,
            icon_only_size: FieldHeight::Small,
            min_width: 64,
            icon_size: 14,
        },
        ButtonSize::Medium => ButtonSizeTokens {
            height: FieldHeight::Medium,
            icon_only_size: FieldHeight::Medium,
            min_width: 80,
            icon_size: 16,
        },
        ButtonSize::Large => ButtonSizeTokens {
            height: FieldHeight::Large,
            icon_only_size: FieldHeight::Large,
            min_width: 96,
            icon_size: 18,
        },
    }
}

/// Position of a button size, from the smallest.
pub open spec fn size_rank(size: ButtonSize) -> int {
    match size {
        ButtonSize::Small => 0,
        ButtonSize::Medium => 1,
        ButtonSize::Large => 2,
    }
}

/// An icon-only button is as wide as it is tall, and a larger size has a
/// larger height, minimum width and icon.
pub proof fn lemma_size_tokens_scale(a: ButtonSize, b: ButtonSize)
    ensures
        tokens_of(a).icon_only_size == tokens_of(a).height,
        size_rank(a) < size_rank(b) ==> {
            &&& height_rank(tokens_of(a).height) < height_rank(tokens_of(b).height)
            &&& tokens_of(a).min_width < tokens_of(b).min_width
            &&& tokens_of(a).icon_size < tokens_of(b).icon_size
        },
{
}

} // verus!
