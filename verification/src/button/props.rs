//! Public parameter types of `Button`.

use vstd::prelude::*;

verus! {

/// Size of a button.
#[derive(Clone, Copy, Debug, PartialEq, Eq, Structural)]
pub enum ButtonSize {
    /// Dense toolbars and table rows.
    Small,
    /// Regular forms.
    Medium,
    /// Emphasised areas.
    Large,
}

impl Default for ButtonSize {
    fn default() -> (s: Self)
        ensures
            s == ButtonSize::Medium,
    {
        ButtonSize::Medium
    }
}

/// Visual hierarchy of a button.
#[derive(Clone, Copy, Debug, PartialEq, Eq, Structural)]
pub enum ButtonVariant {
    /// Filled with the primary colour.
    Primary,
    /// Lightly filled.
    Secondary,
    /// Bordered, transparent background.
    Outline,
    /// No border and no background until hovered.
    Borderless,
    /// Looks like an underlined link.
    Link,
}

impl Default for ButtonVariant {
    fn default() -> (v: Self)
        ensures
            v == ButtonVariant::Primary,
    {
        ButtonVariant::Primary
    }
}

/// Semantic tone of a button.
#[derive(Clone, Copy, Debug, PartialEq, Eq, Structural)]
pub enum ButtonTone {
    /// Ordinary action.
    Default,
    /// Destructive action.
    Danger,
}

impl Default for ButtonTone {
    fn default() -> (t: Self)
        ensures
            t == ButtonTone::Default,
    {
        ButtonTone::Default
    }
}

/// Creation parameters of a button. Icons are named by the application's icon
/// set; the click handler is attached by the rendering layer.
#[derive(Debug)]
pub struct ButtonProps {
    /// Text of the button; also the tooltip fallback of icon-only buttons.
    pub label: String,
    /// Visual hierarchy.
    pub variant: ButtonVariant,
    /// Semantic tone.
    pub tone: ButtonTone,
    /// Size.
    pub size: ButtonSize,
    /// A disabled button neither takes clicks nor shows hover feedback.
    pub disabled: bool,
    /// A loading button keeps its colours but takes no clicks.
    pub loading: bool,
    /// Whether the button fills the width of its container.
    pub block: bool,
    /// Whether only an icon is shown.
    pub icon_only: bool,
    /// Icon before the label.
    pub leading_icon: Option<String>,
    /// Icon after the label.
    pub trailing_icon: Option<String>,
    /// Explicit tooltip.
    pub tooltip: Option<String>,
}

impl ButtonProps {
    /// The default parameters: an enabled primary medium button labelled "按钮".
    pub fn new() -> (p: Self)
        ensures
            p.label@ == "按钮"@,
            p.variant == ButtonVariant::Primary,
            p.tone == ButtonTone::Default,
            p.size == ButtonSize::Medium,
            !p.disabled,
            !p.loading,
            !p.block,
            !p.icon_only,
            p.leading_icon is None,
            p.trailing_icon is None,
            p.tooltip is None,
    {
        ButtonProps {
            label: "按钮".to_owned(),
            variant: ButtonVariant::Primary,
            tone: ButtonTone::Default,
            size: ButtonSize::Medium,
            disabled: false,
            loading: false,
            block: false,
            icon_only: false,
            leading_icon: None,
            trailing_icon: None,
            tooltip: None,
        }
    }

    /// Sets the label.
    pub fn label(self, label: &str) -> (p: Self)
        ensures
            p == (ButtonProps { label: p.label, ..self }),
            p.label@ == label@,
    {
        ButtonProps { label: label.to_owned(), ..self }
    }

    /// Sets the variant.
    pub fn variant(self, variant: ButtonVariant) -> (p: Self)
        ensures
            p == (ButtonProps { variant, ..self }),
    {
        ButtonProps { variant, ..self }
    }

    /// Sets the tone.
    pub fn tone(self, tone: ButtonTone) -> (p: Self)
        ensures
            p == (ButtonProps { tone, ..self }),
    {
        ButtonProps { tone, ..self }
    }

    /// Sets the size.
    pub fn size(self, size: ButtonSize) -> (p: Self)
        ensures
            p == (ButtonProps { size, ..self }),
    {
        ButtonProps { size, ..self }
    }

    /// Sets the disabled flag.
    pub fn disabled(self, disabled: bool) -> (p: Self)
        ensures
            p == (ButtonProps { disabled, ..self }),
    {
        ButtonProps { disabled, ..self }
    }

    /// Sets the loading flag.
    pub fn loading(self, loading: bool) -> (p: Self)
        ensures
            p == (ButtonProps { loading, ..self }),
    {
        ButtonProps { loading, ..self }
    }

    /// Sets whether the button fills its container's width.
    pub fn block(self, block: bool) -> (p: Self)
        ensures
            p == (ButtonProps { block, ..self }),
    {
        ButtonProps { block, ..self }
    }

    /// Sets whether only an icon is shown.
    pub fn icon_only(self, icon_only: bool) -> (p: Self)
        ensures
            p == (ButtonProps { icon_only, ..self }),
    {
        ButtonProps { icon_only, ..self }
    }

    /// Sets the icon before the label.
    pub fn leading_icon(self, icon: &str) -> (p: Self)
        ensures
            p == (ButtonProps { leading_icon: p.leading_icon, ..self }),
            p.leading_icon matches Some(name) && name@ == icon@,
    {
        ButtonProps { leading_icon: Some(icon.to_owned()), ..self }
    }

    /// Sets the icon after the label.
    pub fn trailing_icon(self, icon: &str) -> (p: Self)
        ensures
            p == (ButtonProps { trailing_icon: p.trailing_icon, ..self }),
            p.trailing_icon matches Some(name) && name@ == icon@,
    {
        ButtonProps { trailing_icon: Some(icon.to_owned()), ..self }
    }

    /// Sets the tooltip.
    pub fn tooltip(self, tooltip: &str) -> (p: Self)
        ensures
            p == (ButtonProps { tooltip: p.tooltip, ..self }),
            p.tooltip matches Some(text) && text@ == tooltip@,
    {
        ButtonProps { tooltip: Some(tooltip.to_owned()), ..self }
    }
}

} // verus!
