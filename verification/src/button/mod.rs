//! `Button`: a clickable action with variants, tones, loading and disabled states.

pub mod props;
pub mod style;

use vstd::prelude::*;

pub use props::{ButtonProps, ButtonSize, ButtonTone, ButtonVariant};
pub use style::{
    can_trigger, resolve_button_style, resolve_chrome, size_tokens, ButtonChrome, ButtonColorToken,
    ButtonOpacity, ButtonSizeTokens, ResolvedButtonStyle,
};

use style::style_of;
use crate::text::{chars_equal, chars_of};

verus! {

/// Length of a repeating animation cycle.
#[derive(Clone, Copy, Debug, PartialEq, Eq, Structural)]
pub struct AnimationDuration {
    /// Length in milliseconds.
    pub millis: u64,
}

impl AnimationDuration {
    /// Length in milliseconds.
    pub fn as_millis(&self) -> (r: u128)
        ensures
            r == self.millis,
    {
        self.millis as u128
    }
}

/// Milliseconds of one full turn of the loading spinner.
pub const LOADING_SPINNER_DURATION_MILLIS: u64 = 800;

/// Length of one full turn of the loading spinner.
pub fn loading_spinner_duration() -> (d: AnimationDuration)
    ensures
        d.millis == LOADING_SPINNER_DURATION_MILLIS,
{
    AnimationDuration { millis: LOADING_SPINNER_DURATION_MILLIS }
}

/// What an icon-only button shows.
#[derive(Clone, Debug, PartialEq, Eq)]
pub enum ButtonIcon {
    /// The rotating loading ring.
    LoadingSpinner,
    /// A named icon of the application's icon set.
    Named(String),
}

/// Interaction state of a button.
#[derive(Debug)]
pub struct Button {
    label: String,
    variant: ButtonVariant,
    tone: ButtonTone,
    size: ButtonSize,
    disabled: bool,
    loading: bool,
    block: bool,
    icon_only: bool,
    leading_icon: Option<String>,
    trailing_icon: Option<String>,
    tooltip: Option<String>,
}

/// What a button holds, as plain values.
pub struct ButtonView {
    pub label: Seq<char>,
    pub variant: ButtonVariant,
    pub tone: ButtonTone,
    pub size: ButtonSize,
    pub disabled: bool,
    pub loading: bool,
    pub block: bool,
    pub icon_only: bool,
    pub leading_icon: Option<Seq<char>>,
    pub trailing_icon: Option<Seq<char>>,
    pub tooltip: Option<Seq<char>>,
}

/// A text option by its characters.
pub open spec fn text_of(o: Option<String>) -> Option<Seq<char>> {
    match o {
        Some(s) => Some(s@),
        None => None,
    }
}

/// The tooltip a button shows: the explicit one, or the label of an icon-only
/// button; an empty text shows none.
pub open spec fn tooltip_for(view: ButtonView) -> Option<Seq<char>> {
    let candidate = match view.tooltip {
        Some(t) => Some(t),
        None => if view.icon_only { Some(view.label) } else { None },
    };
    match candidate {
        Some(t) => if t.len() > 0 { Some(t) } else { None },
        None => None,
    }
}

impl View for Button {
    type V = ButtonView;

    closed spec fn view(&self) -> ButtonView {
        ButtonView {
            label: self.label@,
            variant: self.variant,
            tone: self.tone,
            size: self.size,
            disabled: self.disabled,
            loading: self.loading,
            block: self.block,
            icon_only: self.icon_only,
            leading_icon: text_of(self.leading_icon),
            trailing_icon: text_of(self.trailing_icon),
            tooltip: text_of(self.tooltip),
        }
    }
}

fn clone_text(o: &Option<String>) -> (r: Option<String>)
    ensures
        text_of(r) == text_of(*o),
{
    match o {
        Some(s) => Some(s.clone()),
        None => None,
    }
}

impl Button {
    /// A button with the given parameters.
    pub fn new(props: ButtonProps) -> (b: Self)
        ensures
            b@ == (ButtonView {
                label: props.label@,
                variant: props.variant,
                tone: props.tone,
                size: props.size,
                disabled: props.disabled,
                loading: props.loading,
                block: props.block,
                icon_only: props.icon_only,
                leading_icon: text_of(props.leading_icon),
                trailing_icon: text_of(props.trailing_icon),
                tooltip: text_of(props.tooltip),
            }),
    {
        Button {
            label: props.label,
            variant: props.variant,
            tone: props.tone,
            size: props.size,
            disabled: props.disabled,
            loading: props.loading,
            block: props.block,
            icon_only: props.icon_only,
            leading_icon: props.leading_icon,
            trailing_icon: props.trailing_icon,
            tooltip: props.tooltip,
        }
    }

    /// Label.
    pub fn label(&self) -> (r: &str)
        ensures
            r@ == self@.label,
    {
        self.label.as_str()
    }

    /// Whether the button is disabled.
    pub fn is_disabled(&self) -> (r: bool)
        ensures
            r == self@.disabled,
    {
        self.disabled
    }

    /// Whether the button is loading.
    pub fn is_loading(&self) -> (r: bool)
        ensures
            r == self@.loading,
    {
        self.loading
    }

    /// Whether the button fills its container's width.
    pub fn is_block(&self) -> (r: bool)
        ensures
            r == self@.block,
    {
        self.block
    }

    /// Changes the loading state; nothing else changes.
    pub fn set_loading(&mut self, loading: bool)
        ensures
            final(self)@ == (ButtonView { loading, ..old(self)@ }),
    {
        self.loading = loading;
    }

    /// Changes the disabled state; nothing else changes.
    pub fn set_disabled(&mut self, disabled: bool)
        ensures
            final(self)@ == (ButtonView { disabled, ..old(self)@ }),
    {
        self.disabled = disabled;
    }

    /// Whether a click or Enter/Space currently fires the click handler.
    pub fn can_trigger(&self) -> (r: bool)
        ensures
            r == (!self@.disabled && !self@.loading),
    {
        can_trigger(self.disabled, self.loading)
    }

    /// What a key press does: Enter and Space are taken by the button (they go
    /// no further) and fire the click handler when the button can trigger;
    /// other keys pass on untouched.
    pub fn key_down_response(&self, key: &str) -> (r: ButtonInputResponse)
        ensures
            r.stop_propagation == is_activation_key(key@),
            r.click == (is_activation_key(key@) && !self@.disabled && !self@.loading),
    {
        let k = chars_of(key);
        let activates = chars_equal(&k, &chars_of("enter")) || chars_equal(&k, &chars_of("space"));
        ButtonInputResponse { stop_propagation: activates, click: activates && self.can_trigger() }
    }

    /// What a mouse click does: it always stops at the button, and fires the
    /// click handler when the button can trigger.
    pub fn click_response(&self) -> (r: ButtonInputResponse)
        ensures
            r.stop_propagation,
            r.click == (!self@.disabled && !self@.loading),
    {
        ButtonInputResponse { stop_propagation: true, click: self.can_trigger() }
    }

    /// The look of the button, focused or not.
    pub fn resolved_style(&self, focused: bool) -> (s: ResolvedButtonStyle)
        ensures
            s == style_of(self@.size, self@.variant, self@.tone, focused, self@.disabled, self@.loading),
    {
        resolve_button_style(self.size, self.variant, self.tone, focused, self.disabled, self.loading)
    }

    /// The tooltip text, if any: the explicit tooltip, or the label of an
    /// icon-only button, and never an empty text.
    pub fn tooltip_text(&self) -> (r: Option<String>)
        ensures
            text_of(r) == tooltip_for(self@),
    {
        let candidate = match &self.tooltip {
            Some(t) => Some(t.clone()),
            None => if self.icon_only { Some(self.label.clone()) } else { None },
        };
        match candidate {
            Some(t) => if t.as_str().is_empty() { None } else { Some(t) },
            None => None,
        }
    }

    /// The icon of an icon-only button: the loading ring while loading, else the
    /// leading icon, else the trailing one.
    pub fn icon_only_icon(&self) -> (r: Option<ButtonIcon>)
        ensures
            self@.loading ==> r == Some(ButtonIcon::LoadingSpinner),
            !self@.loading ==> match r {
                Some(ButtonIcon::Named(name)) => Some(name@) == (if self@.leading_icon is Some {
                    self@.leading_icon
                } else {
                    self@.trailing_icon
                }),
                Some(ButtonIcon::LoadingSpinner) => false,
                None => self@.leading_icon is None && self@.trailing_icon is None,
            },
    {
        if self.loading {
            Some(ButtonIcon::LoadingSpinner)
        } else {
            match clone_text(&self.leading_icon) {
                Some(name) => Some(ButtonIcon::Named(name)),
                None => match clone_text(&self.trailing_icon) {
                    Some(name) => Some(ButtonIcon::Named(name)),
                    None => None,
                },
            }
        }
    }
}

/// Keys that press a button: Enter and Space.
pub open spec fn is_activation_key(key: Seq<char>) -> bool {
    key == "enter"@ || key == "space"@
}

/// What the button does with an input event.
#[derive(Clone, Copy, Debug, PartialEq, Eq, Structural)]
pub struct ButtonInputResponse {
    /// The event goes no further than the button.
    pub stop_propagation: bool,
    /// The click handler fires.
    pub click: bool,
}

/// Whether a mouse press outside the button should take focus away from it: only
/// when it has focus.
pub fn should_blur_on_mouse_down_out(focused: bool) -> (r: bool)
    ensures
        r == focused,
{
    focused
}

} // verus!
