//! Tests of `Button`: defaults, colour rules, interaction switches and the
//! loading spinner.

use xgpui::button::{
    can_trigger, loading_spinner_duration, resolve_button_style, should_blur_on_mouse_down_out,
    Button, ButtonColorToken, ButtonIcon, ButtonOpacity, ButtonProps, ButtonSize, ButtonTone,
    ButtonVariant,
};
use xgpui::button::size_tokens;

#[test]
fn default_props_describe_primary_medium_button() {
    let props = ButtonProps::new();

    assert_eq!(props.label, "按钮");
    assert_eq!(props.variant, ButtonVariant::Primary);
    assert_eq!(props.tone, ButtonTone::Default);
    assert_eq!(props.size, ButtonSize::Medium);
    assert!(!props.disabled);
    assert!(!props.loading);
    assert!(!props.block);
    assert!(!props.icon_only);
}

#[test]
fn primary_default_style_uses_primary_tokens() {
    let style = resolve_button_style(
        ButtonSize::Medium,
        ButtonVariant::Primary,
        ButtonTone::Default,
        false,
        false,
        false,
    );

    assert_eq!(style.background, ButtonColorToken::PrimaryBackground);
    assert_eq!(style.hover_background, ButtonColorToken::PrimaryHoverBackground);
    assert_eq!(style.active_background, ButtonColorToken::PrimaryActiveBackground);
    assert_eq!(style.text, ButtonColorToken::PrimaryText);
    assert!(!style.underline);
}

#[test]
fn outline_danger_style_uses_danger_semantics() {
    let style = resolve_button_style(
        ButtonSize::Medium,
        ButtonVariant::Outline,
        ButtonTone::Danger,
        false,
        false,
        false,
    );

    assert_eq!(style.border, ButtonColorToken::DangerBackground);
    assert_eq!(style.text, ButtonColorToken::DangerBackground);
    assert_eq!(style.hover_background, ButtonColorToken::DangerGhostHoverBackground);
}

#[test]
fn focused_style_uses_focus_border_without_size_change() {
    let normal = resolve_button_style(
        ButtonSize::Medium,
        ButtonVariant::Outline,
        ButtonTone::Default,
        false,
        false,
        false,
    );
    let focused = resolve_button_style(
        ButtonSize::Medium,
        ButtonVariant::Outline,
        ButtonTone::Default,
        true,
        false,
        false,
    );

    assert_eq!(focused.border, ButtonColorToken::Focus);
    assert_eq!(focused.size, normal.size);
}

#[test]
fn disabled_style_and_interaction_are_suppressed() {
    let style = resolve_button_style(
        ButtonSize::Medium,
        ButtonVariant::Primary,
        ButtonTone::Default,
        true,
        true,
        false,
    );

    assert_eq!(style.background, ButtonColorToken::DisabledBackground);
    assert_eq!(style.border, ButtonColorToken::DisabledBorder);
    assert_eq!(style.text, ButtonColorToken::DisabledText);
    assert!(!can_trigger(true, false));
}

#[test]
fn loading_keeps_visual_style_but_blocks_trigger() {
    let style = resolve_button_style(
        ButtonSize::Medium,
        ButtonVariant::Primary,
        ButtonTone::Default,
        false,
        false,
        true,
    );

    assert_eq!(style.background, ButtonColorToken::PrimaryBackground);
    assert_ne!(style.opacity, ButtonOpacity::Full);
    assert!(!can_trigger(false, true));
}

#[test]
fn mouse_down_out_blurs_only_when_button_is_focused() {
    assert!(should_blur_on_mouse_down_out(true));
    assert!(!should_blur_on_mouse_down_out(false));
}

#[test]
fn loading_spinner_uses_expected_animation_duration() {
    assert_eq!(loading_spinner_duration().as_millis(), 800);
}

#[test]
fn link_variant_uses_text_style() {
    let style = resolve_button_style(
        ButtonSize::Small,
        ButtonVariant::Link,
        ButtonTone::Default,
        false,
        false,
        false,
    );

    assert!(style.underline);
    assert_eq!(style.border, ButtonColorToken::Transparent);
    assert_eq!(size_tokens(style.size).min_width, 64);
}

#[test]
fn icon_only_button_falls_back_to_label_tooltip_and_shows_spinner_while_loading() {
    let mut button = Button::new(ButtonProps::new().label("删除").icon_only(true).leading_icon("trash"));
    assert_eq!(button.tooltip_text(), Some("删除".to_string()));
    assert_eq!(button.icon_only_icon(), Some(ButtonIcon::Named("trash".to_string())));
    button.set_loading(true);
    assert_eq!(button.icon_only_icon(), Some(ButtonIcon::LoadingSpinner));
    assert!(!button.can_trigger());

    let plain = Button::new(ButtonProps::new().label(""));
    assert_eq!(plain.tooltip_text(), None);
    let empty_icon_only = Button::new(ButtonProps::new().label("").icon_only(true));
    assert_eq!(empty_icon_only.tooltip_text(), None);
}

#[test]
fn size_tokens_scale_with_button_size() {
    let small = size_tokens(ButtonSize::Small);
    let medium = size_tokens(ButtonSize::Medium);
    let large = size_tokens(ButtonSize::Large);

    assert_eq!(small.icon_only_size, small.height);
    assert_eq!(medium.icon_only_size, medium.height);
    assert_eq!(large.icon_only_size, large.height);
    assert!(small.height < medium.height);
    assert!(medium.height < large.height);
}

#[test]
fn button_metrics_grow_with_size() {
    let small = size_tokens(ButtonSize::Small);
    let medium = size_tokens(ButtonSize::Medium);
    let large = size_tokens(ButtonSize::Large);

    assert!(small.min_width < medium.min_width);
    assert!(medium.min_width < large.min_width);
    assert!(small.icon_size < medium.icon_size);
    assert!(medium.icon_size < large.icon_size);
}

#[test]
fn enter_and_space_press_the_button_other_keys_pass() {
    let button = Button::new(ButtonProps::new().label("保存"));
    for key in ["enter", "space"] {
        let r = button.key_down_response(key);
        assert!(r.stop_propagation);
        assert!(r.click);
    }
    let r = button.key_down_response("a");
    assert!(!r.stop_propagation);
    assert!(!r.click);

    let mut busy = Button::new(ButtonProps::new().label("保存"));
    busy.set_loading(true);
    let r = busy.key_down_response("enter");
    assert!(r.stop_propagation);
    assert!(!r.click);
    let r = busy.click_response();
    assert!(r.stop_propagation);
    assert!(!r.click);
    assert!(button.click_response().click);
}

#[test]
fn danger_tone_keeps_resting_background_of_lighter_variants() {
    for variant in [
        ButtonVariant::Secondary,
        ButtonVariant::Outline,
        ButtonVariant::Borderless,
        ButtonVariant::Link,
    ] {
        let danger = resolve_button_style(ButtonSize::Medium, variant, ButtonTone::Danger, false, false, false);
        let plain = resolve_button_style(ButtonSize::Medium, variant, ButtonTone::Default, false, false, false);
        assert_eq!(danger.background, plain.background);
        assert_ne!(danger.text, plain.text);
    }
    let danger = resolve_button_style(
        ButtonSize::Medium,
        ButtonVariant::Secondary,
        ButtonTone::Danger,
        false,
        false,
        false,
    );
    assert_eq!(danger.background, ButtonColorToken::SecondaryBackground);
    assert_eq!(danger.hover_background, ButtonColorToken::DangerGhostActiveBackground);
}
