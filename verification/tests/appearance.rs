use tui_vfx_recipes::color::{
    color_config_to_term, flags_of, indexed_color_to_rgb, modifier_list, rgba_to_term_color, style_config_to_term,
    term_color_to_rgba, term_to_color_config, Rgba, TermColor,
};
use tui_vfx_recipes::config::{
    animation_type, build_appearance, convert_modifiers, default_true, loop_period_ms, string_to_modifier,
    RaAnimationType, RaBaseStyle, RaBorderConfig, RaBorderTrim, RaBorderType, RaCustomBorderChars, RaLifecycleConfig,
    RaPaddingConfig, RaTimeConfig, RaTitleAlignment, RaTitlePosition,
};
use tui_vfx_recipes::chrome::centered_appearance;
use tui_vfx_recipes::geometry::Rect;
use tui_vfx_recipes::recipes::strings_to_modifiers;
use tui_vfx_recipes::state::AnimationPhase;
use tui_vfx_recipes::theme::{
    resolve_effective_appearance, AppearanceConfig, BorderGlyphs, BorderSetConfig, BorderTypeConfig, BordersConfig,
    ChromeConfig, ColorConfig, Fade, FadeConfig, FadeDirection, FadeTarget, ModifierConfig, PaddingConfig, StyleConfig,
    Theme, TitleAlignment, TitleConfig, TitlePosition,
};
use tui_vfx_recipes::types::{Animation, AutoDismiss, SlideBorderTrimPolicy};

fn linear() -> tui_vfx_geometry::types::EasingCurve {
    tui_vfx_geometry::types::EasingCurve::Type(tui_vfx_geometry::easing::EasingType::Linear)
}

fn empty_chrome() -> ChromeConfig {
    ChromeConfig {
        borders: None,
        border_type: None,
        border_set: None,
        custom_border_set: None,
        padding: None,
        frame_style: None,
        border_style: None,
        title: None,
    }
}

#[test]
fn default_theme_gives_rounded_white_chrome() {
    let theme = Theme::default_theme();
    let r = resolve_effective_appearance(&theme, None, AnimationPhase::Dwelling);
    assert_eq!(r.borders, BordersConfig::all());
    assert_eq!(r.border_type, BorderTypeConfig::Rounded);
    assert!(matches!(r.border_set, BorderGlyphs::Preset(BorderSetConfig::Rounded)));
    assert_eq!(r.padding, PaddingConfig::zero());
    assert_eq!(r.text_style.fg, Some(ColorConfig::White));
    assert!(r.fade_enter.is_none() && r.fade_exit.is_none());
}

#[test]
fn item_chrome_overrides_theme_field_by_field() {
    let theme = Theme::default_theme();
    let app = AppearanceConfig {
        chrome: Some(ChromeConfig {
            border_type: Some(BorderTypeConfig::Double),
            padding: Some(PaddingConfig { top: 1, right: 2, bottom: 3, left: 4 }),
            title: Some(TitleConfig { text: "Hi".to_string(), position: TitlePosition::Left, alignment: TitleAlignment::Center }),
            ..empty_chrome()
        }),
        text: None,
        fade: None,
    };
    let r = resolve_effective_appearance(&theme, Some(&app), AnimationPhase::Entering);
    assert_eq!(r.border_type, BorderTypeConfig::Double);
    assert_eq!(r.padding, PaddingConfig { top: 1, right: 2, bottom: 3, left: 4 });
    assert_eq!(r.borders, BordersConfig::all());
    assert!(matches!(r.border_set, BorderGlyphs::Preset(BorderSetConfig::Rounded)));
    assert_eq!(r.title.unwrap().text, "Hi");
    assert_eq!(r.text_style.fg, Some(ColorConfig::White));
}

#[test]
fn appearance_without_chrome_turns_borders_off() {
    let theme = Theme::default_theme();
    let app = AppearanceConfig { chrome: None, text: None, fade: None };
    let r = resolve_effective_appearance(&theme, Some(&app), AnimationPhase::Dwelling);
    assert_eq!(r.borders, BordersConfig::none());
    assert_eq!(r.border_type, BorderTypeConfig::Plain);
    assert_eq!(r.frame_style.fg, None);
    assert_eq!(r.text_style.fg, Some(ColorConfig::White));
}

#[test]
fn fades_follow_the_phase_and_direction() {
    let theme = Theme::default_theme();
    let f = Fade { direction: FadeDirection::Out, apply_to: FadeTarget::Both, ease: linear() };
    let app = AppearanceConfig {
        chrome: Some(empty_chrome()),
        text: None,
        fade: Some(FadeConfig { enter: Some(f), exit: Some(Fade { direction: FadeDirection::In, ..f }) }),
    };
    let entering = resolve_effective_appearance(&theme, Some(&app), AnimationPhase::Entering);
    assert_eq!(entering.fade_enter.unwrap().direction, FadeDirection::In);
    assert!(entering.fade_exit.is_none());
    let exiting = resolve_effective_appearance(&theme, Some(&app), AnimationPhase::Exiting);
    assert!(exiting.fade_enter.is_none());
    assert_eq!(exiting.fade_exit.unwrap().direction, FadeDirection::Out);
    let dwelling = resolve_effective_appearance(&theme, Some(&app), AnimationPhase::Dwelling);
    assert!(dwelling.fade_for_phase().is_none());
}

#[test]
fn modifier_names_ignore_case() {
    assert_eq!(string_to_modifier(&"BOLD".to_string()), Some(ModifierConfig::Bold));
    assert_eq!(string_to_modifier(&"Strikethrough".to_string()), Some(ModifierConfig::CrossedOut));
    assert_eq!(string_to_modifier(&"slowblink".to_string()), Some(ModifierConfig::SlowBlink));
    assert_eq!(string_to_modifier(&"sparkly".to_string()), None);
    let mods = convert_modifiers(&vec!["Italic".to_string(), "nope".to_string(), "underline".to_string()]);
    assert_eq!(mods, vec![ModifierConfig::Italic, ModifierConfig::Underlined]);
}

#[test]
fn interaction_modifier_names_use_upper_case() {
    assert_eq!(strings_to_modifiers(&vec![]), None);
    let f = strings_to_modifiers(&vec!["bold".to_string(), "crossed_out".to_string(), "x".to_string()]).unwrap();
    assert!(f.bold && f.strikethrough);
    assert!(!f.italic && !f.dim && !f.hidden);
}

#[test]
fn animation_type_is_inferred_from_slide() {
    assert_eq!(animation_type(RaAnimationType::Slide, false, false), Animation::Slide);
    assert_eq!(animation_type(RaAnimationType::Slide, true, true), Animation::ExpandCollapse);
    assert_eq!(animation_type(RaAnimationType::Slide, false, true), Animation::Motion);
    assert_eq!(animation_type(RaAnimationType::CustomMotion, false, false), Animation::Motion);
    assert_eq!(animation_type(RaAnimationType::Immediate, true, true), Animation::Immediate);
    assert_eq!(animation_type(RaAnimationType::Fade, true, false), Animation::Fade);
}

#[test]
fn lifecycle_and_time_settings() {
    assert_eq!(RaLifecycleConfig::default().auto_dismiss(), AutoDismiss::After(4000));
    assert_eq!(RaLifecycleConfig { auto_dismiss_ms: 0 }.auto_dismiss(), AutoDismiss::Manual);
    assert_eq!(loop_period_ms(None), None);
    assert_eq!(loop_period_ms(Some(RaTimeConfig::default())), None);
    assert_eq!(loop_period_ms(Some(RaTimeConfig { is_loop: true, loop_period_ms: 0 })), None);
    assert_eq!(loop_period_ms(Some(RaTimeConfig { is_loop: true, loop_period_ms: 750 })), Some(750));
    assert!(default_true());
}

#[test]
fn recipe_border_becomes_chrome() {
    let border = RaBorderConfig {
        border_type: RaBorderType::Borderless,
        trim: RaBorderTrim::VanishingEdge,
        padding: RaPaddingConfig { top: 0, right: 1, bottom: 0, left: 0 },
        center_content: false,
        title: Some("T".to_string()),
        title_position: RaTitlePosition::Bottom,
        title_alignment: RaTitleAlignment::Right,
        custom_chars: Some(RaCustomBorderChars {
            top_left: "a".to_string(),
            top_right: "b".to_string(),
            bottom_left: "c".to_string(),
            bottom_right: "d".to_string(),
            horizontal_top: "─".to_string(),
            horizontal_bottom: "─".to_string(),
            vertical_left: "│".to_string(),
            vertical_right: "│".to_string(),
        }),
        frame: None,
    };
    assert_eq!(border.border_trim_policy(), SlideBorderTrimPolicy::VanishingEdge);
    let base = RaBaseStyle {
        foreground: Some(ColorConfig::Cyan),
        background: None,
        added_modifiers: vec!["bold".to_string()],
        removed_modifiers: vec![],
    };
    let a = build_appearance(&border, &base, None, None);
    let c = a.chrome.unwrap();
    assert_eq!(c.borders, Some(BordersConfig::none()));
    assert_eq!(c.border_type, Some(BorderTypeConfig::Plain));
    assert_eq!(c.padding, Some(PaddingConfig { top: 0, right: 1, bottom: 0, left: 0 }));
    assert_eq!(c.custom_border_set.unwrap().top_left, "a");
    let t = c.title.unwrap();
    assert_eq!((t.position, t.alignment), (TitlePosition::Bottom, TitleAlignment::Right));
    assert_eq!(c.border_style.unwrap().add_modifier, vec![ModifierConfig::Bold]);
    assert_eq!(a.text.unwrap().style.unwrap().fg, Some(ColorConfig::Cyan));
    assert!(a.fade.is_none());
    let plain = build_appearance(&RaBorderConfig::default(), &RaBaseStyle::default(), None, None);
    let pc = plain.chrome.unwrap();
    assert_eq!((pc.borders, pc.border_type, pc.padding), (None, Some(BorderTypeConfig::Rounded), None));
}

#[test]
fn palette_follows_xterm() {
    assert_eq!(indexed_color_to_rgb(1), Rgba { r: 128, g: 0, b: 0, a: 255 });
    assert_eq!(indexed_color_to_rgb(16), Rgba { r: 0, g: 0, b: 0, a: 255 });
    // 196 = 16 + 36*5: pure red in the cube.
    assert_eq!(indexed_color_to_rgb(196), Rgba { r: 255, g: 0, b: 0, a: 255 });
    // 110 = 16 + 36*2 + 6*3 + 4
    assert_eq!(indexed_color_to_rgb(110), Rgba { r: 135, g: 175, b: 215, a: 255 });
    assert_eq!(indexed_color_to_rgb(232), Rgba { r: 8, g: 8, b: 8, a: 255 });
    assert_eq!(indexed_color_to_rgb(255), Rgba { r: 238, g: 238, b: 238, a: 255 });
}

#[test]
fn colors_convert_both_ways() {
    assert_eq!(term_color_to_rgba(TermColor::Reset).a, 0);
    assert_eq!(term_color_to_rgba(TermColor::LightBlue), Rgba { r: 92, g: 92, b: 255, a: 255 });
    assert_eq!(rgba_to_term_color(Rgba { r: 1, g: 2, b: 3, a: 0 }), TermColor::Reset);
    assert_eq!(rgba_to_term_color(Rgba { r: 1, g: 2, b: 3, a: 9 }), TermColor::Rgb(1, 2, 3));
    assert_eq!(color_config_to_term(ColorConfig::LightGray), TermColor::Gray);
    assert_eq!(term_to_color_config(color_config_to_term(ColorConfig::Indexed { value: 7 })), ColorConfig::Indexed { value: 7 });
    let mods = vec![ModifierConfig::Hidden, ModifierConfig::Bold, ModifierConfig::Bold];
    let f = flags_of(&mods);
    assert_eq!(modifier_list(f), vec![ModifierConfig::Bold, ModifierConfig::Hidden]);
    let style = StyleConfig { fg: Some(ColorConfig::Red), bg: None, add_modifier: mods, sub_modifier: vec![ModifierConfig::Dim] };
    let t = style_config_to_term(&style);
    assert_eq!(t.fg, Some(TermColor::Red));
    assert!(t.add_modifier.bold && t.add_modifier.hidden && !t.add_modifier.dim);
}

#[test]
fn centered_appearance_centres_message_and_keeps_the_rest() {
    let app = AppearanceConfig {
        chrome: Some(ChromeConfig {
            border_type: Some(BorderTypeConfig::Double),
            padding: Some(PaddingConfig { top: 0, right: 1, bottom: 0, left: 1 }),
            ..empty_chrome()
        }),
        text: None,
        fade: None,
    };
    // 20 x 7 area, borders and padding leave 16 x 5; "hello" is 5 x 1.
    let r = centered_appearance(Some(&app), "hello", Rect::new(0, 0, 20, 7));
    let chrome = r.chrome.unwrap();
    assert_eq!(chrome.padding, Some(PaddingConfig { top: 2, right: 6, bottom: 2, left: 6 }));
    assert_eq!(chrome.border_type, Some(BorderTypeConfig::Double));
    assert!(r.text.is_none() && r.fade.is_none());

    let bare = centered_appearance(None, "ab\ncd", Rect::new(0, 0, 10, 6));
    let chrome = bare.chrome.unwrap();
    assert_eq!(chrome.padding, Some(PaddingConfig { top: 1, right: 3, bottom: 1, left: 3 }));
    assert!(chrome.border_type.is_none());
}

#[test]
fn appearance_copy_keeps_every_field() {
    let app = AppearanceConfig {
        chrome: Some(ChromeConfig {
            borders: Some(BordersConfig::none()),
            title: Some(TitleConfig { text: "T".to_string(), position: TitlePosition::Right, alignment: TitleAlignment::Right }),
            border_style: Some(StyleConfig { fg: Some(ColorConfig::Red), bg: None, add_modifier: vec![ModifierConfig::Bold], sub_modifier: vec![] }),
            ..empty_chrome()
        }),
        text: None,
        fade: Some(FadeConfig { enter: None, exit: None }),
    };
    let c = app.copy();
    let chrome = c.chrome.unwrap();
    assert_eq!(chrome.borders, Some(BordersConfig::none()));
    assert_eq!(chrome.title.unwrap().text, "T");
    let bs = chrome.border_style.unwrap();
    assert_eq!(bs.fg, Some(ColorConfig::Red));
    assert_eq!(bs.add_modifier, vec![ModifierConfig::Bold]);
    assert!(c.fade.is_some());
}
