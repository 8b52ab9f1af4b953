use tui_vfx_recipes::chrome::{
    adjust_padding_for_vertical_title, apply_trim_spec, calculate_centering_padding, line_stats, trim_applies,
    vertical_title_layout, BorderSegment, BorderTrimSpec, GlyphSet, VerticalTitle,
};
use tui_vfx_recipes::geometry::Rect;
use tui_vfx_recipes::inspector::{
    mask_coverage, render_hooks, sampler_displacement_count, visibility_map, MaskResult, RenderHook, SamplerResult,
    TraceInspector, TraceVerbosity, ValidationInspector,
};
use tui_vfx_recipes::color::{ModifierFlags, TermColor, TermStyle};
use tui_vfx_recipes::stage::{DiffInspector, StageInspector};
use tui_vfx_recipes::state::AnimationPhase;
use tui_vfx_recipes::theme::{PaddingConfig, TitleAlignment, TitleConfig, TitlePosition};
use tui_vfx_recipes::types::{Animation, SlideBorderTrimPolicy};

#[test]
fn trace_records_by_verbosity() {
    let mut t = TraceInspector::new();
    t.on_config_parsed(&"Hi \"you\"".to_string());
    t.on_profile_built();
    t.on_style_layers_extracted(2);
    t.on_phase_entered(AnimationPhase::Entering);
    t.on_render_plan_created(7, AnimationPhase::Dwelling);
    t.on_effect_extracted(AnimationPhase::Exiting, true);
    t.on_shader_applied(1, 2, "glow");
    t.on_frame_complete(80, 24);
    assert_eq!(
        t.output(),
        "CONFIG_PARSED: message=\"Hi \\\"you\\\"\"\nPROFILE_BUILT\nSTYLE_LAYERS_EXTRACTED: count=2\n\
         PHASE_ENTERED: Entering\nRENDER_PLAN_CREATED: id=7, phase=Dwelling\n\
         EFFECT_EXTRACTED: phase=Exiting, effect=Some(...)\nFRAME_COMPLETE: buffer=80x24\n"
    );
    let mut v = TraceInspector::new().with_verbosity(TraceVerbosity::Verbose);
    v.on_cell_rendered(3, 40);
    v.on_shader_layer_built("wave", "All");
    v.on_effect_extracted(AnimationPhase::Entering, false);
    assert_eq!(
        v.output(),
        "CELL_RENDERED: x=3, y=40\nSHADER_LAYER_BUILT: shader=wave, region=All\nEFFECT_EXTRACTED: phase=Entering, effect=None\n"
    );
    let mut m = TraceInspector::new().with_verbosity(TraceVerbosity::Minimal);
    m.on_render_plan_created(1, AnimationPhase::Entering);
    assert_eq!(m.output(), "");
}

#[test]
fn validation_flags_out_of_order_events() {
    let mut ok = ValidationInspector::new();
    ok.on_config_parsed();
    ok.on_profile_built();
    ok.on_style_layers_extracted(1);
    ok.on_phase_entered(AnimationPhase::Entering);
    ok.on_shader_applied();
    ok.on_frame_complete(10, 5);
    assert!(!ok.has_errors());
    assert!(ok.warnings().is_empty());
    assert_eq!(ok.style_layers_count(), 1);
    assert_eq!(ok.total_cells, 50);

    let mut bad = ValidationInspector::new();
    bad.on_phase_entered(AnimationPhase::Entering);
    bad.on_profile_built();
    bad.on_style_layers_extracted(0);
    bad.on_frame_complete(1, 1);
    assert_eq!(bad.errors(), &["Phase entered before profile built".to_string(), "Profile built before config parsed".to_string()]);
    assert_eq!(bad.warnings(), &["No style layers extracted".to_string(), "Frame complete but no cells were modified".to_string()]);
}

#[test]
fn validation_counts_effects_and_shaders() {
    let mut v = ValidationInspector::new();
    v.on_effect_extracted(AnimationPhase::Entering, true);
    v.on_effect_extracted(AnimationPhase::Entering, true);
    v.on_effect_extracted(AnimationPhase::Exiting, false);
    v.on_effect_extracted(AnimationPhase::Dwelling, true);
    v.on_shader_layer_built("a");
    v.on_shader_layer_built("a");
    assert_eq!(v.effects_count(), 2);
    assert_eq!(v.shaders_count(), 2);
}

fn mask(x: u16, y: u16, visible: bool) -> MaskResult {
    MaskResult { x, y, visible, mask: "m".to_string() }
}

#[test]
fn mask_and_sampler_summaries() {
    let results = vec![mask(0, 0, false), mask(1, 0, true), mask(0, 0, true), mask(5, 5, false)];
    assert_eq!(mask_coverage(&results), (2, 4));
    let map = visibility_map(2, 2, &results);
    assert_eq!(map, vec![vec![true, true], vec![true, true]]);
    let map = visibility_map(3, 2, &vec![mask(2, 1, false)]);
    assert_eq!(map, vec![vec![true, true, true], vec![true, true, false]]);
    let s = |dx, dy, sx, sy| SamplerResult { dest_x: dx, dest_y: dy, src_x: sx, src_y: sy, sampler: "s".to_string() };
    let samples = vec![s(1, 1, Some(1), Some(1)), s(1, 1, Some(2), Some(1)), s(0, 0, None, Some(0))];
    assert_eq!(sampler_displacement_count(&samples), 2);
}

fn rounded() -> GlyphSet {
    GlyphSet {
        top_left: "╭".to_string(),
        top_right: "╮".to_string(),
        bottom_left: "╰".to_string(),
        bottom_right: "╯".to_string(),
        horizontal_top: "─".to_string(),
        horizontal_bottom: "─".to_string(),
        vertical_left: "│".to_string(),
        vertical_right: "│".to_string(),
    }
}

fn no_trim() -> BorderTrimSpec {
    BorderTrimSpec {
        top: BorderSegment::Keep,
        right: BorderSegment::Keep,
        bottom: BorderSegment::Keep,
        left: BorderSegment::Keep,
        top_left: BorderSegment::Keep,
        top_right: BorderSegment::Keep,
        bottom_left: BorderSegment::Keep,
        bottom_right: BorderSegment::Keep,
    }
}

#[test]
fn test_apply_trim_preserves_border_set() {
    let base = rounded();
    let spec = BorderTrimSpec {
        left: BorderSegment::Blank,
        top_left: BorderSegment::Blank,
        bottom_left: BorderSegment::Blank,
        ..no_trim()
    };
    let trimmed = apply_trim_spec(&base, spec);
    assert_eq!(trimmed.horizontal_top, base.horizontal_top);
    assert_eq!(trimmed.horizontal_bottom, base.horizontal_bottom);
    assert_eq!(trimmed.vertical_right, base.vertical_right);
    assert_eq!(trimmed.top_right, base.top_right);
    assert_eq!(trimmed.bottom_right, base.bottom_right);
    assert_eq!(trimmed.vertical_left, " ");
    assert_eq!(trimmed.top_left, " ");
    assert_eq!(trimmed.bottom_left, " ");
}

#[test]
fn trimmed_corners_can_turn_into_lines() {
    let spec = BorderTrimSpec { top_right: BorderSegment::Horizontal, bottom_right: BorderSegment::Vertical, ..no_trim() };
    let trimmed = apply_trim_spec(&rounded(), spec);
    assert_eq!(trimmed.top_right, "─");
    assert_eq!(trimmed.bottom_right, "│");
}

#[test]
fn trim_only_for_partly_visible_slides() {
    let dwell = Rect::new(0, 0, 10, 3);
    let partial = Rect::new(0, 0, 4, 3);
    assert!(trim_applies(SlideBorderTrimPolicy::VanishingEdge, Animation::Slide, dwell, partial));
    assert!(!trim_applies(SlideBorderTrimPolicy::VanishingEdge, Animation::Slide, dwell, dwell));
    assert!(!trim_applies(SlideBorderTrimPolicy::VanishingEdge, Animation::Fade, dwell, partial));
    assert!(!trim_applies(SlideBorderTrimPolicy::Off, Animation::Slide, dwell, partial));
    assert!(!trim_applies(SlideBorderTrimPolicy::VanishingEdge, Animation::Slide, dwell, Rect::new(0, 0, 0, 3)));
}

#[test]
fn vertical_titles_get_padding_and_placement() {
    let base = PaddingConfig { top: 1, right: 1, bottom: 1, left: u16::MAX };
    let left = Some(TitleConfig { text: "T".to_string(), position: TitlePosition::Left, alignment: TitleAlignment::Left });
    let right = Some(TitleConfig { text: "T".to_string(), position: TitlePosition::Right, alignment: TitleAlignment::Left });
    let top = Some(TitleConfig { text: "T".to_string(), position: TitlePosition::Top, alignment: TitleAlignment::Left });
    assert_eq!(adjust_padding_for_vertical_title(base, &left), base);
    assert_eq!(adjust_padding_for_vertical_title(base, &right).right, 2);
    assert_eq!(adjust_padding_for_vertical_title(base, &top), base);
    assert_eq!(adjust_padding_for_vertical_title(base, &None), base);

    let area = Rect::new(10, 5, 20, 10);
    assert_eq!(
        vertical_title_layout(area, 4, TitlePosition::Right, TitleAlignment::Center),
        Some(VerticalTitle { x: 29, start_y: 8, count: 4 })
    );
    assert_eq!(
        vertical_title_layout(area, 20, TitlePosition::Left, TitleAlignment::Right),
        Some(VerticalTitle { x: 10, start_y: 6, count: 8 })
    );
    assert_eq!(vertical_title_layout(area, 4, TitlePosition::Top, TitleAlignment::Left), None);
    assert_eq!(vertical_title_layout(Rect::new(0, 0, 5, 2), 4, TitlePosition::Left, TitleAlignment::Left), None);
}

#[test]
fn centering_counts_lines_like_str_lines() {
    assert_eq!(line_stats("ab\r\ncdef\n"), (2, 4));
    assert_eq!(line_stats(""), (0, 0));
    assert_eq!(line_stats("\n\nxyz"), (3, 3));
    let p = calculate_centering_padding("hello\nworld!", Rect::new(0, 0, 40, 12), PaddingConfig::zero());
    // inner 38 x 10, content 6 x 2: (38 - 6) / 2 = 16, (10 - 2) / 2 = 4.
    assert_eq!(p, PaddingConfig { top: 4, right: 16, bottom: 4, left: 16 });
}

fn no_mods() -> ModifierFlags {
    ModifierFlags {
        bold: false,
        italic: false,
        underline: false,
        dim: false,
        reverse: false,
        strikethrough: false,
        slow_blink: false,
        rapid_blink: false,
        hidden: false,
    }
}

fn plain() -> TermStyle {
    TermStyle { fg: None, bg: None, add_modifier: no_mods() }
}

fn red() -> TermStyle {
    TermStyle { fg: Some(TermColor::Red), bg: None, add_modifier: no_mods() }
}

#[test]
fn stage_inspector_counts_changes() {
    let mut s = StageInspector::new(4, 2);
    s.on_shader_applied(0, 0, plain(), red(), "glow");
    s.on_shader_applied(1, 0, plain(), plain(), "glow");
    s.on_filter_applied(0, 0, TermColor::Red, TermColor::Black, TermColor::Red, TermColor::Black, "dim");
    s.on_filter_applied(1, 0, TermColor::Red, TermColor::Black, TermColor::Blue, TermColor::Black, "dim");
    s.on_style_interpolated(AnimationPhase::Entering, plain(), red(), "FadeIn", "frame");
    s.on_style_interpolated(AnimationPhase::Entering, plain(), plain(), "Pulse", "text");
    s.on_style_interpolated(AnimationPhase::Dwelling, red(), plain(), "FadeIn", "border");
    s.on_sampler_applied(0, 0, Some(0), Some(0), "shift");
    s.on_sampler_applied(1, 0, Some(0), Some(0), "shift");
    s.on_mask_checked(3, 1, false, "wipe");
    assert_eq!(s.shader_modification_count(), 1);
    assert_eq!(s.filter_modification_count(), 1);
    assert_eq!(s.style_modification_count(), 2);
    assert_eq!(s.sampler_displacement_count(), 1);
    assert_eq!(s.mask_coverage(), (0, 1));
    assert_eq!(s.style_effects_applied(), vec!["FadeIn".to_string(), "Pulse".to_string()]);
    let map = s.visibility_map();
    assert_eq!(map.len(), 2);
    assert!(!map[1][3]);
    assert!(map[0][0]);
    s.clear();
    assert_eq!(s.shader_modification_count(), 0);
    assert_eq!((s.width, s.height), (4, 2));
    let d = StageInspector::default();
    assert_eq!((d.width, d.height), (80, 24));
}

#[test]
fn diff_inspector_keeps_only_changed_cells() {
    let mut d = DiffInspector::new();
    assert!(!d.has_changes());
    d.on_shader_applied(0, 0, plain(), plain(), "glow");
    assert_eq!(d.change_count(), 0);
    d.on_shader_applied(0, 0, plain(), red(), "glow");
    d.on_shader_applied(2, 1, plain(), red(), "wave");
    d.on_shader_applied(0, 0, red(), plain(), "wave");
    assert!(d.has_changes());
    assert_eq!(d.change_count(), 3);
    let glow = d.changes_by_shader("glow");
    assert_eq!(glow.len(), 1);
    assert_eq!((glow[0].x, glow[0].y), (0, 0));
    let at = d.changes_at(0, 0);
    assert_eq!(at.len(), 2);
    assert_eq!(at[1].shader, "wave");
    assert!(d.changes_at(5, 5).is_empty());
}

#[test]
fn validator_warns_on_an_empty_pipeline_in_order() {
    let mut v = ValidationInspector::new();
    v.on_config_parsed();
    v.on_profile_built();
    v.on_style_layers_extracted(0);
    v.on_frame_complete(4, 2);
    assert!(v.errors().is_empty());
    assert_eq!(v.warnings(), &["No style layers extracted".to_string(), "Frame complete but no cells were modified".to_string()]);
    assert_eq!(v.style_layers_count(), 0);
    assert_eq!(v.cells_modified, 0);
    assert_eq!(v.total_cells, 8);
}

#[test]
fn validator_errors_and_warnings_only_grow() {
    let mut v = ValidationInspector::new();
    assert!(!v.has_errors());
    v.on_profile_built();
    assert!(v.has_errors());
    let first = v.errors().to_vec();
    v.on_config_parsed();
    v.on_style_layers_extracted(0);
    v.on_phase_entered(AnimationPhase::Entering);
    v.on_frame_complete(2, 2);
    assert!(v.has_errors());
    assert_eq!(&v.errors()[..first.len()], &first[..]);
    assert_eq!(v.warnings().len(), 2);
}

fn styled(name: &str, target: &str) -> RenderHook {
    RenderHook::StyleInterpolated { effect_name: name.to_string(), target: target.to_string() }
}

#[test]
fn render_hooks_follow_the_phase_effect_and_fade() {
    assert_eq!(render_hooks(true, "FadeIn", false, true), vec![
        RenderHook::PhaseEntered,
        RenderHook::EffectExtracted,
        styled("FadeIn", "frame"),
        styled("FadeIn", "border"),
        styled("FadeIn", "text"),
        RenderHook::RenderPlanCreated,
    ]);
    assert_eq!(render_hooks(true, "Spatial", true, true), vec![
        RenderHook::PhaseEntered,
        RenderHook::EffectExtracted,
        RenderHook::RenderPlanCreated,
    ]);
    assert_eq!(render_hooks(false, "", false, true)[2], styled("FadeToBlack", "frame"));
    assert_eq!(render_hooks(false, "", false, false).len(), 3);
}
