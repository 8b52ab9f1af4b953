//! Themes and appearances: what a notification looks like.
//!
//! A theme gives default chrome (borders, padding, styles, title), text style
//! and fades; an item may override any of them. Resolution takes, field by
//! field, the item's value when it sets one and the theme's otherwise. An item
//! whose appearance sets no chrome at all gets no borders and plain styling.

use vstd::prelude::*;
use crate::state::AnimationPhase;

verus! {

/// An easing curve of the geometry crate, carried through unchanged.
#[verifier::external_type_specification]
#[verifier::external_body]
pub struct ExEasingCurve(tui_vfx_geometry::types::EasingCurve);

/// A terminal colour as configured.
#[derive(Debug, Clone, Copy, PartialEq, Eq, Structural)]
pub enum ColorConfig {
    Reset,
    Black,
    Red,
    Green,
    Yellow,
    Blue,
    Magenta,
    Cyan,
    Gray,
    /// Same colour as `Gray`.
    LightGray,
    DarkGray,
    LightRed,
    LightGreen,
    LightYellow,
    LightBlue,
    LightMagenta,
    LightCyan,
    White,
    Rgb { r: u8, g: u8, b: u8 },
    Indexed { value: u8 },
}

/// A text modifier as configured.
#[derive(Debug, Clone, Copy, PartialEq, Eq, Structural)]
pub enum ModifierConfig {
    Bold,
    Dim,
    Italic,
    Underlined,
    SlowBlink,
    RapidBlink,
    Reversed,
    Hidden,
    CrossedOut,
}

/// A style as configured: optional colours and modifiers to add or remove.
#[derive(Debug)]
pub struct StyleConfig {
    pub fg: Option<ColorConfig>,
    pub bg: Option<ColorConfig>,
    pub add_modifier: Vec<ModifierConfig>,
    pub sub_modifier: Vec<ModifierConfig>,
}

/// The value of a style.
pub struct StyleView {
    pub fg: Option<ColorConfig>,
    pub bg: Option<ColorConfig>,
    pub add_modifier: Seq<ModifierConfig>,
    pub sub_modifier: Seq<ModifierConfig>,
}

impl StyleConfig {
    pub open spec fn sv(&self) -> StyleView {
        StyleView { fg: self.fg, bg: self.bg, add_modifier: self.add_modifier@, sub_modifier: self.sub_modifier@ }
    }

    /// The style that sets nothing.
    pub fn plain() -> (r: StyleConfig)
        ensures
            r.sv() == plain_style(),
    {
        let r = StyleConfig { fg: None, bg: None, add_modifier: Vec::new(), sub_modifier: Vec::new() };
        proof {
            assert(r.sv().add_modifier =~= Seq::<ModifierConfig>::empty());
            assert(r.sv().sub_modifier =~= Seq::<ModifierConfig>::empty());
        }
        r
    }

    /// A copy of this style.
    pub fn copy(&self) -> (r: StyleConfig)
        ensures
            r.sv() == self.sv(),
    {
        StyleConfig {
            fg: self.fg,
            bg: self.bg,
            add_modifier: copy_mods(&self.add_modifier),
            sub_modifier: copy_mods(&self.sub_modifier),
        }
    }
}

/// The style that sets nothing.
pub open spec fn plain_style() -> StyleView {
    StyleView { fg: None, bg: None, add_modifier: Seq::empty(), sub_modifier: Seq::empty() }
}

fn copy_mods(v: &Vec<ModifierConfig>) -> (r: Vec<ModifierConfig>)
    ensures
        r@ == v@,
{
    let mut r: Vec<ModifierConfig> = Vec::new();
    let mut i: usize = 0;
    while i < v.len()
        invariant
            i <= v.len(),
            r@ == v@.take(i as int),
        decreases v.len() - i,
    {
        r.push(v[i]);
        i = i + 1;
        proof {
            assert(r@ =~= v@.take(i as int));
        }
    }
    proof {
        assert(v@.take(v.len() as int) =~= v@);
    }
    r
}

/// Direction of a fade to black.
#[derive(Debug, Clone, Copy, PartialEq, Eq, Structural)]
pub enum FadeDirection {
    /// From black to the base colours.
    In,
    /// From the base colours to black.
    Out,
}

/// Which colours a fade touches.
#[derive(Debug, Clone, Copy, PartialEq, Eq, Structural)]
pub enum FadeTarget {
    Foreground,
    Background,
    Both,
}

/// A fade to black.
#[derive(Debug, Clone, Copy)]
pub struct Fade {
    pub direction: FadeDirection,
    pub apply_to: FadeTarget,
    pub ease: tui_vfx_geometry::types::EasingCurve,
}

/// Title position on the border.
#[derive(Debug, Clone, Copy, PartialEq, Eq, Structural)]
pub enum TitlePosition {
    Top,
    Bottom,
    /// Vertical title on the left border, read top to bottom.
    Left,
    /// Vertical title on the right border, read top to bottom.
    Right,
}

impl Default for TitlePosition {
    fn default() -> (r: TitlePosition)
        ensures
            r == TitlePosition::Top,
    {
        TitlePosition::Top
    }
}

/// Title alignment along a horizontal border.
#[derive(Debug, Clone, Copy, PartialEq, Eq, Structural)]
pub enum TitleAlignment {
    Left,
    Center,
    Right,
}

impl Default for TitleAlignment {
    fn default() -> (r: TitleAlignment)
        ensures
            r == TitleAlignment::Left,
    {
        TitleAlignment::Left
    }
}

/// A border title.
#[derive(Debug)]
pub struct TitleConfig {
    pub text: String,
    pub position: TitlePosition,
    pub alignment: TitleAlignment,
}

impl TitleConfig {
    /// A copy of this title.
    pub fn copy(&self) -> (r: TitleConfig)
        ensures
            r == *self,
    {
        TitleConfig { text: self.text.clone(), position: self.position, alignment: self.alignment }
    }
}

/// Which sides of the frame have a border.
#[derive(Debug, Clone, Copy, PartialEq, Eq, Structural)]
pub struct BordersConfig {
    pub top: bool,
    pub right: bool,
    pub bottom: bool,
    pub left: bool,
}

impl BordersConfig {
    /// Borders on all four sides.
    pub fn all() -> (r: BordersConfig)
        ensures
            r == spec_all_borders(),
    {
        BordersConfig { top: true, right: true, bottom: true, left: true }
    }

    /// No borders at all.
    pub fn none() -> (r: BordersConfig)
        ensures
            r == spec_no_borders(),
    {
        BordersConfig { top: false, right: false, bottom: false, left: false }
    }
}

impl Default for BordersConfig {
    fn default() -> (r: BordersConfig)
        ensures
            r == spec_all_borders(),
    {
        BordersConfig::all()
    }
}

pub open spec fn spec_all_borders() -> BordersConfig {
    BordersConfig { top: true, right: true, bottom: true, left: true }
}

pub open spec fn spec_no_borders() -> BordersConfig {
    BordersConfig { top: false, right: false, bottom: false, left: false }
}

/// Line style of a border.
#[derive(Debug, Clone, Copy, PartialEq, Eq, Hash, Structural)]
pub enum BorderTypeConfig {
    Plain,
    Rounded,
    Double,
    Thick,
    QuadrantInside,
    QuadrantOutside,
}

impl Default for BorderTypeConfig {
    fn default() -> (r: BorderTypeConfig)
        ensures
            r == BorderTypeConfig::Plain,
    {
        BorderTypeConfig::Plain
    }
}

/// A preset border glyph set.
#[derive(Debug, Clone, Copy, PartialEq, Eq, Hash, Structural)]
pub enum BorderSetConfig {
    Plain,
    Rounded,
    Double,
    Thick,
    QuadrantOutside,
    QuadrantInside,
    OneEighthWide,
    OneEighthTall,
    ProportionalWide,
    ProportionalTall,
    Full,
    Empty,
}

impl Default for BorderSetConfig {
    fn default() -> (r: BorderSetConfig)
        ensures
            r == BorderSetConfig::Plain,
    {
        BorderSetConfig::Plain
    }
}

/// Custom border glyphs (single characters each).
#[derive(Debug)]
pub struct CustomBorderSet {
    pub top_left: String,
    pub top_right: String,
    pub bottom_left: String,
    pub bottom_right: String,
    pub horizontal_top: String,
    pub horizontal_bottom: String,
    pub vertical_left: String,
    pub vertical_right: String,
}

impl CustomBorderSet {
    /// A copy of this glyph set.
    pub fn copy(&self) -> (r: CustomBorderSet)
        ensures
            r == *self,
    {
        CustomBorderSet {
            top_left: self.top_left.clone(),
            top_right: self.top_right.clone(),
            bottom_left: self.bottom_left.clone(),
            bottom_right: self.bottom_right.clone(),
            horizontal_top: self.horizontal_top.clone(),
            horizontal_bottom: self.horizontal_bottom.clone(),
            vertical_left: self.vertical_left.clone(),
            vertical_right: self.vertical_right.clone(),
        }
    }
}

/// Cells between the border and the content, per side.
#[derive(Debug, Clone, Copy, PartialEq, Eq, Structural)]
pub struct PaddingConfig {
    pub top: u16,
    pub right: u16,
    pub bottom: u16,
    pub left: u16,
}

impl PaddingConfig {
    /// No padding.
    pub fn zero() -> (r: PaddingConfig)
        ensures
            r == spec_zero_padding(),
    {
        PaddingConfig { top: 0, right: 0, bottom: 0, left: 0 }
    }
}

impl Default for PaddingConfig {
    fn default() -> (r: PaddingConfig)
        ensures
            r == spec_zero_padding(),
    {
        PaddingConfig::zero()
    }
}

pub open spec fn spec_zero_padding() -> PaddingConfig {
    PaddingConfig { top: 0, right: 0, bottom: 0, left: 0 }
}

/// Frame content drawn straight onto the buffer: corners once, edges repeated.
#[derive(Debug)]
pub struct FrameContent {
    pub top_left: String,
    pub top_right: String,
    pub bottom_left: String,
    pub bottom_right: String,
    pub top: String,
    pub bottom: String,
    pub left: String,
    pub right: String,
}

/// Border chrome; every field is optional so that an item can override only some.
#[derive(Debug)]
pub struct ChromeConfig {
    pub borders: Option<BordersConfig>,
    pub border_type: Option<BorderTypeConfig>,
    pub border_set: Option<BorderSetConfig>,
    /// Custom glyphs; when present they replace `border_set`.
    pub custom_border_set: Option<CustomBorderSet>,
    pub padding: Option<PaddingConfig>,
    pub frame_style: Option<StyleConfig>,
    pub border_style: Option<StyleConfig>,
    pub title: Option<TitleConfig>,
}

/// Text settings.
#[derive(Debug)]
pub struct TextConfig {
    pub style: Option<StyleConfig>,
}

/// Fades for entering and exiting.
#[derive(Debug, Clone, Copy)]
pub struct FadeConfig {
    pub enter: Option<Fade>,
    pub exit: Option<Fade>,
}

/// An appearance: chrome, text and fades, each optional.
#[derive(Debug)]
pub struct AppearanceConfig {
    pub chrome: Option<ChromeConfig>,
    pub text: Option<TextConfig>,
    pub fade: Option<FadeConfig>,
}

/// A theme: the appearance items get unless they override it.
#[derive(Debug)]
pub struct Theme {
    pub defaults: AppearanceConfig,
}

/// The glyphs a border is drawn with.
#[derive(Debug)]
pub enum BorderGlyphs {
    Preset(BorderSetConfig),
    Custom(CustomBorderSet),
}

/// A fully resolved appearance.
#[derive(Debug)]
pub struct ResolvedAppearance {
    pub frame_style: StyleConfig,
    pub border_style: StyleConfig,
    pub text_style: StyleConfig,
    pub borders: BordersConfig,
    pub border_type: BorderTypeConfig,
    pub border_set: BorderGlyphs,
    pub padding: PaddingConfig,
    pub fade_enter: Option<Fade>,
    pub fade_exit: Option<Fade>,
    pub title: Option<TitleConfig>,
}

impl Theme {
    /// The built-in theme: rounded borders all round, no padding, white text and frame.
    pub fn default_theme() -> (t: Theme)
        ensures
            ({
                let c = t.defaults.chrome->Some_0;
                &&& t.defaults.chrome is Some
                &&& c.borders == Some(spec_all_borders())
                &&& c.border_type == Some(BorderTypeConfig::Rounded)
                &&& c.border_set == Some(BorderSetConfig::Rounded)
                &&& c.custom_border_set is None
                &&& c.padding == Some(spec_zero_padding())
                &&& c.frame_style is Some && c.frame_style->Some_0.sv() == white_style()
                &&& c.border_style is Some && c.border_style->Some_0.sv() == white_style()
                &&& c.title is None
                &&& t.defaults.text is Some && t.defaults.text->Some_0.style is Some
                &&& t.defaults.text->Some_0.style->Some_0.sv() == white_style()
                &&& t.defaults.fade is None
            }),
    {
        let chrome = ChromeConfig {
            borders: Some(BordersConfig::all()),
            border_type: Some(BorderTypeConfig::Rounded),
            border_set: Some(BorderSetConfig::Rounded),
            custom_border_set: None,
            padding: Some(PaddingConfig::zero()),
            frame_style: Some(white()),
            border_style: Some(white()),
            title: None,
        };
        Theme {
            defaults: AppearanceConfig {
                chrome: Some(chrome),
                text: Some(TextConfig { style: Some(white()) }),
                fade: None,
            },
        }
    }
}

/// White foreground, nothing else.
pub open spec fn white_style() -> StyleView {
    StyleView { fg: Some(ColorConfig::White), bg: None, add_modifier: Seq::empty(), sub_modifier: Seq::empty() }
}

fn white() -> (r: StyleConfig)
    ensures
        r.sv() == white_style(),
{
    let r = StyleConfig { fg: Some(ColorConfig::White), bg: None, add_modifier: Vec::new(), sub_modifier: Vec::new() };
    proof {
        assert(r.sv().add_modifier =~= Seq::<ModifierConfig>::empty());
        assert(r.sv().sub_modifier =~= Seq::<ModifierConfig>::empty());
    }
    r
}

/// The item's appearance sets no chrome at all.
pub open spec fn chrome_disabled(app: Option<&AppearanceConfig>) -> bool {
    app matches Some(a) && a.chrome is None
}

/// The item's chrome, if any.
pub open spec fn overlay_chrome(app: Option<&AppearanceConfig>) -> Option<ChromeConfig> {
    match app {
        Some(a) => a.chrome,
        None => None,
    }
}

/// `overlay` when it is set, else `base`.
pub open spec fn pick<A>(base: Option<A>, overlay: Option<A>) -> Option<A> {
    if overlay is Some {
        overlay
    } else {
        base
    }
}

/// A field of a chrome, read through an optional chrome.
pub open spec fn chrome_field<A>(c: Option<ChromeConfig>, f: spec_fn(ChromeConfig) -> Option<A>) -> Option<A> {
    match c {
        Some(c) => f(c),
        None => None,
    }
}

/// A chrome field: the item's value, else the theme's.
pub open spec fn pick_field_copy<A>(
    theme: &Theme,
    app: Option<&AppearanceConfig>,
    f: spec_fn(ChromeConfig) -> Option<A>,
) -> Option<A> {
    pick(chrome_field(theme.defaults.chrome, f), chrome_field(overlay_chrome(app), f))
}

pub open spec fn resolved_borders(theme: &Theme, app: Option<&AppearanceConfig>) -> BordersConfig {
    if chrome_disabled(app) {
        spec_no_borders()
    } else {
        match pick_field_copy(theme, app, |c: ChromeConfig| c.borders) {
            Some(b) => b,
            None => spec_all_borders(),
        }
    }
}

pub open spec fn resolved_border_type(theme: &Theme, app: Option<&AppearanceConfig>) -> BorderTypeConfig {
    if chrome_disabled(app) {
        BorderTypeConfig::Plain
    } else {
        match pick_field_copy(theme, app, |c: ChromeConfig| c.border_type) {
            Some(b) => b,
            None => BorderTypeConfig::Plain,
        }
    }
}

pub open spec fn resolved_border_set(theme: &Theme, app: Option<&AppearanceConfig>) -> BorderSetConfig {
    if chrome_disabled(app) {
        BorderSetConfig::Plain
    } else {
        match pick_field_copy(theme, app, |c: ChromeConfig| c.border_set) {
            Some(b) => b,
            None => BorderSetConfig::Plain,
        }
    }
}

pub open spec fn resolved_custom_set(theme: &Theme, app: Option<&AppearanceConfig>) -> Option<CustomBorderSet> {
    if chrome_disabled(app) {
        None
    } else {
        pick_field_copy(theme, app, |c: ChromeConfig| c.custom_border_set)
    }
}

pub open spec fn resolved_padding(theme: &Theme, app: Option<&AppearanceConfig>) -> PaddingConfig {
    if chrome_disabled(app) {
        spec_zero_padding()
    } else {
        match pick_field_copy(theme, app, |c: ChromeConfig| c.padding) {
            Some(p) => p,
            None => spec_zero_padding(),
        }
    }
}

pub open spec fn style_or_plain(s: Option<StyleConfig>) -> StyleView {
    match s {
        Some(s) => s.sv(),
        None => plain_style(),
    }
}

pub open spec fn resolved_frame_style(theme: &Theme, app: Option<&AppearanceConfig>) -> StyleView {
    if chrome_disabled(app) {
        plain_style()
    } else {
        style_or_plain(pick_field_copy(theme, app, |c: ChromeConfig| c.frame_style))
    }
}

pub open spec fn resolved_border_style(theme: &Theme, app: Option<&AppearanceConfig>) -> StyleView {
    if chrome_disabled(app) {
        plain_style()
    } else {
        style_or_plain(pick_field_copy(theme, app, |c: ChromeConfig| c.border_style))
    }
}

pub open spec fn text_style_of(t: Option<TextConfig>) -> Option<StyleConfig> {
    match t {
        Some(t) => t.style,
        None => None,
    }
}

pub open spec fn resolved_text_style(theme: &Theme, app: Option<&AppearanceConfig>) -> StyleView {
    let over = match app {
        Some(a) => text_style_of(a.text),
        None => None,
    };
    style_or_plain(pick(text_style_of(theme.defaults.text), over))
}

/// The title: the item's chrome title, else the theme's (also when the item disables chrome).
pub open spec fn resolved_title(theme: &Theme, app: Option<&AppearanceConfig>) -> Option<TitleConfig> {
    pick_field_copy(theme, app, |c: ChromeConfig| c.title)
}

/// The fades that apply: the item's fade settings, else the theme's.
pub open spec fn resolved_fade(theme: &Theme, app: Option<&AppearanceConfig>) -> Option<FadeConfig> {
    let over = match app {
        Some(a) => a.fade,
        None => None,
    };
    pick(theme.defaults.fade, over)
}

pub open spec fn with_dir(f: Option<Fade>, d: FadeDirection) -> Option<Fade> {
    match f {
        Some(f) => Some(Fade { direction: d, ..f }),
        None => None,
    }
}

/// The enter fade while entering (fading in), the exit fade while exiting
/// (fading out), and none in other phases.
pub open spec fn spec_phase_fades(fade: Option<FadeConfig>, phase: AnimationPhase) -> (Option<Fade>, Option<Fade>) {
    let enter = match fade {
        Some(f) => f.enter,
        None => None,
    };
    let exit = match fade {
        Some(f) => f.exit,
        None => None,
    };
    match phase {
        AnimationPhase::Entering => (with_dir(enter, FadeDirection::In), None),
        AnimationPhase::Exiting => (None, with_dir(exit, FadeDirection::Out)),
        _ => (None, None),
    }
}

/// The resolved appearance has exactly the fields resolution gives.
pub open spec fn resolves_to(r: &ResolvedAppearance, theme: &Theme, app: Option<&AppearanceConfig>, phase: AnimationPhase) -> bool {
    &&& r.frame_style.sv() == resolved_frame_style(theme, app)
    &&& r.border_style.sv() == resolved_border_style(theme, app)
    &&& r.text_style.sv() == resolved_text_style(theme, app)
    &&& r.borders == resolved_borders(theme, app)
    &&& r.border_type == resolved_border_type(theme, app)
    &&& r.border_set == (match resolved_custom_set(theme, app) {
        Some(c) => BorderGlyphs::Custom(c),
        None => BorderGlyphs::Preset(resolved_border_set(theme, app)),
    })
    &&& r.padding == resolved_padding(theme, app)
    &&& (r.fade_enter, r.fade_exit) == spec_phase_fades(resolved_fade(theme, app), phase)
    &&& r.title == resolved_title(theme, app)
}

/// Law: an item whose appearance sets a text style gets exactly that text
/// style, whatever the theme sets; an item that sets none gets the theme's
/// text style, or the plain style when the theme has none either.
pub proof fn lemma_item_text_style_wins(
    r: &ResolvedAppearance,
    theme: &Theme,
    app: &AppearanceConfig,
    phase: AnimationPhase,
)
    requires
        resolves_to(r, theme, Some(app), phase),
    ensures
        (app.text is Some && app.text->Some_0.style is Some) ==> r.text_style.sv() == app.text->Some_0.style->Some_0.sv(),
        !(app.text is Some && app.text->Some_0.style is Some) ==> r.text_style.sv() == (if theme.defaults.text is Some
            && theme.defaults.text->Some_0.style is Some {
            theme.defaults.text->Some_0.style->Some_0.sv()
        } else {
            plain_style()
        }),
{
}

/// Law: an item whose chrome sets a frame or border style gets exactly that
/// style, whatever the theme sets.
pub proof fn lemma_item_chrome_styles_win(
    r: &ResolvedAppearance,
    theme: &Theme,
    app: &AppearanceConfig,
    phase: AnimationPhase,
)
    requires
        resolves_to(r, theme, Some(app), phase),
    ensures
        (app.chrome is Some && app.chrome->Some_0.frame_style is Some) ==> r.frame_style.sv()
            == app.chrome->Some_0.frame_style->Some_0.sv(),
        (app.chrome is Some && app.chrome->Some_0.border_style is Some) ==> r.border_style.sv()
            == app.chrome->Some_0.border_style->Some_0.sv(),
{
}

/// Law: each chrome setting the item's chrome makes (borders, border type,
/// custom border set, padding, title) is the one it gets, whatever the theme
/// sets; an item that turns chrome off gets no borders, no padding and plain
/// frame and border styles.
pub proof fn lemma_item_chrome_fields_win(
    r: &ResolvedAppearance,
    theme: &Theme,
    app: &AppearanceConfig,
    phase: AnimationPhase,
)
    requires
        resolves_to(r, theme, Some(app), phase),
    ensures
        app.chrome matches Some(c) ==> {
            &&& c.borders matches Some(b) ==> r.borders == b
            &&& c.border_type matches Some(b) ==> r.border_type == b
            &&& c.custom_border_set matches Some(b) ==> r.border_set == BorderGlyphs::Custom(b)
            &&& c.padding matches Some(p) ==> r.padding == p
            &&& c.title is Some ==> r.title == c.title
        },
        app.chrome is None ==> {
            &&& r.borders == spec_no_borders()
            &&& r.padding == spec_zero_padding()
            &&& r.frame_style.sv() == plain_style()
            &&& r.border_style.sv() == plain_style()
        },
{
}

/// Law: a chrome setting the item leaves unset (with chrome on, or with no
/// appearance at all) comes from the theme when the theme sets it.
pub proof fn lemma_theme_chrome_fills_in(
    r: &ResolvedAppearance,
    theme: &Theme,
    app: Option<&AppearanceConfig>,
    phase: AnimationPhase,
)
    requires
        resolves_to(r, theme, app, phase),
        !(app matches Some(a) && a.chrome is None),
        theme.defaults.chrome is Some,
    ensures
        ({
            let t = theme.defaults.chrome->Some_0;
            let unset = |f: spec_fn(ChromeConfig) -> bool| match app {
                Some(a) => !f(a.chrome->Some_0),
                None => true,
            };
            &&& (t.borders is Some && unset(|c: ChromeConfig| c.borders is Some)) ==> r.borders == t.borders->Some_0
            &&& (t.border_type is Some && unset(|c: ChromeConfig| c.border_type is Some)) ==> r.border_type
                == t.border_type->Some_0
            &&& (t.padding is Some && unset(|c: ChromeConfig| c.padding is Some)) ==> r.padding == t.padding->Some_0
            &&& (t.title is Some && unset(|c: ChromeConfig| c.title is Some)) ==> r.title == t.title
            &&& (t.frame_style is Some && unset(|c: ChromeConfig| c.frame_style is Some)) ==> r.frame_style.sv()
                == t.frame_style->Some_0.sv()
            &&& (t.border_style is Some && unset(|c: ChromeConfig| c.border_style is Some)) ==> r.border_style.sv()
                == t.border_style->Some_0.sv()
        }),
{
}

pub(crate) fn copy_style_opt(s: &Option<StyleConfig>) -> (r: Option<StyleConfig>)
    ensures
        r is Some == s is Some,
        r is Some ==> r->Some_0.sv() == s->Some_0.sv(),
{
    match s {
        Some(s) => Some(s.copy()),
        None => None,
    }
}

fn style_pick(base: Option<StyleConfig>, overlay: Option<StyleConfig>) -> (r: StyleConfig)
    ensures
        r.sv() == (if overlay is Some {
            overlay->Some_0.sv()
        } else {
            style_or_plain(base)
        }),
{
    match overlay {
        Some(s) => s,
        None => match base {
            Some(s) => s,
            None => StyleConfig::plain(),
        },
    }
}

/// `overlay` when it is set, else `base`.
pub fn pick_value<A>(base: Option<A>, overlay: Option<A>) -> (r: Option<A>)
    ensures
        r == pick(base, overlay),
{
    match overlay {
        Some(o) => Some(o),
        None => base,
    }
}

/// Forces a fade's direction.
pub fn force_direction(f: Option<Fade>, d: FadeDirection) -> (r: Option<Fade>)
    ensures
        r == with_dir(f, d),
{
    match f {
        Some(f) => Some(Fade { direction: d, ..f }),
        None => None,
    }
}

/// The fades for `phase`: fading in while entering, out while exiting.
pub fn resolve_fade(fade: Option<FadeConfig>, phase: AnimationPhase) -> (r: (Option<Fade>, Option<Fade>))
    ensures
        r == spec_phase_fades(fade, phase),
{
    let enter = match fade {
        Some(f) => f.enter,
        None => None,
    };
    let exit = match fade {
        Some(f) => f.exit,
        None => None,
    };
    match phase {
        AnimationPhase::Entering => (force_direction(enter, FadeDirection::In), None),
        AnimationPhase::Exiting => (None, force_direction(exit, FadeDirection::Out)),
        _ => (None, None),
    }
}

/// Resolves an item's appearance over a theme for the given phase.
///
/// Each chrome field is the item's value when its chrome sets it, else the
/// theme's, else a default (all borders, plain lines and glyphs, no padding,
/// plain styles). An appearance whose chrome is absent gets no borders and
/// plain chrome; the text style, fades and title still fall back to the theme.
pub fn resolve_effective_appearance(theme: &Theme, appearance: Option<&AppearanceConfig>, phase: AnimationPhase) -> (r: ResolvedAppearance)
    ensures
        resolves_to(&r, theme, appearance, phase),
{
    let tc: &Option<ChromeConfig> = &theme.defaults.chrome;
    let oc: Option<&ChromeConfig> = match appearance {
        Some(a) => match &a.chrome {
            Some(c) => Some(c),
            None => None,
        },
        None => None,
    };
    let disabled = match appearance {
        Some(a) => a.chrome.is_none(),
        None => false,
    };
    let (borders, border_type, border_set, custom, padding, frame_style, border_style) = if disabled {
        (
            BordersConfig::none(),
            BorderTypeConfig::Plain,
            BorderSetConfig::Plain,
            None,
            PaddingConfig::zero(),
            StyleConfig::plain(),
            StyleConfig::plain(),
        )
    } else {
        let borders = match oc {
            Some(c) if c.borders.is_some() => c.borders.unwrap(),
            _ => match tc {
                Some(c) if c.borders.is_some() => c.borders.unwrap(),
                _ => BordersConfig::all(),
            },
        };
        let border_type = match oc {
            Some(c) if c.border_type.is_some() => c.border_type.unwrap(),
            _ => match tc {
                Some(c) if c.border_type.is_some() => c.border_type.unwrap(),
                _ => BorderTypeConfig::Plain,
            },
        };
        let border_set = match oc {
            Some(c) if c.border_set.is_some() => c.border_set.unwrap(),
            _ => match tc {
                Some(c) if c.border_set.is_some() => c.border_set.unwrap(),
                _ => BorderSetConfig::Plain,
            },
        };
        let custom = match oc {
            Some(c) if c.custom_border_set.is_some() => match &c.custom_border_set {
                Some(s) => Some(s.copy()),
                None => None,
            },
            _ => match tc {
                Some(c) => match &c.custom_border_set {
                    Some(s) => Some(s.copy()),
                    None => None,
                },
                None => None,
            },
        };
        let padding = match oc {
            Some(c) if c.padding.is_some() => c.padding.unwrap(),
            _ => match tc {
                Some(c) if c.padding.is_some() => c.padding.unwrap(),
                _ => PaddingConfig::zero(),
            },
        };
        let frame_over = match oc {
            Some(c) => copy_style_opt(&c.frame_style),
            None => None,
        };
        let frame_base = match tc {
            Some(c) => copy_style_opt(&c.frame_style),
            None => None,
        };
        let border_over = match oc {
            Some(c) => copy_style_opt(&c.border_style),
            None => None,
        };
        let border_base = match tc {
            Some(c) => copy_style_opt(&c.border_style),
            None => None,
        };
        (
            borders,
            border_type,
            border_set,
            custom,
            padding,
            style_pick(frame_base, frame_over),
            style_pick(border_base, border_over),
        )
    };
    let text_over = match appearance {
        Some(a) => match &a.text {
            Some(t) => copy_style_opt(&t.style),
            None => None,
        },
        None => None,
    };
    let text_base = match &theme.defaults.text {
        Some(t) => copy_style_opt(&t.style),
        None => None,
    };
    let text_style = style_pick(text_base, text_over);
    let fade_over = match appearance {
        Some(a) => a.fade,
        None => None,
    };
    let fade = pick_value(theme.defaults.fade, fade_over);
    let (fade_enter, fade_exit) = resolve_fade(fade, phase);
    let title = match oc {
        Some(c) if c.title.is_some() => match &c.title {
            Some(t) => Some(t.copy()),
            None => None,
        },
        _ => match tc {
            Some(c) => match &c.title {
                Some(t) => Some(t.copy()),
                None => None,
            },
            None => None,
        },
    };
    let border_glyphs = match custom {
        Some(c) => BorderGlyphs::Custom(c),
        None => BorderGlyphs::Preset(border_set),
    };
    let r = ResolvedAppearance {
        frame_style,
        border_style,
        text_style,
        borders,
        border_type,
        border_set: border_glyphs,
        padding,
        fade_enter,
        fade_exit,
        title,
    };
    r.with_forced_fade_direction()
}

impl ResolvedAppearance {
    /// The fade of the current phase: the enter fade, else the exit fade.
    pub fn fade_for_phase(&self) -> (r: Option<Fade>)
        ensures
            r == pick(self.fade_exit, self.fade_enter),
    {
        match self.fade_enter {
            Some(f) => Some(f),
            None => self.fade_exit,
        }
    }

    /// Makes the enter fade fade in and the exit fade fade out.
    pub fn with_forced_fade_direction(self) -> (r: ResolvedAppearance)
        ensures
            r.fade_enter == with_dir(self.fade_enter, FadeDirection::In),
            r.fade_exit == with_dir(self.fade_exit, FadeDirection::Out),
            r.frame_style == self.frame_style,
            r.border_style == self.border_style,
            r.text_style == self.text_style,
            r.borders == self.borders,
            r.border_type == self.border_type,
            r.border_set == self.border_set,
            r.padding == self.padding,
            r.title == self.title,
    {
        let mut s = self;
        s.fade_enter = force_direction(s.fade_enter, FadeDirection::In);
        s.fade_exit = force_direction(s.fade_exit, FadeDirection::Out);
        s
    }
}

/// Law: what the item's chrome sets wins over the theme, field by field.
pub proof fn lemma_overlay_chrome_wins(theme: &Theme, app: Option<&AppearanceConfig>)
    requires
        overlay_chrome(app) is Some,
    ensures
        ({
            let c = overlay_chrome(app)->Some_0;
            &&& c.borders matches Some(b) ==> resolved_borders(theme, app) == b
            &&& c.border_type matches Some(t) ==> resolved_border_type(theme, app) == t
            &&& c.border_set matches Some(s) ==> resolved_border_set(theme, app) == s
            &&& c.custom_border_set is Some ==> resolved_custom_set(theme, app) == c.custom_border_set
            &&& c.padding matches Some(p) ==> resolved_padding(theme, app) == p
            &&& c.frame_style matches Some(s) ==> resolved_frame_style(theme, app) == s.sv()
            &&& c.border_style matches Some(s) ==> resolved_border_style(theme, app) == s.sv()
            &&& c.title is Some ==> resolved_title(theme, app) == c.title
        }),
{
}

/// Law: without an item appearance, resolution gives the theme's own
/// settings, with defaults where the theme has none.
pub proof fn lemma_no_overlay_uses_theme(theme: &Theme)
    requires
        theme.defaults.chrome is Some,
    ensures
        ({
            let c = theme.defaults.chrome->Some_0;
            let none: Option<&AppearanceConfig> = None;
            &&& resolved_borders(theme, none) == (match c.borders { Some(b) => b, None => spec_all_borders() })
            &&& resolved_border_type(theme, none) == (match c.border_type { Some(t) => t, None => BorderTypeConfig::Plain })
            &&& resolved_padding(theme, none) == (match c.padding { Some(p) => p, None => spec_zero_padding() })
            &&& resolved_frame_style(theme, none) == style_or_plain(c.frame_style)
            &&& resolved_title(theme, none) == c.title
            &&& resolved_fade(theme, none) == theme.defaults.fade
        }),
{
}

/// Law: an appearance without chrome turns the borders off and the chrome plain.
pub proof fn lemma_disabled_chrome_is_bare(theme: &Theme, app: Option<&AppearanceConfig>)
    requires
        chrome_disabled(app),
    ensures
        resolved_borders(theme, app) == spec_no_borders(),
        resolved_padding(theme, app) == spec_zero_padding(),
        resolved_custom_set(theme, app) is None,
        resolved_frame_style(theme, app) == plain_style(),
        resolved_border_style(theme, app) == plain_style(),
{
}

/// Law: at most one fade applies, the enter fade only while entering and
/// fading in, the exit fade only while exiting and fading out.
pub proof fn lemma_fades_follow_phase(fade: Option<FadeConfig>, phase: AnimationPhase)
    ensures
        ({
            let (e, x) = spec_phase_fades(fade, phase);
            &&& e is Some ==> phase == AnimationPhase::Entering && e->Some_0.direction == FadeDirection::In
            &&& x is Some ==> phase == AnimationPhase::Exiting && x->Some_0.direction == FadeDirection::Out
            &&& !(e is Some && x is Some)
        }),
{
}

/// The value of an optional style.
pub open spec fn opt_sv(s: Option<StyleConfig>) -> Option<StyleView> {
    match s {
        Some(s) => Some(s.sv()),
        None => None,
    }
}

fn copy_title_opt(t: &Option<TitleConfig>) -> (r: Option<TitleConfig>)
    ensures
        r == *t,
{
    match t {
        Some(t) => Some(t.copy()),
        None => None,
    }
}

/// Two chrome settings agree on every field, styles by value.
pub open spec fn same_chrome(a: ChromeConfig, b: ChromeConfig) -> bool {
    &&& a.borders == b.borders
    &&& a.border_type == b.border_type
    &&& a.border_set == b.border_set
    &&& a.custom_border_set == b.custom_border_set
    &&& a.padding == b.padding
    &&& opt_sv(a.frame_style) == opt_sv(b.frame_style)
    &&& opt_sv(a.border_style) == opt_sv(b.border_style)
    &&& a.title == b.title
}

/// Two text settings agree, styles by value.
pub open spec fn same_text(a: Option<TextConfig>, b: Option<TextConfig>) -> bool {
    match (a, b) {
        (Some(x), Some(y)) => opt_sv(x.style) == opt_sv(y.style),
        (None, None) => true,
        _ => false,
    }
}

/// Two appearances agree on every field, styles by value.
pub open spec fn same_appearance(a: AppearanceConfig, b: AppearanceConfig) -> bool {
    &&& match (a.chrome, b.chrome) {
        (Some(x), Some(y)) => same_chrome(x, y),
        (None, None) => true,
        _ => false,
    }
    &&& same_text(a.text, b.text)
    &&& a.fade == b.fade
}

impl FrameContent {
    /// A copy of this frame content.
    pub fn copy(&self) -> (r: FrameContent)
        ensures
            r == *self,
    {
        FrameContent {
            top_left: self.top_left.clone(),
            top_right: self.top_right.clone(),
            bottom_left: self.bottom_left.clone(),
            bottom_right: self.bottom_right.clone(),
            top: self.top.clone(),
            bottom: self.bottom.clone(),
            left: self.left.clone(),
            right: self.right.clone(),
        }
    }
}

impl ChromeConfig {
    /// The chrome that overrides nothing.
    pub fn empty() -> (r: ChromeConfig)
        ensures
            r.borders is None && r.border_type is None && r.border_set is None && r.custom_border_set is None
                && r.padding is None && r.frame_style is None && r.border_style is None && r.title is None,
    {
        ChromeConfig {
            borders: None,
            border_type: None,
            border_set: None,
            custom_border_set: None,
            padding: None,
            frame_style: None,
            border_style: None,
            title: None,
        }
    }

    /// A copy of this chrome.
    pub fn copy(&self) -> (r: ChromeConfig)
        ensures
            same_chrome(r, *self),
    {
        ChromeConfig {
            borders: self.borders,
            border_type: self.border_type,
            border_set: self.border_set,
            custom_border_set: match &self.custom_border_set {
                Some(c) => Some(c.copy()),
                None => None,
            },
            padding: self.padding,
            frame_style: copy_style_opt(&self.frame_style),
            border_style: copy_style_opt(&self.border_style),
            title: copy_title_opt(&self.title),
        }
    }
}

impl AppearanceConfig {
    /// A copy of this appearance.
    pub fn copy(&self) -> (r: AppearanceConfig)
        ensures
            same_appearance(r, *self),
    {
        AppearanceConfig {
            chrome: match &self.chrome {
                Some(c) => Some(c.copy()),
                None => None,
            },
            text: match &self.text {
                Some(t) => Some(TextConfig { style: copy_style_opt(&t.style) }),
                None => None,
            },
            fade: self.fade,
        }
    }
}

} // verus!
