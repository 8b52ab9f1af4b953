//! Recipe configuration: the plain parts of a recipe's `config` section and
//! the rules that turn them into lifecycle and appearance settings.

use vstd::prelude::*;
use vstd::string::StringExecFns;
use crate::types::{Animation, AutoDismiss, SlideBorderTrimPolicy};
use crate::theme::{
    AppearanceConfig, BordersConfig, BorderTypeConfig, ChromeConfig, ColorConfig, CustomBorderSet,
    Fade, FadeConfig, FadeTarget, ModifierConfig, PaddingConfig, StyleConfig, StyleView, TextConfig,
    TitleAlignment, TitleConfig, TitlePosition, spec_no_borders,
};

verus! {

/// How the notification is sized.
#[derive(Debug, Clone, Copy, PartialEq, Eq, Structural)]
pub enum RaLayoutMode {
    /// Width and height from the config.
    Fixed,
    /// The whole terminal.
    Fullscreen,
}

impl Default for RaLayoutMode {
    fn default() -> (r: RaLayoutMode)
        ensures
            r == RaLayoutMode::Fixed,
    {
        RaLayoutMode::Fixed
    }
}

/// The configured enter/exit animation.
#[derive(Debug, Clone, Copy, PartialEq, Eq, Structural)]
pub enum RaAnimationType {
    Slide,
    ExpandCollapse,
    Fade,
    CustomMotion,
    /// No animation: appear and disappear at once.
    Immediate,
}

impl Default for RaAnimationType {
    fn default() -> (r: RaAnimationType)
        ensures
            r == RaAnimationType::Slide,
    {
        RaAnimationType::Slide
    }
}

/// The animation a recipe runs. An explicit type other than `Slide` is taken
/// as is; `Slide` turns into expand/collapse when the enter transition has a
/// rectangle scale, into motion when it has a start placement, and stays a
/// slide otherwise.
pub open spec fn spec_animation_type(t: RaAnimationType, has_rect_scale: bool, has_from: bool) -> Animation {
    match t {
        RaAnimationType::Slide => if has_rect_scale {
            Animation::ExpandCollapse
        } else if has_from {
            Animation::Motion
        } else {
            Animation::Slide
        },
        RaAnimationType::ExpandCollapse => Animation::ExpandCollapse,
        RaAnimationType::Fade => Animation::Fade,
        RaAnimationType::CustomMotion => Animation::Motion,
        RaAnimationType::Immediate => Animation::Immediate,
    }
}

/// Determines the animation from the configured type and the enter transition.
pub fn animation_type(t: RaAnimationType, has_rect_scale: bool, has_from: bool) -> (r: Animation)
    ensures
        r == spec_animation_type(t, has_rect_scale, has_from),
{
    match t {
        RaAnimationType::Slide => {
            if has_rect_scale {
                Animation::ExpandCollapse
            } else if has_from {
                Animation::Motion
            } else {
                Animation::Slide
            }
        },
        RaAnimationType::ExpandCollapse => Animation::ExpandCollapse,
        RaAnimationType::Fade => Animation::Fade,
        RaAnimationType::CustomMotion => Animation::Motion,
        RaAnimationType::Immediate => Animation::Immediate,
    }
}

/// The default of switches that are on unless turned off (such as text wrapping).
pub fn default_true() -> (r: bool)
    ensures
        r,
{
    true
}

/// Lifecycle timing.
#[derive(Debug, Clone, Copy, PartialEq, Eq, Structural)]
pub struct RaLifecycleConfig {
    /// Total visible time in milliseconds; 0 disables auto-dismiss.
    pub auto_dismiss_ms: u64,
}

impl Default for RaLifecycleConfig {
    fn default() -> (r: RaLifecycleConfig)
        ensures
            r.auto_dismiss_ms == 4000,
    {
        RaLifecycleConfig { auto_dismiss_ms: 4000 }
    }
}

impl RaLifecycleConfig {
    /// When the item dismisses itself: never for 0, else after that many milliseconds.
    pub fn auto_dismiss(&self) -> (r: AutoDismiss)
        ensures
            self.auto_dismiss_ms == 0 ==> r == AutoDismiss::Manual,
            self.auto_dismiss_ms > 0 ==> r == AutoDismiss::After(self.auto_dismiss_ms),
    {
        if self.auto_dismiss_ms == 0 {
            AutoDismiss::Manual
        } else {
            AutoDismiss::After(self.auto_dismiss_ms)
        }
    }
}

/// Border line style of a recipe.
#[derive(Debug, Clone, Copy, PartialEq, Eq, Structural)]
pub enum RaBorderType {
    Rounded,
    Plain,
    Double,
    Thick,
    /// No border.
    Borderless,
}

impl Default for RaBorderType {
    fn default() -> (r: RaBorderType)
        ensures
            r == RaBorderType::Rounded,
    {
        RaBorderType::Rounded
    }
}

/// Border trim during slides.
#[derive(Debug, Clone, Copy, PartialEq, Eq, Structural)]
pub enum RaBorderTrim {
    /// No trim.
    Off,
    /// The leading border edge vanishes at the screen edge.
    VanishingEdge,
}

impl Default for RaBorderTrim {
    fn default() -> (r: RaBorderTrim)
        ensures
            r == RaBorderTrim::Off,
    {
        RaBorderTrim::Off
    }
}

/// Which border edge shows the title.
#[derive(Debug, Clone, Copy, PartialEq, Eq, Structural)]
pub enum RaTitlePosition {
    Top,
    Bottom,
    Left,
    Right,
}

impl Default for RaTitlePosition {
    fn default() -> (r: RaTitlePosition)
        ensures
            r == RaTitlePosition::Top,
    {
        RaTitlePosition::Top
    }
}

/// Title alignment on horizontal borders.
#[derive(Debug, Clone, Copy, PartialEq, Eq, Structural)]
pub enum RaTitleAlignment {
    Left,
    Center,
    Right,
}

impl Default for RaTitleAlignment {
    fn default() -> (r: RaTitleAlignment)
        ensures
            r == RaTitleAlignment::Left,
    {
        RaTitleAlignment::Left
    }
}

/// Inner padding in cells.
#[derive(Debug, Clone, Copy, PartialEq, Eq, Structural)]
pub struct RaPaddingConfig {
    pub top: u16,
    pub right: u16,
    pub bottom: u16,
    pub left: u16,
}

impl Default for RaPaddingConfig {
    fn default() -> (r: RaPaddingConfig)
        ensures
            r == (RaPaddingConfig { top: 0, right: 0, bottom: 0, left: 0 }),
    {
        RaPaddingConfig { top: 0, right: 0, bottom: 0, left: 0 }
    }
}

/// Whether the padding is the default (none); such padding is not written out.
pub fn is_default_padding(v: &RaPaddingConfig) -> (r: bool)
    ensures
        r == (v.top == 0 && v.right == 0 && v.bottom == 0 && v.left == 0),
{
    v.top == 0 && v.right == 0 && v.bottom == 0 && v.left == 0
}

/// Custom single-character border glyphs.
#[derive(Debug)]
pub struct RaCustomBorderChars {
    pub top_left: String,
    pub top_right: String,
    pub bottom_left: String,
    pub bottom_right: String,
    pub horizontal_top: String,
    pub horizontal_bottom: String,
    pub vertical_left: String,
    pub vertical_right: String,
}

/// The default horizontal glyph.
pub fn default_horizontal() -> (r: String)
    ensures
        r@ == "─"@,
{
    String::from_str("─")
}

/// The default vertical glyph.
pub fn default_vertical() -> (r: String)
    ensures
        r@ == "│"@,
{
    String::from_str("│")
}

/// Whether no custom glyphs are set; such a field is not written out.
pub fn is_none_custom_chars(v: &Option<RaCustomBorderChars>) -> (r: bool)
    ensures
        r == v is None,
{
    v.is_none()
}

/// Frame content drawn straight onto the buffer.
#[derive(Debug)]
pub struct RaFrameContent {
    pub top_left: String,
    pub top_right: String,
    pub bottom_left: String,
    pub bottom_right: String,
    pub top: String,
    pub bottom: String,
    pub left: String,
    pub right: String,
}

/// The default horizontal frame pattern.
pub fn default_frame_horizontal() -> (r: String)
    ensures
        r@ == "─"@,
{
    String::from_str("─")
}

/// The default vertical frame pattern.
pub fn default_frame_vertical() -> (r: String)
    ensures
        r@ == "│"@,
{
    String::from_str("│")
}

/// Whether no frame content is set; such a field is not written out.
pub fn is_none_frame(v: &Option<RaFrameContent>) -> (r: bool)
    ensures
        r == v is None,
{
    v.is_none()
}

/// Border settings of a recipe.
#[derive(Debug)]
pub struct RaBorderConfig {
    pub border_type: RaBorderType,
    pub trim: RaBorderTrim,
    pub padding: RaPaddingConfig,
    /// Centre the content within the notification.
    pub center_content: bool,
    pub title: Option<String>,
    pub title_position: RaTitlePosition,
    pub title_alignment: RaTitleAlignment,
    pub custom_chars: Option<RaCustomBorderChars>,
    pub frame: Option<RaFrameContent>,
}

impl Default for RaBorderConfig {
    fn default() -> (r: RaBorderConfig)
        ensures
            r.border_type == RaBorderType::Rounded,
            r.trim == RaBorderTrim::Off,
            r.padding == (RaPaddingConfig { top: 0, right: 0, bottom: 0, left: 0 }),
            !r.center_content,
            r.title is None,
            r.title_position == RaTitlePosition::Top,
            r.title_alignment == RaTitleAlignment::Left,
            r.custom_chars is None,
            r.frame is None,
    {
        RaBorderConfig {
            border_type: RaBorderType::Rounded,
            trim: RaBorderTrim::Off,
            padding: RaPaddingConfig::default(),
            center_content: false,
            title: None,
            title_position: RaTitlePosition::Top,
            title_alignment: RaTitleAlignment::Left,
            custom_chars: None,
            frame: None,
        }
    }
}

/// Whether the title position is the default; such a field is not written out.
pub fn is_default_title_position(v: &RaTitlePosition) -> (r: bool)
    ensures
        r == (*v == RaTitlePosition::Top),
{
    match v {
        RaTitlePosition::Top => true,
        _ => false,
    }
}

/// Whether the title alignment is the default; such a field is not written out.
pub fn is_default_title_alignment(v: &RaTitleAlignment) -> (r: bool)
    ensures
        r == (*v == RaTitleAlignment::Left),
{
    match v {
        RaTitleAlignment::Left => true,
        _ => false,
    }
}

impl RaBorderConfig {
    /// The slide trim policy.
    pub fn border_trim_policy(&self) -> (r: SlideBorderTrimPolicy)
        ensures
            r == (match self.trim {
                RaBorderTrim::VanishingEdge => SlideBorderTrimPolicy::VanishingEdge,
                RaBorderTrim::Off => SlideBorderTrimPolicy::Off,
            }),
    {
        match self.trim {
            RaBorderTrim::VanishingEdge => SlideBorderTrimPolicy::VanishingEdge,
            RaBorderTrim::Off => SlideBorderTrimPolicy::Off,
        }
    }
}

/// When content effects play.
#[derive(Debug, Clone, Copy, PartialEq, Eq, Structural)]
pub enum RaContentMode {
    /// Once, while entering.
    EnterOnly,
    /// Repeatedly, with the loop period.
    Loop,
}

impl Default for RaContentMode {
    fn default() -> (r: RaContentMode)
        ensures
            r == RaContentMode::EnterOnly,
    {
        RaContentMode::EnterOnly
    }
}

/// Looping of effects.
#[derive(Debug, Clone, Copy, PartialEq, Eq, Structural)]
pub struct RaTimeConfig {
    pub is_loop: bool,
    pub loop_period_ms: u64,
}

impl Default for RaTimeConfig {
    fn default() -> (r: RaTimeConfig)
        ensures
            r == (RaTimeConfig { is_loop: false, loop_period_ms: 2000 }),
    {
        RaTimeConfig { is_loop: false, loop_period_ms: 2000 }
    }
}

/// The loop period of a recipe: set only when looping is on with a positive period.
pub fn loop_period_ms(time: Option<RaTimeConfig>) -> (r: Option<u64>)
    ensures
        r == (match time {
            Some(t) => if t.is_loop && t.loop_period_ms > 0 {
                Some(t.loop_period_ms)
            } else {
                None
            },
            None => None,
        }),
{
    match time {
        Some(t) => {
            if t.is_loop && t.loop_period_ms > 0 {
                Some(t.loop_period_ms)
            } else {
                None
            }
        },
        None => None,
    }
}

/// Which colours a fade effect touches.
#[derive(Debug, Clone, Copy, PartialEq, Eq, Structural)]
pub enum RaApplyTo {
    Both,
    Foreground,
    Background,
}

impl Default for RaApplyTo {
    fn default() -> (r: RaApplyTo)
        ensures
            r == RaApplyTo::Both,
    {
        RaApplyTo::Both
    }
}

/// The fade target for `apply_to`.
pub fn to_fade_apply_to(apply_to: RaApplyTo) -> (r: FadeTarget)
    ensures
        r == (match apply_to {
            RaApplyTo::Both => FadeTarget::Both,
            RaApplyTo::Foreground => FadeTarget::Foreground,
            RaApplyTo::Background => FadeTarget::Background,
        }),
{
    match apply_to {
        RaApplyTo::Both => FadeTarget::Both,
        RaApplyTo::Foreground => FadeTarget::Foreground,
        RaApplyTo::Background => FadeTarget::Background,
    }
}

/// The base style of a style layer.
#[derive(Debug)]
pub struct RaBaseStyle {
    pub foreground: Option<ColorConfig>,
    pub background: Option<ColorConfig>,
    /// Modifier names to turn on.
    pub added_modifiers: Vec<String>,
    /// Modifier names to turn off.
    pub removed_modifiers: Vec<String>,
}

impl Default for RaBaseStyle {
    fn default() -> (r: RaBaseStyle)
        ensures
            r.foreground == Some(ColorConfig::White),
            r.background == Some(ColorConfig::Black),
            r.added_modifiers@.len() == 0,
            r.removed_modifiers@.len() == 0,
    {
        RaBaseStyle {
            foreground: Some(ColorConfig::White),
            background: Some(ColorConfig::Black),
            added_modifiers: Vec::new(),
            removed_modifiers: Vec::new(),
        }
    }
}

/// The lower-case form of a string, as `str::to_lowercase` gives it.
pub uninterp spec fn lowercase(s: Seq<char>) -> Seq<char>;

/// `str::to_lowercase`: the string with every character in lower case, by
/// Unicode's rules. Only the name of the result is claimed.
#[verifier::external_body]
fn to_lower(s: &String) -> (r: String)
    ensures
        r@ == lowercase(s@),
{
    s.to_lowercase()
}

/// The modifier a lower-case name stands for.
pub open spec fn modifier_named(s: Seq<char>) -> Option<ModifierConfig> {
    if s == "bold"@ {
        Some(ModifierConfig::Bold)
    } else if s == "dim"@ {
        Some(ModifierConfig::Dim)
    } else if s == "italic"@ {
        Some(ModifierConfig::Italic)
    } else if s == "underlined"@ || s == "underline"@ {
        Some(ModifierConfig::Underlined)
    } else if s == "slow_blink"@ || s == "slowblink"@ {
        Some(ModifierConfig::SlowBlink)
    } else if s == "rapid_blink"@ || s == "rapidblink"@ {
        Some(ModifierConfig::RapidBlink)
    } else if s == "reversed"@ || s == "reverse"@ {
        Some(ModifierConfig::Reversed)
    } else if s == "hidden"@ {
        Some(ModifierConfig::Hidden)
    } else if s == "crossed_out"@ || s == "crossedout"@ || s == "strikethrough"@ {
        Some(ModifierConfig::CrossedOut)
    } else {
        None
    }
}

fn is(s: &String, lit: &str) -> (r: bool)
    ensures
        r == (s@ == lit@),
{
    let l = String::from_str(lit);
    *s == l
}

/// The modifier a name stands for, in any letter case; `None` for unknown names.
pub fn string_to_modifier(s: &String) -> (r: Option<ModifierConfig>)
    ensures
        r == modifier_named(lowercase(s@)),
{
    let l = to_lower(s);
    if is(&l, "bold") {
        Some(ModifierConfig::Bold)
    } else if is(&l, "dim") {
        Some(ModifierConfig::Dim)
    } else if is(&l, "italic") {
        Some(ModifierConfig::Italic)
    } else if is(&l, "underlined") || is(&l, "underline") {
        Some(ModifierConfig::Underlined)
    } else if is(&l, "slow_blink") || is(&l, "slowblink") {
        Some(ModifierConfig::SlowBlink)
    } else if is(&l, "rapid_blink") || is(&l, "rapidblink") {
        Some(ModifierConfig::RapidBlink)
    } else if is(&l, "reversed") || is(&l, "reverse") {
        Some(ModifierConfig::Reversed)
    } else if is(&l, "hidden") {
        Some(ModifierConfig::Hidden)
    } else if is(&l, "crossed_out") || is(&l, "crossedout") || is(&l, "strikethrough") {
        Some(ModifierConfig::CrossedOut)
    } else {
        None
    }
}

/// The modifiers named in `ss`, in order, unknown names skipped.
pub open spec fn modifiers_of(ss: Seq<String>) -> Seq<ModifierConfig>
    decreases ss.len(),
{
    if ss.len() == 0 {
        Seq::empty()
    } else {
        let rest = modifiers_of(ss.drop_last());
        match modifier_named(lowercase(ss.last()@)) {
            Some(m) => rest.push(m),
            None => rest,
        }
    }
}

/// The modifiers named in `strings`, unknown names skipped.
pub fn convert_modifiers(strings: &Vec<String>) -> (r: Vec<ModifierConfig>)
    ensures
        r@ == modifiers_of(strings@),
{
    let mut r: Vec<ModifierConfig> = Vec::new();
    let mut i: usize = 0;
    while i < strings.len()
        invariant
            i <= strings.len(),
            r@ == modifiers_of(strings@.take(i as int)),
        decreases strings.len() - i,
    {
        let m = string_to_modifier(&strings[i]);
        proof {
            assert(strings@.take(i + 1).drop_last() =~= strings@.take(i as int));
        }
        match m {
            Some(m) => r.push(m),
            None => {},
        }
        i = i + 1;
    }
    proof {
        assert(strings@.take(strings.len() as int) =~= strings@);
    }
    r
}

/// Borders and line type for a recipe border type.
pub open spec fn spec_border_choice(t: RaBorderType) -> (Option<BordersConfig>, Option<BorderTypeConfig>) {
    match t {
        RaBorderType::Borderless => (Some(spec_no_borders()), Some(BorderTypeConfig::Plain)),
        RaBorderType::Rounded => (None, Some(BorderTypeConfig::Rounded)),
        RaBorderType::Plain => (None, Some(BorderTypeConfig::Plain)),
        RaBorderType::Double => (None, Some(BorderTypeConfig::Double)),
        RaBorderType::Thick => (None, Some(BorderTypeConfig::Thick)),
    }
}

pub open spec fn spec_title_position(p: RaTitlePosition) -> TitlePosition {
    match p {
        RaTitlePosition::Top => TitlePosition::Top,
        RaTitlePosition::Bottom => TitlePosition::Bottom,
        RaTitlePosition::Left => TitlePosition::Left,
        RaTitlePosition::Right => TitlePosition::Right,
    }
}

pub open spec fn spec_title_alignment(a: RaTitleAlignment) -> TitleAlignment {
    match a {
        RaTitleAlignment::Left => TitleAlignment::Left,
        RaTitleAlignment::Center => TitleAlignment::Center,
        RaTitleAlignment::Right => TitleAlignment::Right,
    }
}

/// The padding an appearance gets: none when all sides are zero.
pub open spec fn spec_padding_choice(p: RaPaddingConfig) -> Option<PaddingConfig> {
    if p.top == 0 && p.right == 0 && p.bottom == 0 && p.left == 0 {
        None
    } else {
        Some(PaddingConfig { top: p.top, right: p.right, bottom: p.bottom, left: p.left })
    }
}

/// The custom glyph set for custom border characters.
pub open spec fn spec_custom_set(c: RaCustomBorderChars) -> CustomBorderSet {
    CustomBorderSet {
        top_left: c.top_left,
        top_right: c.top_right,
        bottom_left: c.bottom_left,
        bottom_right: c.bottom_right,
        horizontal_top: c.horizontal_top,
        horizontal_bottom: c.horizontal_bottom,
        vertical_left: c.vertical_left,
        vertical_right: c.vertical_right,
    }
}

/// The appearance a recipe gives its notification: chrome from the border
/// settings, text and border styles from the first style layer's base style,
/// and the fades taken from its enter and exit effects.
pub open spec fn appearance_matches(
    a: &AppearanceConfig,
    border: &RaBorderConfig,
    base: &RaBaseStyle,
    fade_enter: Option<Fade>,
    fade_exit: Option<Fade>,
) -> bool {
    let adds = modifiers_of(base.added_modifiers@);
    let subs = modifiers_of(base.removed_modifiers@);
    let c = a.chrome->Some_0;
    &&& a.chrome is Some
    &&& (c.borders, c.border_type) == spec_border_choice(border.border_type)
    &&& c.border_set is None
    &&& c.custom_border_set == (match border.custom_chars {
        Some(ch) => Some(spec_custom_set(ch)),
        None => None,
    })
    &&& c.padding == spec_padding_choice(border.padding)
    &&& c.frame_style is Some && c.frame_style->Some_0.sv() == (StyleView {
        fg: None,
        bg: base.background,
        add_modifier: Seq::empty(),
        sub_modifier: Seq::empty(),
    })
    &&& c.border_style is Some && c.border_style->Some_0.sv() == (StyleView {
        fg: base.foreground,
        bg: None,
        add_modifier: adds,
        sub_modifier: subs,
    })
    &&& c.title == (match border.title {
        Some(t) => Some(TitleConfig {
            text: t,
            position: spec_title_position(border.title_position),
            alignment: spec_title_alignment(border.title_alignment),
        }),
        None => None,
    })
    &&& a.text is Some && a.text->Some_0.style is Some
    &&& a.text->Some_0.style->Some_0.sv() == (StyleView {
        fg: base.foreground,
        bg: base.background,
        add_modifier: adds,
        sub_modifier: subs,
    })
    &&& a.fade == (if fade_enter is Some || fade_exit is Some {
        Some(FadeConfig { enter: fade_enter, exit: fade_exit })
    } else {
        None
    })
}

fn copy_mods(v: &Vec<ModifierConfig>) -> (r: Vec<ModifierConfig>)
    ensures
        r@ == v@,
{
    let mut r: Vec<ModifierConfig> = Vec::new();
    let mut i: usize = 0;
    while i < v.len()
        invariant
            i <= v.len(),
            r@ == v@.take(i as int),
        decreases v.len() - i,
    {
        r.push(v[i]);
        i = i + 1;
        proof {
            assert(r@ =~= v@.take(i as int));
        }
    }
    proof {
        assert(v@.take(v.len() as int) =~= v@);
    }
    r
}

/// Builds the appearance of a recipe's notification from its border settings,
/// the base style of its first style layer, and the fades of that layer.
pub fn build_appearance(
    border: &RaBorderConfig,
    base: &RaBaseStyle,
    fade_enter: Option<Fade>,
    fade_exit: Option<Fade>,
) -> (a: AppearanceConfig)
    ensures
        appearance_matches(&a, border, base, fade_enter, fade_exit),
{
    let adds = convert_modifiers(&base.added_modifiers);
    let subs = convert_modifiers(&base.removed_modifiers);
    let text_style = StyleConfig {
        fg: base.foreground,
        bg: base.background,
        add_modifier: copy_mods(&adds),
        sub_modifier: copy_mods(&subs),
    };
    let frame_style = StyleConfig { fg: None, bg: base.background, add_modifier: Vec::new(), sub_modifier: Vec::new() };
    proof {
        assert(frame_style.add_modifier@ =~= Seq::<ModifierConfig>::empty());
        assert(frame_style.sub_modifier@ =~= Seq::<ModifierConfig>::empty());
    }
    let border_style = StyleConfig { fg: base.foreground, bg: None, add_modifier: adds, sub_modifier: subs };
    let title = match &border.title {
        Some(t) => Some(TitleConfig {
            text: t.clone(),
            position: match border.title_position {
                RaTitlePosition::Top => TitlePosition::Top,
                RaTitlePosition::Bottom => TitlePosition::Bottom,
                RaTitlePosition::Left => TitlePosition::Left,
                RaTitlePosition::Right => TitlePosition::Right,
            },
            alignment: match border.title_alignment {
                RaTitleAlignment::Left => TitleAlignment::Left,
                RaTitleAlignment::Center => TitleAlignment::Center,
                RaTitleAlignment::Right => TitleAlignment::Right,
            },
        }),
        None => None,
    };
    let (borders, border_type) = match border.border_type {
        RaBorderType::Borderless => (Some(BordersConfig::none()), Some(BorderTypeConfig::Plain)),
        RaBorderType::Rounded => (None, Some(BorderTypeConfig::Rounded)),
        RaBorderType::Plain => (None, Some(BorderTypeConfig::Plain)),
        RaBorderType::Double => (None, Some(BorderTypeConfig::Double)),
        RaBorderType::Thick => (None, Some(BorderTypeConfig::Thick)),
    };
    let p = border.padding;
    let padding = if p.top == 0 && p.right == 0 && p.bottom == 0 && p.left == 0 {
        None
    } else {
        Some(PaddingConfig { top: p.top, right: p.right, bottom: p.bottom, left: p.left })
    };
    let custom_border_set = match &border.custom_chars {
        Some(ch) => Some(CustomBorderSet {
            top_left: ch.top_left.clone(),
            top_right: ch.top_right.clone(),
            bottom_left: ch.bottom_left.clone(),
            bottom_right: ch.bottom_right.clone(),
            horizontal_top: ch.horizontal_top.clone(),
            horizontal_bottom: ch.horizontal_bottom.clone(),
            vertical_left: ch.vertical_left.clone(),
            vertical_right: ch.vertical_right.clone(),
        }),
        None => None,
    };
    let chrome = ChromeConfig {
        borders,
        border_type,
        border_set: None,
        custom_border_set,
        padding,
        frame_style: Some(frame_style),
        border_style: Some(border_style),
        title,
    };
    let fade = if fade_enter.is_some() || fade_exit.is_some() {
        Some(FadeConfig { enter: fade_enter, exit: fade_exit })
    } else {
        None
    };
    AppearanceConfig { chrome: Some(chrome), text: Some(TextConfig { style: Some(text_style) }), fade }
}

/// Law: an explicit animation type other than `Slide` is taken as is,
/// whatever the enter transition says: `ExpandCollapse` gives expand/collapse,
/// `Fade` a fade, `CustomMotion` motion and `Immediate` an immediate change.
/// A slide comes out only of a `Slide` type whose transition has neither a
/// rectangle scale nor a start placement.
pub proof fn lemma_explicit_animation_types(t: RaAnimationType, has_rect_scale: bool, has_from: bool)
    ensures
        t == RaAnimationType::ExpandCollapse ==> spec_animation_type(t, has_rect_scale, has_from)
            == Animation::ExpandCollapse,
        t == RaAnimationType::Fade ==> spec_animation_type(t, has_rect_scale, has_from) == Animation::Fade,
        t == RaAnimationType::CustomMotion ==> spec_animation_type(t, has_rect_scale, has_from) == Animation::Motion,
        t == RaAnimationType::Immediate ==> spec_animation_type(t, has_rect_scale, has_from) == Animation::Immediate,
        spec_animation_type(t, has_rect_scale, has_from) == Animation::Slide <==> (t == RaAnimationType::Slide
            && !has_rect_scale && !has_from),
{
}

} // verus!
