//! Colours and modifiers between the three forms the renderer meets: the
//! configured form, the terminal's named/indexed palette, and straight RGBA.
//!
//! Named terminal colours and the 256-colour palette map to RGB with the
//! usual xterm values; a reset colour is transparent.

use vstd::prelude::*;
use crate::theme::{ColorConfig, ModifierConfig, StyleConfig};

verus! {

/// A terminal colour: named, indexed into the 256-colour palette, or RGB.
#[derive(Debug, Clone, Copy, PartialEq, Eq, Structural)]
pub enum TermColor {
    Reset,
    Black,
    Red,
    Green,
    Yellow,
    Blue,
    Magenta,
    Cyan,
    Gray,
    DarkGray,
    LightRed,
    LightGreen,
    LightYellow,
    LightBlue,
    LightMagenta,
    LightCyan,
    White,
    Rgb(u8, u8, u8),
    Indexed(u8),
}

/// A straight RGBA colour; alpha 0 is transparent.
#[derive(Debug, Clone, Copy, PartialEq, Eq, Structural)]
pub struct Rgba {
    pub r: u8,
    pub g: u8,
    pub b: u8,
    pub a: u8,
}

/// Text modifiers as flags.
#[derive(Debug, Clone, Copy, PartialEq, Eq, Structural)]
pub struct ModifierFlags {
    pub bold: bool,
    pub italic: bool,
    pub underline: bool,
    pub dim: bool,
    pub reverse: bool,
    pub strikethrough: bool,
    pub slow_blink: bool,
    pub rapid_blink: bool,
    pub hidden: bool,
}

/// A terminal style: optional colours and the modifiers it adds.
#[derive(Debug, Clone, Copy, PartialEq, Eq, Structural)]
pub struct TermStyle {
    pub fg: Option<TermColor>,
    pub bg: Option<TermColor>,
    pub add_modifier: ModifierFlags,
}

/// An RGBA style.
#[derive(Debug, Clone, Copy, PartialEq, Eq, Structural)]
pub struct RgbaStyle {
    pub fg: Rgba,
    pub bg: Rgba,
    pub mods: ModifierFlags,
}

pub open spec fn opaque(r: u8, g: u8, b: u8) -> Rgba {
    Rgba { r, g, b, a: 255 }
}

pub open spec fn transparent() -> Rgba {
    Rgba { r: 0, g: 0, b: 0, a: 0 }
}

pub open spec fn no_flags() -> ModifierFlags {
    ModifierFlags {
        bold: false,
        italic: false,
        underline: false,
        dim: false,
        reverse: false,
        strikethrough: false,
        slow_blink: false,
        rapid_blink: false,
        hidden: false,
    }
}

/// The terminal colour for a configured colour; `LightGray` is `Gray`.
pub open spec fn spec_config_to_term(c: ColorConfig) -> TermColor {
    match c {
        ColorConfig::Rgb { r, g, b } => TermColor::Rgb(r, g, b),
        ColorConfig::Indexed { value } => TermColor::Indexed(value),
        ColorConfig::Reset => TermColor::Reset,
        ColorConfig::Black => TermColor::Black,
        ColorConfig::Red => TermColor::Red,
        ColorConfig::Green => TermColor::Green,
        ColorConfig::Yellow => TermColor::Yellow,
        ColorConfig::Blue => TermColor::Blue,
        ColorConfig::Magenta => TermColor::Magenta,
        ColorConfig::Cyan => TermColor::Cyan,
        ColorConfig::Gray => TermColor::Gray,
        ColorConfig::LightGray => TermColor::Gray,
        ColorConfig::DarkGray => TermColor::DarkGray,
        ColorConfig::LightRed => TermColor::LightRed,
        ColorConfig::LightGreen => TermColor::LightGreen,
        ColorConfig::LightYellow => TermColor::LightYellow,
        ColorConfig::LightBlue => TermColor::LightBlue,
        ColorConfig::LightMagenta => TermColor::LightMagenta,
        ColorConfig::LightCyan => TermColor::LightCyan,
        ColorConfig::White => TermColor::White,
    }
}

/// The configured form of a terminal colour.
pub open spec fn spec_term_to_config(c: TermColor) -> ColorConfig {
    match c {
        TermColor::Rgb(r, g, b) => ColorConfig::Rgb { r, g, b },
        TermColor::Indexed(value) => ColorConfig::Indexed { value },
        TermColor::Reset => ColorConfig::Reset,
        TermColor::Black => ColorConfig::Black,
        TermColor::Red => ColorConfig::Red,
        TermColor::Green => ColorConfig::Green,
        TermColor::Yellow => ColorConfig::Yellow,
        TermColor::Blue => ColorConfig::Blue,
        TermColor::Magenta => ColorConfig::Magenta,
        TermColor::Cyan => ColorConfig::Cyan,
        TermColor::Gray => ColorConfig::Gray,
        TermColor::DarkGray => ColorConfig::DarkGray,
        TermColor::LightRed => ColorConfig::LightRed,
        TermColor::LightGreen => ColorConfig::LightGreen,
        TermColor::LightYellow => ColorConfig::LightYellow,
        TermColor::LightBlue => ColorConfig::LightBlue,
        TermColor::LightMagenta => ColorConfig::LightMagenta,
        TermColor::LightCyan => ColorConfig::LightCyan,
        TermColor::White => ColorConfig::White,
    }
}

/// Converts a configured colour to a terminal colour.
pub fn color_config_to_term(c: ColorConfig) -> (r: TermColor)
    ensures
        r == spec_config_to_term(c),
{
    match c {
        ColorConfig::Rgb { r, g, b } => TermColor::Rgb(r, g, b),
        ColorConfig::Indexed { value } => TermColor::Indexed(value),
        ColorConfig::Reset => TermColor::Reset,
        ColorConfig::Black => TermColor::Black,
        ColorConfig::Red => TermColor::Red,
        ColorConfig::Green => TermColor::Green,
        ColorConfig::Yellow => TermColor::Yellow,
        ColorConfig::Blue => TermColor::Blue,
        ColorConfig::Magenta => TermColor::Magenta,
        ColorConfig::Cyan => TermColor::Cyan,
        ColorConfig::Gray | ColorConfig::LightGray => TermColor::Gray,
        ColorConfig::DarkGray => TermColor::DarkGray,
        ColorConfig::LightRed => TermColor::LightRed,
        ColorConfig::LightGreen => TermColor::LightGreen,
        ColorConfig::LightYellow => TermColor::LightYellow,
        ColorConfig::LightBlue => TermColor::LightBlue,
        ColorConfig::LightMagenta => TermColor::LightMagenta,
        ColorConfig::LightCyan => TermColor::LightCyan,
        ColorConfig::White => TermColor::White,
    }
}

/// Converts a terminal colour to its configured form.
pub fn term_to_color_config(c: TermColor) -> (r: ColorConfig)
    ensures
        r == spec_term_to_config(c),
{
    match c {
        TermColor::Rgb(r, g, b) => ColorConfig::Rgb { r, g, b },
        TermColor::Indexed(value) => ColorConfig::Indexed { value },
        TermColor::Reset => ColorConfig::Reset,
        TermColor::Black => ColorConfig::Black,
        TermColor::Red => ColorConfig::Red,
        TermColor::Green => ColorConfig::Green,
        TermColor::Yellow => ColorConfig::Yellow,
        TermColor::Blue => ColorConfig::Blue,
        TermColor::Magenta => ColorConfig::Magenta,
        TermColor::Cyan => ColorConfig::Cyan,
        TermColor::Gray => ColorConfig::Gray,
        TermColor::DarkGray => ColorConfig::DarkGray,
        TermColor::LightRed => ColorConfig::LightRed,
        TermColor::LightGreen => ColorConfig::LightGreen,
        TermColor::LightYellow => ColorConfig::LightYellow,
        TermColor::LightBlue => ColorConfig::LightBlue,
        TermColor::LightMagenta => ColorConfig::LightMagenta,
        TermColor::LightCyan => ColorConfig::LightCyan,
        TermColor::White => ColorConfig::White,
    }
}

/// One channel of the 6x6x6 colour cube: 0 for step 0, else `55 + 40 * step`.
pub open spec fn cube_level(v: int) -> int {
    if v == 0 {
        0
    } else {
        55 + v * 40
    }
}

/// The xterm palette colour at `index`: the 16 standard colours, then the
/// 6x6x6 cube (index `16 + 36r + 6g + b`), then 24 greys from 8 in steps of 10.
pub open spec fn spec_indexed_rgb(index: u8) -> Rgba {
    let i = index as int;
    if i == 0 {
        opaque(0, 0, 0)
    } else if i == 1 {
        opaque(128, 0, 0)
    } else if i == 2 {
        opaque(0, 128, 0)
    } else if i == 3 {
        opaque(128, 128, 0)
    } else if i == 4 {
        opaque(0, 0, 128)
    } else if i == 5 {
        opaque(128, 0, 128)
    } else if i == 6 {
        opaque(0, 128, 128)
    } else if i == 7 {
        opaque(192, 192, 192)
    } else if i == 8 {
        opaque(128, 128, 128)
    } else if i == 9 {
        opaque(255, 0, 0)
    } else if i == 10 {
        opaque(0, 255, 0)
    } else if i == 11 {
        opaque(255, 255, 0)
    } else if i == 12 {
        opaque(0, 0, 255)
    } else if i == 13 {
        opaque(255, 0, 255)
    } else if i == 14 {
        opaque(0, 255, 255)
    } else if i == 15 {
        opaque(255, 255, 255)
    } else if i <= 231 {
        let n = i - 16;
        opaque(
            cube_level((n / 36) % 6) as u8,
            cube_level((n / 6) % 6) as u8,
            cube_level(n % 6) as u8,
        )
    } else {
        let gray = 8 + (i - 232) * 10;
        opaque(gray as u8, gray as u8, gray as u8)
    }
}

fn cube_channel(v: u8) -> (r: u8)
    requires
        v < 6,
    ensures
        r == cube_level(v as int),
{
    if v == 0 {
        0
    } else {
        55 + v * 40
    }
}

/// The RGB value of a 256-colour palette index.
pub fn indexed_color_to_rgb(index: u8) -> (c: Rgba)
    ensures
        c == spec_indexed_rgb(index),
{
    match index {
        0 => Rgba { r: 0, g: 0, b: 0, a: 255 },
        1 => Rgba { r: 128, g: 0, b: 0, a: 255 },
        2 => Rgba { r: 0, g: 128, b: 0, a: 255 },
        3 => Rgba { r: 128, g: 128, b: 0, a: 255 },
        4 => Rgba { r: 0, g: 0, b: 128, a: 255 },
        5 => Rgba { r: 128, g: 0, b: 128, a: 255 },
        6 => Rgba { r: 0, g: 128, b: 128, a: 255 },
        7 => Rgba { r: 192, g: 192, b: 192, a: 255 },
        8 => Rgba { r: 128, g: 128, b: 128, a: 255 },
        9 => Rgba { r: 255, g: 0, b: 0, a: 255 },
        10 => Rgba { r: 0, g: 255, b: 0, a: 255 },
        11 => Rgba { r: 255, g: 255, b: 0, a: 255 },
        12 => Rgba { r: 0, g: 0, b: 255, a: 255 },
        13 => Rgba { r: 255, g: 0, b: 255, a: 255 },
        14 => Rgba { r: 0, g: 255, b: 255, a: 255 },
        15 => Rgba { r: 255, g: 255, b: 255, a: 255 },
        _ => {
            if index <= 231 {
                let n = index - 16;
                let r = cube_channel((n / 36) % 6);
                let g = cube_channel((n / 6) % 6);
                let b = cube_channel(n % 6);
                Rgba { r, g, b, a: 255 }
            } else {
                let gray = 8 + (index - 232) * 10;
                Rgba { r: gray, g: gray, b: gray, a: 255 }
            }
        },
    }
}

/// The RGBA value of a terminal colour: named colours take xterm's values,
/// palette indices their palette colour, and a reset is transparent.
pub open spec fn spec_term_to_rgba(c: TermColor) -> Rgba {
    match c {
        TermColor::Rgb(r, g, b) => opaque(r, g, b),
        TermColor::Reset => transparent(),
        TermColor::Black => opaque(0, 0, 0),
        TermColor::Red => opaque(205, 0, 0),
        TermColor::Green => opaque(0, 205, 0),
        TermColor::Yellow => opaque(205, 205, 0),
        TermColor::Blue => opaque(0, 0, 238),
        TermColor::Magenta => opaque(205, 0, 205),
        TermColor::Cyan => opaque(0, 205, 205),
        TermColor::Gray => opaque(229, 229, 229),
        TermColor::DarkGray => opaque(127, 127, 127),
        TermColor::LightRed => opaque(255, 0, 0),
        TermColor::LightGreen => opaque(0, 255, 0),
        TermColor::LightYellow => opaque(255, 255, 0),
        TermColor::LightBlue => opaque(92, 92, 255),
        TermColor::LightMagenta => opaque(255, 0, 255),
        TermColor::LightCyan => opaque(0, 255, 255),
        TermColor::White => opaque(255, 255, 255),
        TermColor::Indexed(i) => spec_indexed_rgb(i),
    }
}

/// Converts a terminal colour to RGBA.
pub fn term_color_to_rgba(c: TermColor) -> (r: Rgba)
    ensures
        r == spec_term_to_rgba(c),
{
    match c {
        TermColor::Rgb(r, g, b) => Rgba { r, g, b, a: 255 },
        TermColor::Reset => Rgba { r: 0, g: 0, b: 0, a: 0 },
        TermColor::Black => Rgba { r: 0, g: 0, b: 0, a: 255 },
        TermColor::Red => Rgba { r: 205, g: 0, b: 0, a: 255 },
        TermColor::Green => Rgba { r: 0, g: 205, b: 0, a: 255 },
        TermColor::Yellow => Rgba { r: 205, g: 205, b: 0, a: 255 },
        TermColor::Blue => Rgba { r: 0, g: 0, b: 238, a: 255 },
        TermColor::Magenta => Rgba { r: 205, g: 0, b: 205, a: 255 },
        TermColor::Cyan => Rgba { r: 0, g: 205, b: 205, a: 255 },
        TermColor::Gray => Rgba { r: 229, g: 229, b: 229, a: 255 },
        TermColor::DarkGray => Rgba { r: 127, g: 127, b: 127, a: 255 },
        TermColor::LightRed => Rgba { r: 255, g: 0, b: 0, a: 255 },
        TermColor::LightGreen => Rgba { r: 0, g: 255, b: 0, a: 255 },
        TermColor::LightYellow => Rgba { r: 255, g: 255, b: 0, a: 255 },
        TermColor::LightBlue => Rgba { r: 92, g: 92, b: 255, a: 255 },
        TermColor::LightMagenta => Rgba { r: 255, g: 0, b: 255, a: 255 },
        TermColor::LightCyan => Rgba { r: 0, g: 255, b: 255, a: 255 },
        TermColor::White => Rgba { r: 255, g: 255, b: 255, a: 255 },
        TermColor::Indexed(i) => indexed_color_to_rgb(i),
    }
}

/// Converts RGBA to a terminal colour: transparent becomes a reset, anything
/// else its RGB value.
pub fn rgba_to_term_color(c: Rgba) -> (r: TermColor)
    ensures
        r == (if c.a == 0 {
            TermColor::Reset
        } else {
            TermColor::Rgb(c.r, c.g, c.b)
        }),
{
    if c.a == 0 {
        TermColor::Reset
    } else {
        TermColor::Rgb(c.r, c.g, c.b)
    }
}

/// The flags a list of modifiers turns on.
pub open spec fn spec_flags_of(ms: Seq<ModifierConfig>) -> ModifierFlags
    decreases ms.len(),
{
    if ms.len() == 0 {
        no_flags()
    } else {
        let f = spec_flags_of(ms.drop_last());
        match ms.last() {
            ModifierConfig::Bold => ModifierFlags { bold: true, ..f },
            ModifierConfig::Dim => ModifierFlags { dim: true, ..f },
            ModifierConfig::Italic => ModifierFlags { italic: true, ..f },
            ModifierConfig::Underlined => ModifierFlags { underline: true, ..f },
            ModifierConfig::SlowBlink => ModifierFlags { slow_blink: true, ..f },
            ModifierConfig::RapidBlink => ModifierFlags { rapid_blink: true, ..f },
            ModifierConfig::Reversed => ModifierFlags { reverse: true, ..f },
            ModifierConfig::Hidden => ModifierFlags { hidden: true, ..f },
            ModifierConfig::CrossedOut => ModifierFlags { strikethrough: true, ..f },
        }
    }
}

/// Sets the flag of one modifier.
pub fn add_flag(f: ModifierFlags, m: ModifierConfig) -> (r: ModifierFlags)
    ensures
        r == (match m {
            ModifierConfig::Bold => ModifierFlags { bold: true, ..f },
            ModifierConfig::Dim => ModifierFlags { dim: true, ..f },
            ModifierConfig::Italic => ModifierFlags { italic: true, ..f },
            ModifierConfig::Underlined => ModifierFlags { underline: true, ..f },
            ModifierConfig::SlowBlink => ModifierFlags { slow_blink: true, ..f },
            ModifierConfig::RapidBlink => ModifierFlags { rapid_blink: true, ..f },
            ModifierConfig::Reversed => ModifierFlags { reverse: true, ..f },
            ModifierConfig::Hidden => ModifierFlags { hidden: true, ..f },
            ModifierConfig::CrossedOut => ModifierFlags { strikethrough: true, ..f },
        }),
{
    match m {
        ModifierConfig::Bold => ModifierFlags { bold: true, ..f },
        ModifierConfig::Dim => ModifierFlags { dim: true, ..f },
        ModifierConfig::Italic => ModifierFlags { italic: true, ..f },
        ModifierConfig::Underlined => ModifierFlags { underline: true, ..f },
        ModifierConfig::SlowBlink => ModifierFlags { slow_blink: true, ..f },
        ModifierConfig::RapidBlink => ModifierFlags { rapid_blink: true, ..f },
        ModifierConfig::Reversed => ModifierFlags { reverse: true, ..f },
        ModifierConfig::Hidden => ModifierFlags { hidden: true, ..f },
        ModifierConfig::CrossedOut => ModifierFlags { strikethrough: true, ..f },
    }
}

/// The flags that a list of modifiers turns on.
pub fn flags_of(ms: &Vec<ModifierConfig>) -> (r: ModifierFlags)
    ensures
        r == spec_flags_of(ms@),
{
    let mut f = ModifierFlags {
        bold: false,
        italic: false,
        underline: false,
        dim: false,
        reverse: false,
        strikethrough: false,
        slow_blink: false,
        rapid_blink: false,
        hidden: false,
    };
    let mut i: usize = 0;
    while i < ms.len()
        invariant
            i <= ms.len(),
            f == spec_flags_of(ms@.take(i as int)),
        decreases ms.len() - i,
    {
        proof {
            assert(ms@.take(i + 1).drop_last() =~= ms@.take(i as int));
        }
        f = add_flag(f, ms[i]);
        i = i + 1;
    }
    proof {
        assert(ms@.take(ms.len() as int) =~= ms@);
    }
    f
}

/// The modifiers of a set of flags, in the order bold, dim, italic,
/// underlined, slow blink, rapid blink, reversed, hidden, crossed out.
pub open spec fn spec_modifier_list(f: ModifierFlags) -> Seq<ModifierConfig> {
    let s0: Seq<ModifierConfig> = Seq::empty();
    let s1 = if f.bold { s0.push(ModifierConfig::Bold) } else { s0 };
    let s2 = if f.dim { s1.push(ModifierConfig::Dim) } else { s1 };
    let s3 = if f.italic { s2.push(ModifierConfig::Italic) } else { s2 };
    let s4 = if f.underline { s3.push(ModifierConfig::Underlined) } else { s3 };
    let s5 = if f.slow_blink { s4.push(ModifierConfig::SlowBlink) } else { s4 };
    let s6 = if f.rapid_blink { s5.push(ModifierConfig::RapidBlink) } else { s5 };
    let s7 = if f.reverse { s6.push(ModifierConfig::Reversed) } else { s6 };
    let s8 = if f.hidden { s7.push(ModifierConfig::Hidden) } else { s7 };
    if f.strikethrough {
        s8.push(ModifierConfig::CrossedOut)
    } else {
        s8
    }
}

/// The modifiers a set of flags turns on, in a fixed order.
pub fn modifier_list(f: ModifierFlags) -> (r: Vec<ModifierConfig>)
    ensures
        r@ == spec_modifier_list(f),
{
    let mut v: Vec<ModifierConfig> = Vec::new();
    if f.bold {
        v.push(ModifierConfig::Bold);
    }
    if f.dim {
        v.push(ModifierConfig::Dim);
    }
    if f.italic {
        v.push(ModifierConfig::Italic);
    }
    if f.underline {
        v.push(ModifierConfig::Underlined);
    }
    if f.slow_blink {
        v.push(ModifierConfig::SlowBlink);
    }
    if f.rapid_blink {
        v.push(ModifierConfig::RapidBlink);
    }
    if f.reverse {
        v.push(ModifierConfig::Reversed);
    }
    if f.hidden {
        v.push(ModifierConfig::Hidden);
    }
    if f.strikethrough {
        v.push(ModifierConfig::CrossedOut);
    }
    proof {
        assert(v@ =~= spec_modifier_list(f));
    }
    v
}

/// The terminal style of a configured style: its colours and the modifiers
/// it adds (the modifiers it removes are not carried over).
pub fn style_config_to_term(s: &StyleConfig) -> (r: TermStyle)
    ensures
        r.fg == (match s.fg {
            Some(c) => Some(spec_config_to_term(c)),
            None => None,
        }),
        r.bg == (match s.bg {
            Some(c) => Some(spec_config_to_term(c)),
            None => None,
        }),
        r.add_modifier == spec_flags_of(s.add_modifier@),
{
    let fg = match s.fg {
        Some(c) => Some(color_config_to_term(c)),
        None => None,
    };
    let bg = match s.bg {
        Some(c) => Some(color_config_to_term(c)),
        None => None,
    };
    TermStyle { fg, bg, add_modifier: flags_of(&s.add_modifier) }
}

/// The configured form of a terminal style.
pub fn term_style_to_config(s: TermStyle) -> (r: StyleConfig)
    ensures
        r.fg == (match s.fg {
            Some(c) => Some(spec_term_to_config(c)),
            None => None,
        }),
        r.bg == (match s.bg {
            Some(c) => Some(spec_term_to_config(c)),
            None => None,
        }),
        r.add_modifier@ == spec_modifier_list(s.add_modifier),
        r.sub_modifier@.len() == 0,
{
    let fg = match s.fg {
        Some(c) => Some(term_to_color_config(c)),
        None => None,
    };
    let bg = match s.bg {
        Some(c) => Some(term_to_color_config(c)),
        None => None,
    };
    StyleConfig { fg, bg, add_modifier: modifier_list(s.add_modifier), sub_modifier: Vec::new() }
}

/// The RGBA style of a terminal style: unset colours are transparent.
pub fn term_style_to_rgba(s: TermStyle) -> (r: RgbaStyle)
    ensures
        r.fg == (match s.fg {
            Some(c) => spec_term_to_rgba(c),
            None => transparent(),
        }),
        r.bg == (match s.bg {
            Some(c) => spec_term_to_rgba(c),
            None => transparent(),
        }),
        r.mods == s.add_modifier,
{
    let fg = match s.fg {
        Some(c) => term_color_to_rgba(c),
        None => Rgba { r: 0, g: 0, b: 0, a: 0 },
    };
    let bg = match s.bg {
        Some(c) => term_color_to_rgba(c),
        None => Rgba { r: 0, g: 0, b: 0, a: 0 },
    };
    RgbaStyle { fg, bg, mods: s.add_modifier }
}

/// The terminal style of an RGBA style: transparent colours are left unset.
pub fn rgba_style_to_term(s: RgbaStyle) -> (r: TermStyle)
    ensures
        r.fg == (if s.fg.a > 0 {
            Some(TermColor::Rgb(s.fg.r, s.fg.g, s.fg.b))
        } else {
            None
        }),
        r.bg == (if s.bg.a > 0 {
            Some(TermColor::Rgb(s.bg.r, s.bg.g, s.bg.b))
        } else {
            None
        }),
        r.add_modifier == s.mods,
{
    let fg = if s.fg.a > 0 {
        Some(rgba_to_term_color(s.fg))
    } else {
        None
    };
    let bg = if s.bg.a > 0 {
        Some(rgba_to_term_color(s.bg))
    } else {
        None
    };
    TermStyle { fg, bg, add_modifier: s.mods }
}

/// Law: converting a configured colour to the terminal and back gives it back,
/// except that `LightGray` comes back as `Gray`.
pub proof fn lemma_color_config_round_trip(c: ColorConfig)
    ensures
        c != ColorConfig::LightGray ==> spec_term_to_config(spec_config_to_term(c)) == c,
        c == ColorConfig::LightGray ==> spec_term_to_config(spec_config_to_term(c)) == ColorConfig::Gray,
{
}

/// Law: terminal colours survive the trip to configured form and back.
pub proof fn lemma_term_color_round_trip(c: TermColor)
    ensures
        spec_config_to_term(spec_term_to_config(c)) == c,
{
}

/// The flags with one more modifier set.
pub open spec fn set_flag(f: ModifierFlags, m: ModifierConfig) -> ModifierFlags {
    match m {
        ModifierConfig::Bold => ModifierFlags { bold: true, ..f },
        ModifierConfig::Dim => ModifierFlags { dim: true, ..f },
        ModifierConfig::Italic => ModifierFlags { italic: true, ..f },
        ModifierConfig::Underlined => ModifierFlags { underline: true, ..f },
        ModifierConfig::SlowBlink => ModifierFlags { slow_blink: true, ..f },
        ModifierConfig::RapidBlink => ModifierFlags { rapid_blink: true, ..f },
        ModifierConfig::Reversed => ModifierFlags { reverse: true, ..f },
        ModifierConfig::Hidden => ModifierFlags { hidden: true, ..f },
        ModifierConfig::CrossedOut => ModifierFlags { strikethrough: true, ..f },
    }
}

proof fn lemma_flags_step(s: Seq<ModifierConfig>, cond: bool, m: ModifierConfig)
    ensures
        spec_flags_of(if cond { s.push(m) } else { s }) == (if cond {
            set_flag(spec_flags_of(s), m)
        } else {
            spec_flags_of(s)
        }),
{
    if cond {
        assert(s.push(m).drop_last() =~= s);
    }
}

/// Law: flags survive the trip to a modifier list and back.
pub proof fn lemma_flags_round_trip(f: ModifierFlags)
    ensures
        spec_flags_of(spec_modifier_list(f)) == f,
{
    let s0: Seq<ModifierConfig> = Seq::empty();
    let s1 = if f.bold { s0.push(ModifierConfig::Bold) } else { s0 };
    let s2 = if f.dim { s1.push(ModifierConfig::Dim) } else { s1 };
    let s3 = if f.italic { s2.push(ModifierConfig::Italic) } else { s2 };
    let s4 = if f.underline { s3.push(ModifierConfig::Underlined) } else { s3 };
    let s5 = if f.slow_blink { s4.push(ModifierConfig::SlowBlink) } else { s4 };
    let s6 = if f.rapid_blink { s5.push(ModifierConfig::RapidBlink) } else { s5 };
    let s7 = if f.reverse { s6.push(ModifierConfig::Reversed) } else { s6 };
    let s8 = if f.hidden { s7.push(ModifierConfig::Hidden) } else { s7 };
    let s9 = if f.strikethrough { s8.push(ModifierConfig::CrossedOut) } else { s8 };
    lemma_flags_step(s0, f.bold, ModifierConfig::Bold);
    lemma_flags_step(s1, f.dim, ModifierConfig::Dim);
    lemma_flags_step(s2, f.italic, ModifierConfig::Italic);
    lemma_flags_step(s3, f.underline, ModifierConfig::Underlined);
    lemma_flags_step(s4, f.slow_blink, ModifierConfig::SlowBlink);
    lemma_flags_step(s5, f.rapid_blink, ModifierConfig::RapidBlink);
    lemma_flags_step(s6, f.reverse, ModifierConfig::Reversed);
    lemma_flags_step(s7, f.hidden, ModifierConfig::Hidden);
    lemma_flags_step(s8, f.strikethrough, ModifierConfig::CrossedOut);
    assert(spec_modifier_list(f) == s9);
}

/// Law: an opaque colour survives the trip to the terminal and back to RGBA.
pub proof fn lemma_rgba_round_trip(c: Rgba)
    requires
        c.a == 255,
    ensures
        spec_term_to_rgba(TermColor::Rgb(c.r, c.g, c.b)) == c,
{
}

/// Law: every palette colour is opaque, and the cube and grey ramp follow their formulas.
pub proof fn lemma_palette_shape(index: u8)
    ensures
        spec_indexed_rgb(index).a == 255,
        232 <= index ==> spec_indexed_rgb(index).r == spec_indexed_rgb(index).g
            == spec_indexed_rgb(index).b == 8 + (index - 232) * 10,
        16 <= index <= 231 ==> spec_indexed_rgb(index).r == cube_level(((index - 16) / 36) % 6),
{
}

} // verus!
