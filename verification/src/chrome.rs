//! Border chrome helpers: trimming glyphs during slides, room for vertical
//! titles, vertical title placement, and centring content.

use vstd::prelude::*;
use vstd::string::StrSliceExecFns;
use vstd::string::StringExecFns;
use crate::geometry::Rect;
use crate::theme::{
    AppearanceConfig, ChromeConfig, PaddingConfig, TextConfig, TitleConfig, TitleAlignment, TitlePosition,
    opt_sv, same_text, spec_zero_padding,
};
use crate::types::{Animation, SlideBorderTrimPolicy};

verus! {

/// What a border cell shows while trimmed.
#[derive(Debug, Clone, Copy, PartialEq, Eq, Structural)]
pub enum BorderSegment {
    /// Its usual glyph.
    Keep,
    /// Nothing (a space).
    Blank,
    /// The horizontal line glyph.
    Horizontal,
    /// The vertical line glyph.
    Vertical,
}

/// A trim for each edge and corner of a border.
#[derive(Debug, Clone, Copy, PartialEq, Eq, Structural)]
pub struct BorderTrimSpec {
    pub top: BorderSegment,
    pub right: BorderSegment,
    pub bottom: BorderSegment,
    pub left: BorderSegment,
    pub top_left: BorderSegment,
    pub top_right: BorderSegment,
    pub bottom_left: BorderSegment,
    pub bottom_right: BorderSegment,
}

/// The glyphs of a border.
#[derive(Debug)]
pub struct GlyphSet {
    pub top_left: String,
    pub top_right: String,
    pub bottom_left: String,
    pub bottom_right: String,
    pub horizontal_top: String,
    pub horizontal_bottom: String,
    pub vertical_left: String,
    pub vertical_right: String,
}

/// An edge glyph under a trim: blank, or kept.
pub open spec fn spec_edge(seg: BorderSegment, keep: Seq<char>) -> Seq<char> {
    match seg {
        BorderSegment::Blank => " "@,
        _ => keep,
    }
}

/// A corner glyph under a trim: blank, a line glyph, or kept.
pub open spec fn spec_corner(seg: BorderSegment, horiz: Seq<char>, vert: Seq<char>, keep: Seq<char>) -> Seq<char> {
    match seg {
        BorderSegment::Blank => " "@,
        BorderSegment::Horizontal => horiz,
        BorderSegment::Vertical => vert,
        BorderSegment::Keep => keep,
    }
}

fn edge(seg: BorderSegment, keep: &String) -> (r: String)
    ensures
        r@ == spec_edge(seg, keep@),
{
    match seg {
        BorderSegment::Blank => String::from_str(" "),
        _ => keep.clone(),
    }
}

fn corner(seg: BorderSegment, horiz: &String, vert: &String, keep: &String) -> (r: String)
    ensures
        r@ == spec_corner(seg, horiz@, vert@, keep@),
{
    match seg {
        BorderSegment::Blank => String::from_str(" "),
        BorderSegment::Horizontal => horiz.clone(),
        BorderSegment::Vertical => vert.clone(),
        BorderSegment::Keep => keep.clone(),
    }
}

/// The glyphs of `base` with `spec` applied: a blank edge shows spaces; a
/// corner becomes a space, the adjoining horizontal or vertical line glyph,
/// or stays.
pub fn apply_trim_spec(base: &GlyphSet, spec: BorderTrimSpec) -> (r: GlyphSet)
    ensures
        r.horizontal_top@ == spec_edge(spec.top, base.horizontal_top@),
        r.horizontal_bottom@ == spec_edge(spec.bottom, base.horizontal_bottom@),
        r.vertical_left@ == spec_edge(spec.left, base.vertical_left@),
        r.vertical_right@ == spec_edge(spec.right, base.vertical_right@),
        r.top_left@ == spec_corner(spec.top_left, base.horizontal_top@, base.vertical_left@, base.top_left@),
        r.top_right@ == spec_corner(spec.top_right, base.horizontal_top@, base.vertical_right@, base.top_right@),
        r.bottom_left@ == spec_corner(
            spec.bottom_left,
            base.horizontal_bottom@,
            base.vertical_left@,
            base.bottom_left@,
        ),
        r.bottom_right@ == spec_corner(
            spec.bottom_right,
            base.horizontal_bottom@,
            base.vertical_right@,
            base.bottom_right@,
        ),
{
    GlyphSet {
        horizontal_top: edge(spec.top, &base.horizontal_top),
        horizontal_bottom: edge(spec.bottom, &base.horizontal_bottom),
        vertical_left: edge(spec.left, &base.vertical_left),
        vertical_right: edge(spec.right, &base.vertical_right),
        top_left: corner(spec.top_left, &base.horizontal_top, &base.vertical_left, &base.top_left),
        top_right: corner(spec.top_right, &base.horizontal_top, &base.vertical_right, &base.top_right),
        bottom_left: corner(spec.bottom_left, &base.horizontal_bottom, &base.vertical_left, &base.bottom_left),
        bottom_right: corner(spec.bottom_right, &base.horizontal_bottom, &base.vertical_right, &base.bottom_right),
    }
}

/// Whether a sliding item's border is trimmed at all: only for the
/// vanishing-edge policy, only for slides, and only while part of the item
/// is visible and part is not.
pub fn trim_applies(policy: SlideBorderTrimPolicy, animation: Animation, dwell_rect: Rect, visible_area: Rect) -> (r: bool)
    ensures
        r == (policy == SlideBorderTrimPolicy::VanishingEdge && animation == Animation::Slide
            && visible_area.width != 0 && visible_area.height != 0 && !(visible_area.width
            == dwell_rect.width && visible_area.height == dwell_rect.height)),
{
    match (policy, animation) {
        (SlideBorderTrimPolicy::VanishingEdge, Animation::Slide) => {
            !(visible_area.width == 0 || visible_area.height == 0 || (visible_area.width == dwell_rect.width
                && visible_area.height == dwell_rect.height))
        },
        _ => false,
    }
}

/// Padding with one more cell on the side that carries a vertical title.
pub fn adjust_padding_for_vertical_title(base: PaddingConfig, title: &Option<TitleConfig>) -> (r: PaddingConfig)
    ensures
        r == (match title {
            Some(t) => match t.position {
                TitlePosition::Left => PaddingConfig {
                    left: crate::geometry::sat_add(base.left as int, 1) as u16,
                    ..base
                },
                TitlePosition::Right => PaddingConfig {
                    right: crate::geometry::sat_add(base.right as int, 1) as u16,
                    ..base
                },
                _ => base,
            },
            None => base,
        }),
{
    match title {
        Some(t) => match t.position {
            TitlePosition::Left => PaddingConfig { left: base.left.saturating_add(1), ..base },
            TitlePosition::Right => PaddingConfig { right: base.right.saturating_add(1), ..base },
            _ => base,
        },
        None => base,
    }
}

/// Where a vertical title is drawn.
#[derive(Debug, Clone, Copy, PartialEq, Eq, Structural)]
pub struct VerticalTitle {
    /// The border column.
    pub x: u16,
    /// The row of the first character.
    pub start_y: u16,
    /// How many characters fit.
    pub count: u16,
}

/// The placement of a vertical title of `len` characters on `area`'s left
/// or right border: none when the area is under 3 rows or 2 columns, the
/// title is empty, or it is not vertical. It takes at most the rows between
/// the corners; alignment left/centre/right puts it at the top, middle or
/// bottom of them.
pub open spec fn spec_vertical_title(area: Rect, len: int, position: TitlePosition, alignment: TitleAlignment) -> Option<VerticalTitle> {
    if area.height < 3 || area.width < 2 || len == 0 {
        None
    } else {
        let avail = area.height - 2;
        let count = if len <= avail { len } else { avail };
        let x = match position {
            TitlePosition::Left => area.x as int,
            _ => area.x + area.width - 1,
        };
        let start = match alignment {
            TitleAlignment::Left => area.y + 1,
            TitleAlignment::Center => area.y + 1 + (avail - count) / 2,
            TitleAlignment::Right => area.y + 1 + (avail - count),
        };
        match position {
            TitlePosition::Left | TitlePosition::Right => Some(
                VerticalTitle { x: x as u16, start_y: start as u16, count: count as u16 },
            ),
            _ => None,
        }
    }
}

/// Places a vertical title of `len` characters.
pub fn vertical_title_layout(area: Rect, len: usize, position: TitlePosition, alignment: TitleAlignment) -> (r: Option<VerticalTitle>)
    requires
        area.x + area.width <= 0xFFFF,
        area.y + area.height <= 0xFFFF,
    ensures
        r == spec_vertical_title(area, len as int, position, alignment),
{
    if area.height < 3 || area.width < 2 || len == 0 {
        return None;
    }
    let avail: u16 = area.height - 2;
    let count: u16 = if len <= avail as usize {
        len as u16
    } else {
        avail
    };
    let x = match position {
        TitlePosition::Left => area.x,
        TitlePosition::Right => area.x + area.width - 1,
        _ => {
            return None;
        },
    };
    let start = match alignment {
        TitleAlignment::Left => area.y + 1,
        TitleAlignment::Center => area.y + 1 + (avail - count) / 2,
        TitleAlignment::Right => area.y + 1 + (avail - count),
    };
    Some(VerticalTitle { x, start_y: start, count })
}

/// Law: a vertical title sits on the border column of its side, within the
/// rows between the corners, and takes one row per character up to all those
/// rows. Left alignment starts it on the first row under the top border,
/// right alignment ends it on the last row above the bottom border, and
/// centre alignment leaves gaps above and below it that differ by at most one
/// row, the larger one below.
pub proof fn lemma_vertical_title_placement(area: Rect, len: int, position: TitlePosition, alignment: TitleAlignment)
    requires
        area.x + area.width <= 0xFFFF,
        area.y + area.height <= 0xFFFF,
        len >= 0,
    ensures
        spec_vertical_title(area, len, position, alignment) is Some <==> (area.height >= 3 && area.width >= 2 && len > 0
            && (position is Left || position is Right)),
        spec_vertical_title(area, len, position, alignment) matches Some(v) ==> {
            &&& v.count == (if len <= area.height - 2 { len } else { area.height - 2 })
            &&& v.x == (if position is Left { area.x as int } else { area.x + area.width - 1 })
            &&& area.y + 1 <= v.start_y
            &&& v.start_y + v.count <= area.y + area.height - 1
            &&& alignment is Left ==> v.start_y == area.y + 1
            &&& alignment is Right ==> v.start_y + v.count == area.y + area.height - 1
            &&& alignment is Center ==> {
                let above = v.start_y - (area.y + 1);
                let below = (area.y + area.height - 1) - (v.start_y + v.count);
                above <= below <= above + 1
            }
        },
{
}

/// The lines of a text, as `str::lines` splits it: at each `'\n'`, with a
/// `'\r'` before it dropped, and no empty line after a final `'\n'`.
pub open spec fn spec_lines(s: Seq<char>) -> Seq<Seq<char>>
    decreases s.len(),
{
    if s.len() == 0 {
        Seq::empty()
    } else {
        let i = first_newline(s, 0);
        if i == s.len() {
            seq![strip_cr(s)]
        } else {
            proof {
                lemma_first_newline_bound(s, 0);
            }
            seq![strip_cr(s.take(i))] + spec_lines(s.skip(i + 1))
        }
    }
}

/// The first line break at or after `from` lies within the text and is a `'\n'`.
pub proof fn lemma_first_newline_bound(s: Seq<char>, from: int)
    requires
        0 <= from,
    ensures
        from <= s.len() ==> from <= first_newline(s, from) <= s.len(),
        first_newline(s, from) < s.len() ==> s[first_newline(s, from)] == '\n',
    decreases s.len() - from,
{
    if from < s.len() && s[from] != '\n' {
        lemma_first_newline_bound(s, from + 1);
    }
}

/// Index of the first `'\n'` at or after `from`, or the length.
pub open spec fn first_newline(s: Seq<char>, from: int) -> int
    decreases s.len() - from,
{
    if from >= s.len() {
        s.len() as int
    } else if s[from] == '\n' {
        from
    } else {
        first_newline(s, from + 1)
    }
}

/// A line without its final `'\r'`, if any.
pub open spec fn strip_cr(l: Seq<char>) -> Seq<char> {
    if l.len() > 0 && l.last() == '\r' {
        l.drop_last()
    } else {
        l
    }
}

/// The widest of some lines, in characters.
pub open spec fn max_len(ls: Seq<Seq<char>>) -> int
    decreases ls.len(),
{
    if ls.len() == 0 {
        0
    } else {
        let m = max_len(ls.drop_last());
        if ls.last().len() > m {
            ls.last().len() as int
        } else {
            m
        }
    }
}

/// Padding that centres a message in `area` inside the base padding and a
/// one-cell border: half the spare columns go left and right, half the spare
/// rows top and bottom (rounded down), counted in whole lines and characters
/// (line count and width taken modulo 2^16, as a `u16` holds them).
pub open spec fn spec_centering(lines: int, width: int, area: Rect, base: PaddingConfig) -> PaddingConfig {
    let inner_w = crate::geometry::sat_sub(area.width as int, base.left + base.right + 2);
    let inner_h = crate::geometry::sat_sub(area.height as int, base.top + base.bottom + 2);
    let eh = crate::geometry::sat_sub(inner_w, width) / 2;
    let ev = crate::geometry::sat_sub(inner_h, lines) / 2;
    PaddingConfig {
        left: (base.left + eh) as u16,
        right: (base.right + eh) as u16,
        top: (base.top + ev) as u16,
        bottom: (base.bottom + ev) as u16,
    }
}

/// Line count and widest line of a message, as `str::lines` splits it.
pub fn line_stats(msg: &str) -> (r: (usize, usize))
    ensures
        r.0 == spec_lines(msg@).len(),
        r.1 == max_len(spec_lines(msg@)),
{
    let n = msg.unicode_len();
    let ghost s = msg@;
    let mut count: usize = 0;
    let mut widest: usize = 0;
    let mut start: usize = 0;
    let ghost mut done: Seq<Seq<char>> = Seq::empty();
    proof {
        assert(s.skip(0) =~= s);
    }
    while start < n
        invariant
            n == s.len(),
            s == msg@,
            start <= n,
            done + spec_lines(s.skip(start as int)) == spec_lines(s),
            count == done.len(),
            widest == max_len(done),
            count <= start,
            widest <= n,
        decreases n - start,
    {
        let ghost rest = s.skip(start as int);
        let mut j: usize = start;
        while j < n && msg.get_char(j) != '\n'
            invariant
                n == s.len(),
                s == msg@,
                start <= j <= n,
                rest == s.skip(start as int),
                first_newline(rest, (j - start) as int) == first_newline(rest, 0),
            decreases n - j,
        {
            proof {
                assert(rest[(j - start) as int] == s[j as int]);
            }
            j = j + 1;
        }
        proof {
            if j < n {
                assert(rest[(j - start) as int] == s[j as int]);
            }
            assert(first_newline(rest, (j - start) as int) == (j - start) as int);
        }
        let mut len: usize = j - start;
        if len > 0 && msg.get_char(j - 1) == '\r' {
            len = len - 1;
        }
        proof {
            let line = if j == n { rest } else { rest.take((j - start) as int) };
            assert(rest.len() > 0);
            if j == n {
                assert(rest.take((j - start) as int) =~= rest);
            }
            assert(rest.take((j - start) as int) =~= s.subrange(start as int, j as int));
            if j - start > 0 {
                assert(rest.take((j - start) as int).last() == s[j - 1]);
            }
            assert(strip_cr(rest.take((j - start) as int)).len() == len);
            let ls = spec_lines(rest);
            if j == n {
                assert(ls == seq![strip_cr(rest)]);
            } else {
                assert(rest.skip((j - start) as int + 1) =~= s.skip(j + 1));
            }
            let nd = done.push(strip_cr(rest.take((j - start) as int)));
            assert(nd.drop_last() =~= done);
            done = nd;
        }
        count = count + 1;
        if len > widest {
            widest = len;
        }
        if j < n {
            start = j + 1;
        } else {
            start = n;
            proof {
                assert(s.skip(n as int) =~= Seq::<char>::empty());
            }
        }
        proof {
            assert(done + spec_lines(s.skip(start as int)) =~= spec_lines(s));
        }
    }
    proof {
        assert(s.skip(n as int) =~= Seq::<char>::empty());
        assert(done + Seq::<Seq<char>>::empty() =~= done);
    }
    (count, widest)
}

/// Padding that centres `msg` within `area`.
pub fn calculate_centering_padding(msg: &str, area: Rect, base: PaddingConfig) -> (r: PaddingConfig)
    requires
        base.left + base.right + 2 <= 0xFFFF,
        base.top + base.bottom + 2 <= 0xFFFF,
        base.left + area.width / 2 <= 0xFFFF,
        base.right + area.width / 2 <= 0xFFFF,
        base.top + area.height / 2 <= 0xFFFF,
        base.bottom + area.height / 2 <= 0xFFFF,
    ensures
        r == spec_centering(
            (spec_lines(msg@).len() as u16) as int,
            (max_len(spec_lines(msg@)) as u16) as int,
            area,
            base,
        ),
{
    let (lines, widest) = line_stats(msg);
    let content_height: u16 = lines as u16;
    let content_width: u16 = widest as u16;
    let inner_w = area.width.saturating_sub(base.left + base.right + 2);
    let inner_h = area.height.saturating_sub(base.top + base.bottom + 2);
    let eh = inner_w.saturating_sub(content_width) / 2;
    let ev = inner_h.saturating_sub(content_height) / 2;
    PaddingConfig { left: base.left + eh, right: base.right + eh, top: base.top + ev, bottom: base.bottom + ev }
}

/// The chrome an appearance sets, if any.
pub open spec fn chrome_of(app: Option<&AppearanceConfig>) -> Option<ChromeConfig> {
    match app {
        Some(a) => a.chrome,
        None => None,
    }
}

/// The padding an appearance's chrome sets, zero when unset.
pub open spec fn padding_of(app: Option<&AppearanceConfig>) -> PaddingConfig {
    match chrome_of(app) {
        Some(c) => match c.padding {
            Some(p) => p,
            None => spec_zero_padding(),
        },
        None => spec_zero_padding(),
    }
}

/// `c` has the fields of `base` (an empty chrome when `None`), padding aside.
pub open spec fn chrome_but_padding(c: ChromeConfig, base: Option<ChromeConfig>) -> bool {
    match base {
        Some(b) => {
            &&& c.borders == b.borders
            &&& c.border_type == b.border_type
            &&& c.border_set == b.border_set
            &&& c.custom_border_set == b.custom_border_set
            &&& opt_sv(c.frame_style) == opt_sv(b.frame_style)
            &&& opt_sv(c.border_style) == opt_sv(b.border_style)
            &&& c.title == b.title
        },
        None => {
            &&& c.borders is None
            &&& c.border_type is None
            &&& c.border_set is None
            &&& c.custom_border_set is None
            &&& c.frame_style is None
            &&& c.border_style is None
            &&& c.title is None
        },
    }
}

/// The appearance of an item whose content is centred: its appearance (or an
/// empty one) with the chrome's padding replaced by the padding that centres
/// `msg` in `area`, counted from the chrome's own padding.
pub fn centered_appearance(app: Option<&AppearanceConfig>, msg: &str, area: Rect) -> (r: AppearanceConfig)
    requires
        padding_of(app).left + padding_of(app).right + 2 <= 0xFFFF,
        padding_of(app).top + padding_of(app).bottom + 2 <= 0xFFFF,
        padding_of(app).left + area.width / 2 <= 0xFFFF,
        padding_of(app).right + area.width / 2 <= 0xFFFF,
        padding_of(app).top + area.height / 2 <= 0xFFFF,
        padding_of(app).bottom + area.height / 2 <= 0xFFFF,
    ensures
        r.fade == (match app {
            Some(a) => a.fade,
            None => None,
        }),
        same_text(
            r.text,
            match app {
                Some(a) => a.text,
                None => None,
            },
        ),
        r.chrome matches Some(c) && c.padding == Some(
            spec_centering(
                (spec_lines(msg@).len() as u16) as int,
                (max_len(spec_lines(msg@)) as u16) as int,
                area,
                padding_of(app),
            ),
        ) && chrome_but_padding(c, chrome_of(app)),
{
    let (mut chrome, text, fade) = match app {
        Some(a) => {
            let c = match &a.chrome {
                Some(c) => c.copy(),
                None => ChromeConfig::empty(),
            };
            let t = match &a.text {
                Some(t) => Some(TextConfig { style: crate::theme::copy_style_opt(&t.style) }),
                None => None,
            };
            (c, t, a.fade)
        },
        None => (ChromeConfig::empty(), None, None),
    };
    let base = match chrome.padding {
        Some(p) => p,
        None => PaddingConfig::zero(),
    };
    chrome.padding = Some(calculate_centering_padding(msg, area, base));
    AppearanceConfig { chrome: Some(chrome), text, fade }
}

} // verus!
