//! Cell-grid geometry: rectangles, screen anchors and dwell placement.
//!
//! The anchoring formulas follow the geometry crate of the effect framework:
//! a rectangle is placed against one of nine screen anchors, vertically
//! centred anchors use a "visual centre" at 45% of the frame height.

use vstd::prelude::*;

verus! {

/// Largest value of a `u16` coordinate.
pub open spec fn u16_max() -> int {
    65535
}

/// `a + b` saturated at the `u16` range.
pub open spec fn sat_add(a: int, b: int) -> int {
    if a + b > u16_max() {
        u16_max()
    } else {
        a + b
    }
}

/// `a - b` saturated at zero.
pub open spec fn sat_sub(a: int, b: int) -> int {
    if a >= b {
        a - b
    } else {
        0
    }
}

/// Division that truncates toward zero, as Rust's integer `/` does.
pub open spec fn trunc_div(a: int, d: int) -> int
    recommends
        d > 0,
{
    if a >= 0 {
        a / d
    } else {
        -((-a) / d)
    }
}

/// Screen-relative anchor for placing a rectangle within a frame.
#[derive(Debug, Clone, Copy, PartialEq, Eq, Hash, Structural)]
pub enum Anchor {
    TopLeft,
    TopCenter,
    TopRight,
    MiddleLeft,
    Center,
    MiddleRight,
    BottomLeft,
    BottomCenter,
    BottomRight,
    /// Absolute screen coordinates (x, y).
    Absolute(u16, u16),
}

impl Anchor {
    pub open spec fn is_left(self) -> bool {
        self is TopLeft || self is MiddleLeft || self is BottomLeft
    }

    pub open spec fn is_right(self) -> bool {
        self is TopRight || self is MiddleRight || self is BottomRight
    }

    pub open spec fn is_top(self) -> bool {
        self is TopLeft || self is TopCenter || self is TopRight
    }

    pub open spec fn is_bottom(self) -> bool {
        self is BottomLeft || self is BottomCenter || self is BottomRight
    }

    /// Whether the anchor sits on the bottom edge (stacks grow upward).
    pub fn stacks_up(&self) -> (r: bool)
        ensures
            r == self.is_bottom(),
    {
        match self {
            Anchor::BottomLeft | Anchor::BottomCenter | Anchor::BottomRight => true,
            _ => false,
        }
    }

    /// Whether the anchor sits on the right edge (stacks grow leftward).
    pub fn stacks_left(&self) -> (r: bool)
        ensures
            r == self.is_right(),
    {
        match self {
            Anchor::TopRight | Anchor::MiddleRight | Anchor::BottomRight => true,
            _ => false,
        }
    }
}

/// An unsigned cell rectangle.
#[derive(Debug, Clone, Copy, PartialEq, Eq, Structural)]
pub struct Rect {
    pub x: u16,
    pub y: u16,
    pub width: u16,
    pub height: u16,
}

/// A point on the cell grid.
#[derive(Debug, Clone, Copy, PartialEq, Eq, Structural)]
pub struct Point {
    pub x: u16,
    pub y: u16,
}

/// A rectangle whose origin may lie off screen.
#[derive(Debug, Clone, Copy, PartialEq, Eq, Structural)]
pub struct SignedRect {
    pub x: i32,
    pub y: i32,
    pub width: u16,
    pub height: u16,
}

impl Rect {
    pub open spec fn spec_right(self) -> int {
        sat_add(self.x as int, self.width as int)
    }

    pub open spec fn spec_bottom(self) -> int {
        sat_add(self.y as int, self.height as int)
    }

    /// Overlap of two rectangles, empty sides saturating at zero.
    pub open spec fn spec_intersection(self, other: Rect) -> Rect {
        let x1 = if self.x >= other.x { self.x } else { other.x };
        let y1 = if self.y >= other.y { self.y } else { other.y };
        let x2 = if self.spec_right() <= other.spec_right() { self.spec_right() } else { other.spec_right() };
        let y2 = if self.spec_bottom() <= other.spec_bottom() { self.spec_bottom() } else { other.spec_bottom() };
        Rect { x: x1, y: y1, width: sat_sub(x2, x1 as int) as u16, height: sat_sub(y2, y1 as int) as u16 }
    }

    pub fn new(x: u16, y: u16, width: u16, height: u16) -> (r: Rect)
        ensures
            r == (Rect { x, y, width, height }),
    {
        Rect { x, y, width, height }
    }

    /// Right edge (exclusive), saturating.
    pub fn right(&self) -> (r: u16)
        ensures
            r == self.spec_right(),
    {
        self.x.saturating_add(self.width)
    }

    /// Bottom edge (exclusive), saturating.
    pub fn bottom(&self) -> (r: u16)
        ensures
            r == self.spec_bottom(),
    {
        self.y.saturating_add(self.height)
    }

    /// The overlap of two rectangles; a non-overlapping pair gives a rectangle of zero area.
    pub fn intersection(&self, other: &Rect) -> (r: Rect)
        ensures
            r == self.spec_intersection(*other),
    {
        let x1 = if self.x >= other.x { self.x } else { other.x };
        let y1 = if self.y >= other.y { self.y } else { other.y };
        let sr = self.right();
        let or = other.right();
        let sb = self.bottom();
        let ob = other.bottom();
        let x2 = if sr <= or { sr } else { or };
        let y2 = if sb <= ob { sb } else { ob };
        Rect { x: x1, y: y1, width: x2.saturating_sub(x1), height: y2.saturating_sub(y1) }
    }

    /// The overlap of two rectangles, or `None` when it has no area.
    pub fn intersect(&self, other: &Rect) -> (r: Option<Rect>)
        ensures
            r == (if self.spec_intersection(*other).width > 0
                && self.spec_intersection(*other).height > 0 {
                Some(self.spec_intersection(*other))
            } else {
                None
            }),
    {
        let i = self.intersection(other);
        if i.width > 0 && i.height > 0 {
            Some(i)
        } else {
            None
        }
    }
}

impl SignedRect {
    pub fn new(x: i32, y: i32, width: u16, height: u16) -> (r: SignedRect)
        ensures
            r == (SignedRect { x, y, width, height }),
    {
        SignedRect { x, y, width, height }
    }

    pub open spec fn clamp_coord(v: int) -> int {
        if v < 0 {
            0
        } else if v > u16_max() {
            u16_max()
        } else {
            v
        }
    }

    pub open spec fn spec_clamped(self) -> Rect {
        Rect {
            x: Self::clamp_coord(self.x as int) as u16,
            y: Self::clamp_coord(self.y as int) as u16,
            width: self.width,
            height: self.height,
        }
    }

    /// Converts to an unsigned rectangle by clamping the origin into the `u16` range.
    pub fn to_clamped(&self) -> (r: Rect)
        ensures
            r == self.spec_clamped(),
    {
        let x: u16 = if self.x < 0 {
            0
        } else if self.x > 65535 {
            65535
        } else {
            self.x as u16
        };
        let y: u16 = if self.y < 0 {
            0
        } else if self.y > 65535 {
            65535
        } else {
            self.y as u16
        };
        Rect { x, y, width: self.width, height: self.height }
    }
}

/// The y coordinate of the visual centre line of a frame: 45% down from its top.
pub open spec fn visual_center_y(frame: Rect) -> int {
    frame.y + (frame.height * 45) / 100
}

/// Where a rectangle of the given size lands when placed against `anchor` in `frame`.
pub open spec fn spec_anchored_rect(anchor: Anchor, frame: Rect, width: u16, height: u16) -> SignedRect {
    match anchor {
        Anchor::Absolute(ax, ay) => SignedRect { x: ax as i32, y: ay as i32, width, height },
        _ => {
            let x = if anchor.is_left() {
                frame.x as int
            } else if anchor.is_right() {
                frame.spec_right() - width
            } else {
                frame.x + trunc_div(frame.width - width, 2)
            };
            let y = if anchor.is_top() {
                frame.y as int
            } else if anchor.is_bottom() {
                frame.spec_bottom() - height
            } else {
                visual_center_y(frame) - height / 2
            };
            SignedRect { x: x as i32, y: y as i32, width, height }
        },
    }
}

/// Places a rectangle of the given size against `anchor` inside `frame`.
pub fn anchored_rect(anchor: Anchor, frame: Rect, width: u16, height: u16) -> (r: SignedRect)
    ensures
        r == spec_anchored_rect(anchor, frame, width, height),
{
    if let Anchor::Absolute(ax, ay) = anchor {
        return SignedRect { x: ax as i32, y: ay as i32, width, height };
    }
    let fx = frame.x as i32;
    let fy = frame.y as i32;
    let fr = frame.right() as i32;
    let fb = frame.bottom() as i32;
    let vcy = fy + (frame.height as i32 * 45) / 100;
    let d = frame.width as i32 - width as i32;
    let half: i32 = if d >= 0 {
        d / 2
    } else {
        -((-d) / 2)
    };
    let x = match anchor {
        Anchor::TopLeft | Anchor::MiddleLeft | Anchor::BottomLeft => fx,
        Anchor::TopRight | Anchor::MiddleRight | Anchor::BottomRight => fr - width as i32,
        _ => fx + half,
    };
    let y = match anchor {
        Anchor::TopLeft | Anchor::TopCenter | Anchor::TopRight => fy,
        Anchor::BottomLeft | Anchor::BottomCenter | Anchor::BottomRight => fb - height as i32,
        _ => vcy - (height as i32) / 2,
    };
    SignedRect { x, y, width, height }
}

/// The frame is small enough for the anchor-point arithmetic to stay within `u16`.
pub open spec fn anchor_point_fits(frame: Rect) -> bool {
    &&& frame.height * 45 <= u16_max()
    &&& visual_center_y(frame) <= u16_max()
    &&& frame.x + frame.width / 2 <= u16_max()
}

/// Whether anchor points can be computed on `frame`: its height, scaled for
/// the visual centre, and its horizontal centre stay within 16 bits.
pub fn frame_fits_anchors(frame: Rect) -> (r: bool)
    ensures
        r == anchor_point_fits(frame),
{
    let h: u32 = frame.height as u32;
    h * 45 <= 0xFFFF && (frame.y as u32) + (h * 45) / 100 <= 0xFFFF && (frame.x as u32) + (frame.width as u32)
        / 2 <= 0xFFFF
}

/// The anchor point of a frame: the cell at which stacks for `anchor` start.
pub open spec fn spec_anchor_position(anchor: Anchor, frame: Rect) -> Point {
    let cx = frame.x + frame.width / 2;
    let rx = sat_sub(frame.spec_right(), 1);
    let by = sat_sub(frame.spec_bottom(), 1);
    let vy = visual_center_y(frame);
    match anchor {
        Anchor::TopLeft => Point { x: frame.x, y: frame.y },
        Anchor::TopCenter => Point { x: cx as u16, y: frame.y },
        Anchor::TopRight => Point { x: rx as u16, y: frame.y },
        Anchor::MiddleLeft => Point { x: frame.x, y: vy as u16 },
        Anchor::Center => Point { x: cx as u16, y: vy as u16 },
        Anchor::MiddleRight => Point { x: rx as u16, y: vy as u16 },
        Anchor::BottomLeft => Point { x: frame.x, y: by as u16 },
        Anchor::BottomCenter => Point { x: cx as u16, y: by as u16 },
        Anchor::BottomRight => Point { x: rx as u16, y: by as u16 },
        Anchor::Absolute(ax, ay) => Point { x: ax, y: ay },
    }
}

/// Computes the anchor point of `frame` for `anchor`.
pub fn anchor_position(anchor: Anchor, frame: Rect) -> (p: Point)
    requires
        anchor_point_fits(frame),
    ensures
        p == spec_anchor_position(anchor, frame),
{
    let vy = frame.y + (frame.height * 45 / 100);
    let cx = frame.x + frame.width / 2;
    let rx = frame.right().saturating_sub(1);
    let by = frame.bottom().saturating_sub(1);
    match anchor {
        Anchor::TopLeft => Point { x: frame.x, y: frame.y },
        Anchor::TopCenter => Point { x: cx, y: frame.y },
        Anchor::TopRight => Point { x: rx, y: frame.y },
        Anchor::MiddleLeft => Point { x: frame.x, y: vy },
        Anchor::Center => Point { x: cx, y: vy },
        Anchor::MiddleRight => Point { x: rx, y: vy },
        Anchor::BottomLeft => Point { x: frame.x, y: by },
        Anchor::BottomCenter => Point { x: cx, y: by },
        Anchor::BottomRight => Point { x: rx, y: by },
        Anchor::Absolute(ax, ay) => Point { x: ax, y: ay },
    }
}

/// Offset, in cells, by which the exterior margin pushes an anchored rectangle inward.
pub open spec fn margin_delta(anchor: Anchor, margin: u16) -> (int, int) {
    let m = margin as int;
    match anchor {
        Anchor::TopLeft => (m, m),
        Anchor::TopCenter => (0, m),
        Anchor::TopRight => (-m, m),
        Anchor::MiddleLeft => (m, 0),
        Anchor::Center => (0, 0),
        Anchor::MiddleRight => (-m, 0),
        Anchor::BottomLeft => (m, -m),
        Anchor::BottomCenter => (0, -m),
        Anchor::BottomRight => (-m, -m),
        Anchor::Absolute(_, _) => (0, 0),
    }
}

/// Coordinates far enough from the `i32` limits that a `u16` shift cannot overflow.
pub open spec fn coord_has_room(v: int) -> bool {
    i32::MIN + u16_max() <= v <= i32::MAX - u16_max()
}

/// Moves a rectangle inward from its anchor edge by `margin` cells.
pub fn apply_exterior_margin(anchor: Anchor, rect: SignedRect, margin: u16) -> (r: SignedRect)
    requires
        coord_has_room(rect.x as int),
        coord_has_room(rect.y as int),
    ensures
        r.x == rect.x + margin_delta(anchor, margin).0,
        r.y == rect.y + margin_delta(anchor, margin).1,
        r.width == rect.width,
        r.height == rect.height,
{
    let m = margin as i32;
    let (dx, dy): (i32, i32) = match anchor {
        Anchor::TopLeft => (m, m),
        Anchor::TopCenter => (0, m),
        Anchor::TopRight => (-m, m),
        Anchor::MiddleLeft => (m, 0),
        Anchor::Center => (0, 0),
        Anchor::MiddleRight => (-m, 0),
        Anchor::BottomLeft => (m, -m),
        Anchor::BottomCenter => (0, -m),
        Anchor::BottomRight => (-m, -m),
        Anchor::Absolute(_, _) => (0, 0),
    };
    SignedRect { x: rect.x + dx, y: rect.y + dy, width: rect.width, height: rect.height }
}

/// Horizontal offset sign: right anchors move left for a positive offset.
pub open spec fn h_offset_sign(anchor: Anchor) -> int {
    if anchor.is_right() {
        -1
    } else {
        1
    }
}

/// Vertical offset sign: bottom anchors move up for a positive offset.
pub open spec fn v_offset_sign(anchor: Anchor) -> int {
    if anchor.is_bottom() {
        -1
    } else {
        1
    }
}

/// `v` held in `i32`, saturating at its bounds. A coordinate this far out
/// lies off every frame, whose coordinates are 16-bit.
pub open spec fn sat_i32(v: int) -> i32 {
    if v < i32::MIN {
        i32::MIN
    } else if v > i32::MAX {
        i32::MAX
    } else {
        v as i32
    }
}

fn to_i32_saturating(v: i64) -> (r: i32)
    ensures
        r == sat_i32(v as int),
{
    if v < i32::MIN as i64 {
        i32::MIN
    } else if v > i32::MAX as i64 {
        i32::MAX
    } else {
        v as i32
    }
}

/// Where an item lands for `anchor`, before its exterior margin.
///
/// `off_h_percent_cells` / `off_v_percent_cells` are the percentage offsets
/// already converted to whole cells of the frame.
pub open spec fn spec_resolve_anchor(
    anchor: Anchor,
    off_h_percent_cells: i32,
    off_v_percent_cells: i32,
    offset_h_cells: i16,
    offset_v_cells: i16,
    frame: Rect,
    width: u16,
    height: u16,
) -> SignedRect {
    match anchor {
        Anchor::Absolute(ax, ay) => SignedRect {
            x: (ax + offset_h_cells) as i32,
            y: (ay + offset_v_cells) as i32,
            width,
            height,
        },
        _ => {
            let base = spec_anchored_rect(anchor, frame, width, height);
            let th = off_h_percent_cells + offset_h_cells;
            let tv = off_v_percent_cells + offset_v_cells;
            SignedRect {
                x: sat_i32(base.x + h_offset_sign(anchor) * th),
                y: sat_i32(base.y + v_offset_sign(anchor) * tv),
                width,
                height,
            }
        },
    }
}

/// Resolves an anchor and its offsets to a concrete (possibly off-screen)
/// rectangle; a coordinate beyond `i32` saturates, off every frame.
pub fn resolve_anchor(
    anchor: Anchor,
    off_h_percent_cells: i32,
    off_v_percent_cells: i32,
    offset_h_cells: i16,
    offset_v_cells: i16,
    frame: Rect,
    width: u16,
    height: u16,
) -> (r: SignedRect)
    ensures
        r == spec_resolve_anchor(
            anchor,
            off_h_percent_cells,
            off_v_percent_cells,
            offset_h_cells,
            offset_v_cells,
            frame,
            width,
            height,
        ),
{
    if let Anchor::Absolute(ax, ay) = anchor {
        return SignedRect {
            x: ax as i32 + offset_h_cells as i32,
            y: ay as i32 + offset_v_cells as i32,
            width,
            height,
        };
    }
    let base = anchored_rect(anchor, frame, width, height);
    let th: i64 = off_h_percent_cells as i64 + offset_h_cells as i64;
    let tv: i64 = off_v_percent_cells as i64 + offset_v_cells as i64;
    let x: i64 = if anchor.stacks_left() {
        base.x as i64 - th
    } else {
        base.x as i64 + th
    };
    let y: i64 = if anchor.stacks_up() {
        base.y as i64 - tv
    } else {
        base.y as i64 + tv
    };
    SignedRect { x: to_i32_saturating(x), y: to_i32_saturating(y), width, height }
}

/// The dwell rectangle: the anchored placement pushed inward by the exterior margin.
pub open spec fn spec_dwell_rect(
    anchor: Anchor,
    off_h_percent_cells: i32,
    off_v_percent_cells: i32,
    offset_h_cells: i16,
    offset_v_cells: i16,
    frame: Rect,
    width: u16,
    height: u16,
    margin: u16,
) -> SignedRect {
    let base = spec_resolve_anchor(
        anchor,
        off_h_percent_cells,
        off_v_percent_cells,
        offset_h_cells,
        offset_v_cells,
        frame,
        width,
        height,
    );
    SignedRect {
        x: sat_i32(base.x + margin_delta(anchor, margin).0),
        y: sat_i32(base.y + margin_delta(anchor, margin).1),
        width,
        height,
    }
}

fn margin_shift(anchor: Anchor, margin: u16) -> (r: (i64, i64))
    ensures
        r.0 == margin_delta(anchor, margin).0,
        r.1 == margin_delta(anchor, margin).1,
{
    let m = margin as i64;
    match anchor {
        Anchor::TopLeft => (m, m),
        Anchor::TopCenter => (0, m),
        Anchor::TopRight => (-m, m),
        Anchor::MiddleLeft => (m, 0),
        Anchor::Center => (0, 0),
        Anchor::MiddleRight => (-m, 0),
        Anchor::BottomLeft => (m, -m),
        Anchor::BottomCenter => (0, -m),
        Anchor::BottomRight => (-m, -m),
        Anchor::Absolute(_, _) => (0, 0),
    }
}

/// Computes where an item dwells: anchor placement, offsets, then exterior
/// margin; a coordinate beyond `i32` saturates, off every frame.
pub fn compute_dwell_rect(
    anchor: Anchor,
    off_h_percent_cells: i32,
    off_v_percent_cells: i32,
    offset_h_cells: i16,
    offset_v_cells: i16,
    frame: Rect,
    width: u16,
    height: u16,
    margin: u16,
) -> (r: SignedRect)
    ensures
        r == spec_dwell_rect(
            anchor,
            off_h_percent_cells,
            off_v_percent_cells,
            offset_h_cells,
            offset_v_cells,
            frame,
            width,
            height,
            margin,
        ),
{
    let base = resolve_anchor(
        anchor,
        off_h_percent_cells,
        off_v_percent_cells,
        offset_h_cells,
        offset_v_cells,
        frame,
        width,
        height,
    );
    let (dx, dy) = margin_shift(anchor, margin);
    SignedRect {
        x: to_i32_saturating(base.x as i64 + dx),
        y: to_i32_saturating(base.y as i64 + dy),
        width,
        height,
    }
}

/// Law: the exterior margin moves the dwell rectangle by exactly the anchor's
/// margin delta and never changes its size; a zero margin changes nothing.
/// It holds wherever the shifted position stays within `i32`.
pub proof fn lemma_margin_shifts_dwell(
    anchor: Anchor,
    off_h_percent_cells: i32,
    off_v_percent_cells: i32,
    offset_h_cells: i16,
    offset_v_cells: i16,
    frame: Rect,
    width: u16,
    height: u16,
    margin: u16,
)
    requires
        ({
            let b = spec_resolve_anchor(anchor, off_h_percent_cells, off_v_percent_cells,
                offset_h_cells, offset_v_cells, frame, width, height);
            &&& i32::MIN <= b.x + margin_delta(anchor, margin).0 <= i32::MAX
            &&& i32::MIN <= b.y + margin_delta(anchor, margin).1 <= i32::MAX
        }),
    ensures
        ({
            let with = spec_dwell_rect(anchor, off_h_percent_cells, off_v_percent_cells,
                offset_h_cells, offset_v_cells, frame, width, height, margin);
            let without = spec_dwell_rect(anchor, off_h_percent_cells, off_v_percent_cells,
                offset_h_cells, offset_v_cells, frame, width, height, 0);
            &&& with.x - without.x == margin_delta(anchor, margin).0
            &&& with.y - without.y == margin_delta(anchor, margin).1
            &&& with.width == without.width == width
            &&& with.height == without.height == height
        }),
{
}

} // verus!
