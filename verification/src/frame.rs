//! Frame content: which glyph lands on which border cell.
//!
//! Each corner takes the first character of its string, the top and bottom
//! edges repeat their pattern between the corners, and the side edges put the
//! first character of their string on every row between the corners. Writes are listed in drawing order, so a
//! later write to the same cell wins, as on the buffer.

use vstd::prelude::*;
use crate::geometry::Rect;
use crate::theme::FrameContent;

verus! {

/// The write of the first character of `s` at column `x` on row `y`, unless
/// `s` is empty or the column is at or past `limit`.
pub open spec fn glyph_writes(x: int, y: int, s: Seq<char>, limit: int) -> Seq<(u16, u16, char)> {
    if s.len() > 0 && x < limit {
        seq![(x as u16, y as u16, s[0])]
    } else {
        Seq::empty()
    }
}

/// The writes of `p` repeated over columns `start..end` of row `y`.
pub open spec fn pattern_writes(start: int, end: int, y: int, p: Seq<char>) -> Seq<(u16, u16, char)> {
    if p.len() == 0 || start >= end {
        Seq::empty()
    } else {
        Seq::new((end - start) as nat, |i: int| ((start + i) as u16, y as u16, p[i % (p.len() as int)]))
    }
}

/// The writes of the first character of `s` at column `x` on every row of
/// `lo..hi`, top to bottom.
pub open spec fn column_writes(x: int, lo: int, hi: int, s: Seq<char>, limit: int) -> Seq<(u16, u16, char)>
    decreases hi - lo,
{
    if hi <= lo {
        Seq::empty()
    } else {
        column_writes(x, lo, hi - 1, s, limit) + glyph_writes(x, hi - 1, s, limit)
    }
}

/// All writes of a frame drawn on `area`, with columns cut at `limit`.
pub open spec fn frame_writes(f: &FrameContent, area: Rect, limit: int) -> Seq<(u16, u16, char)> {
    if area.width < 2 || area.height < 2 {
        Seq::empty()
    } else {
        let top = area.y as int;
        let bottom = area.y + area.height - 1;
        let left = area.x as int;
        let right = area.x + area.width - 1;
        glyph_writes(left, top, f.top_left@, limit) + glyph_writes(right, top, f.top_right@, limit)
            + glyph_writes(left, bottom, f.bottom_left@, limit) + glyph_writes(
            right,
            bottom,
            f.bottom_right@,
            limit,
        ) + pattern_writes(left + 1, right, top, f.top@) + pattern_writes(left + 1, right, bottom, f.bottom@)
            + column_writes(left, top + 1, bottom, f.left@, limit) + column_writes(
            right,
            top + 1,
            bottom,
            f.right@,
            limit,
        )
    }
}

fn push_glyph(out: &mut Vec<(u16, u16, char)>, x: u16, y: u16, s: &str, limit: u16)
    ensures
        final(out)@ == old(out)@ + glyph_writes(x as int, y as int, s@, limit as int),
{
    if s.unicode_len() > 0 && x < limit {
        let c = s.get_char(0);
        out.push((x, y, c));
        proof {
            assert(out@ =~= old(out)@ + glyph_writes(x as int, y as int, s@, limit as int));
        }
    } else {
        proof {
            assert(out@ =~= old(out)@ + glyph_writes(x as int, y as int, s@, limit as int));
        }
    }
}

fn push_pattern(out: &mut Vec<(u16, u16, char)>, start: u16, end: u16, y: u16, p: &str)
    ensures
        final(out)@ == old(out)@ + pattern_writes(start as int, end as int, y as int, p@),
{
    let n = p.unicode_len();
    if n == 0 || start >= end {
        proof {
            assert(out@ =~= old(out)@ + pattern_writes(start as int, end as int, y as int, p@));
        }
        return;
    }
    let ghost base = out@;
    let mut col: u16 = start;
    let mut idx: usize = 0;
    while col < end
        invariant
            n == p@.len(),
            n > 0,
            start <= col <= end,
            idx == col - start,
            out@ == base + Seq::new(
                (col - start) as nat,
                |k: int| ((start + k) as u16, y as u16, p@[k % (n as int)]),
            ),
        decreases end - col,
    {
        let c = p.get_char(idx % n);
        out.push((col, y, c));
        col = col + 1;
        idx = idx + 1;
        proof {
            assert(out@ =~= base + Seq::new(
                (col - start) as nat,
                |k: int| ((start + k) as u16, y as u16, p@[k % (n as int)]),
            ));
        }
    }
    proof {
        assert(out@ =~= base + pattern_writes(start as int, end as int, y as int, p@));
    }
}

fn push_column(out: &mut Vec<(u16, u16, char)>, x: u16, lo: u16, hi: u16, s: &str, limit: u16)
    ensures
        final(out)@ == old(out)@ + column_writes(x as int, lo as int, hi as int, s@, limit as int),
{
    let ghost base = out@;
    let mut row: u16 = lo;
    proof {
        assert(base =~= base + column_writes(x as int, lo as int, lo as int, s@, limit as int));
    }
    while row < hi
        invariant
            lo <= row,
            lo <= hi ==> row <= hi,
            hi < lo ==> row == lo,
            out@ == base + column_writes(x as int, lo as int, row as int, s@, limit as int),
        decreases hi - row,
    {
        push_glyph(out, x, row, s, limit);
        row = row + 1;
        proof {
            assert(out@ =~= base + column_writes(x as int, lo as int, row as int, s@, limit as int));
        }
    }
    proof {
        if hi < lo {
            assert(column_writes(x as int, lo as int, hi as int, s@, limit as int) =~= Seq::empty());
            assert(column_writes(x as int, lo as int, lo as int, s@, limit as int) =~= Seq::empty());
        }
    }
}

impl FrameContent {
    /// The cells this frame writes when drawn on `area` of a buffer covering
    /// `buffer_area`, in drawing order. An area under 2x2 gets no frame.
    /// A corner or side cell takes the first character of its string (none
    /// when the string is empty), so the frame stays on the border ring; a
    /// cell at or past the buffer's right edge is skipped.
    pub fn frame_cells(&self, area: Rect, buffer_area: Rect) -> (r: Vec<(u16, u16, char)>)
        requires
            area.x + area.width <= 0x10000,
            area.y + area.height <= 0x10000,
            buffer_area.x + buffer_area.width <= 0xFFFF,
        ensures
            r@ == frame_writes(self, area, buffer_area.x + buffer_area.width),
    {
        let mut out: Vec<(u16, u16, char)> = Vec::new();
        if area.width < 2 || area.height < 2 {
            proof {
                assert(out@ =~= frame_writes(self, area, buffer_area.x + buffer_area.width));
            }
            return out;
        }
        let limit: u16 = buffer_area.x + buffer_area.width;
        let top: u16 = area.y;
        let bottom: u16 = area.y + (area.height - 1);
        let left: u16 = area.x;
        let right: u16 = area.x + (area.width - 1);
        push_glyph(&mut out, left, top, self.top_left.as_str(), limit);
        push_glyph(&mut out, right, top, self.top_right.as_str(), limit);
        push_glyph(&mut out, left, bottom, self.bottom_left.as_str(), limit);
        push_glyph(&mut out, right, bottom, self.bottom_right.as_str(), limit);
        push_pattern(&mut out, left + 1, right, top, self.top.as_str());
        push_pattern(&mut out, left + 1, right, bottom, self.bottom.as_str());
        push_column(&mut out, left, top + 1, bottom, self.left.as_str(), limit);
        push_column(&mut out, right, top + 1, bottom, self.right.as_str(), limit);
        proof {
            assert(out@ =~= frame_writes(self, area, buffer_area.x + buffer_area.width));
        }
        out
    }
}

} // verus!
