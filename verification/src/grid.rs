//! Cell grids: a row-major snapshot of cells, and the translation of grid
//! coordinates onto an offset buffer area.

use vstd::prelude::*;
use crate::geometry::{Rect, sat_add};

verus! {

/// A grid of `width` x `height` cells stored row by row.
pub struct CellGrid<C> {
    pub cells: Vec<C>,
    pub width: usize,
    pub height: usize,
}

/// Position of cell (x, y) in row-major order.
pub open spec fn cell_index(width: int, x: int, y: int) -> int {
    y * width + x
}

proof fn lemma_index_in_bounds(width: int, height: int, x: int, y: int)
    requires
        0 <= x < width,
        0 <= y < height,
    ensures
        0 <= cell_index(width, x, y) < width * height,
{
    assert(y * width + x < width * height) by (nonlinear_arith)
        requires
            0 <= x < width,
            0 <= y < height,
    ;
    assert(0 <= y * width) by (nonlinear_arith)
        requires
            0 <= y,
            0 <= width,
    ;
}

proof fn lemma_index_injective(width: int, x1: int, y1: int, x2: int, y2: int)
    requires
        0 <= x1 < width,
        0 <= x2 < width,
        0 <= y1,
        0 <= y2,
        cell_index(width, x1, y1) == cell_index(width, x2, y2),
    ensures
        x1 == x2 && y1 == y2,
{
    if y1 < y2 {
        assert(y1 * width + width <= y2 * width) by (nonlinear_arith)
            requires
                y1 < y2,
                0 <= width,
        ;
    } else if y2 < y1 {
        assert(y2 * width + width <= y1 * width) by (nonlinear_arith)
            requires
                y2 < y1,
                0 <= width,
        ;
    }
}

impl<C> CellGrid<C> {
    /// The cells fill the grid exactly.
    pub open spec fn wf(&self) -> bool {
        self.cells@.len() == self.width * self.height
    }

    /// The cell at (x, y), if inside the grid.
    pub open spec fn at(&self, x: int, y: int) -> Option<C> {
        if 0 <= x < self.width && 0 <= y < self.height {
            Some(self.cells@[cell_index(self.width as int, x, y)])
        } else {
            None
        }
    }

    /// A grid over `cells`, which must hold `width * height` cells row by row.
    pub fn from_cells(cells: Vec<C>, width: usize, height: usize) -> (g: Self)
        requires
            cells@.len() == width * height,
        ensures
            g.wf(),
            g.cells == cells,
            g.width == width,
            g.height == height,
    {
        CellGrid { cells, width, height }
    }

    /// Position of (x, y) in the cell list, if inside the grid.
    pub fn index(&self, x: usize, y: usize) -> (r: Option<usize>)
        requires
            self.wf(),
        ensures
            match r {
                Some(i) => x < self.width && y < self.height && i == cell_index(self.width as int, x as int, y as int)
                    && i < self.cells@.len(),
                None => !(x < self.width && y < self.height),
            },
    {
        let n: usize = self.cells.len();
        if x < self.width && y < self.height {
            proof {
                assert(n == self.width * self.height);
                lemma_index_in_bounds(self.width as int, self.height as int, x as int, y as int);
            }
            Some(y * self.width + x)
        } else {
            None
        }
    }

    /// The cell at (x, y), if inside the grid.
    pub fn get(&self, x: usize, y: usize) -> (r: Option<&C>)
        requires
            self.wf(),
        ensures
            match r {
                Some(c) => self.at(x as int, y as int) == Some(*c),
                None => self.at(x as int, y as int) is None,
            },
    {
        match self.index(x, y) {
            Some(i) => Some(&self.cells[i]),
            None => None,
        }
    }

    /// Replaces the cell at (x, y); outside the grid nothing changes.
    pub fn set(&mut self, x: usize, y: usize, cell: C)
        requires
            old(self).wf(),
        ensures
            final(self).wf(),
            final(self).width == old(self).width,
            final(self).height == old(self).height,
            forall|a: int, b: int| #[trigger] final(self).at(a, b) == (if a == x && b == y && old(self).at(
                a,
                b,
            ) is Some {
                Some(cell)
            } else {
                old(self).at(a, b)
            }),
    {
        match self.index(x, y) {
            Some(i) => {
                let ghost before = self.cells@;
                self.cells.set(i, cell);
                proof {
                    assert forall|a: int, b: int| #[trigger] self.at(a, b) == (if a == x && b == y && old(self).at(
                        a,
                        b,
                    ) is Some {
                        Some(cell)
                    } else {
                        old(self).at(a, b)
                    }) by {
                        if 0 <= a < self.width && 0 <= b < self.height {
                            lemma_index_in_bounds(self.width as int, self.height as int, a, b);
                            if !(a == x && b == y) {
                                if cell_index(self.width as int, a, b) == i as int {
                                    lemma_index_injective(self.width as int, a, b, x as int, y as int);
                                }
                            }
                        }
                    }
                }
            },
            None => {},
        }
    }
}

/// Grid coordinate (x, y) moved by the offset onto the buffer, each sum
/// saturating at `u16::MAX` (a column or row no buffer area contains).
pub open spec fn spec_translate(offset_x: u16, offset_y: u16, x: usize, y: usize) -> (u16, u16) {
    (sat_add(offset_x as int, x as int) as u16, sat_add(offset_y as int, y as int) as u16)
}

fn sat_offset(offset: u16, v: usize) -> (r: u16)
    ensures
        r == sat_add(offset as int, v as int),
{
    if v > 0xFFFF {
        0xFFFF
    } else {
        offset.saturating_add(v as u16)
    }
}

/// Moves a grid coordinate onto the buffer.
pub fn translate(offset_x: u16, offset_y: u16, x: usize, y: usize) -> (r: (u16, u16))
    ensures
        r == spec_translate(offset_x, offset_y, x, y),
{
    (sat_offset(offset_x, x), sat_offset(offset_y, y))
}

/// Whether a buffer position lies in `area` (its right and bottom edges saturate).
pub fn in_area(area: Rect, bx: u16, by: u16) -> (r: bool)
    ensures
        r == (bx >= area.x && bx < area.spec_right() && by >= area.y && by < area.spec_bottom()),
{
    bx >= area.x && bx < area.right() && by >= area.y && by < area.bottom()
}

/// Law: a cell written into the grid is read back, and no other cell changes.
pub proof fn lemma_set_then_get<C>(g1: CellGrid<C>, g2: CellGrid<C>, x: int, y: int, c: C, a: int, b: int)
    requires
        g1.wf(),
        0 <= x < g1.width,
        0 <= y < g1.height,
        forall|p: int, q: int| #[trigger] g2.at(p, q) == (if p == x && q == y && g1.at(p, q) is Some {
            Some(c)
        } else {
            g1.at(p, q)
        }),
    ensures
        g2.at(x, y) == Some(c),
        !(a == x && b == y) ==> g2.at(a, b) == g1.at(a, b),
{
    assert(g2.at(x, y) == (if x == x && y == y && g1.at(x, y) is Some { Some(c) } else { g1.at(x, y) }));
    assert(g2.at(a, b) == (if a == x && b == y && g1.at(a, b) is Some { Some(c) } else { g1.at(a, b) }));
}

} // verus!
