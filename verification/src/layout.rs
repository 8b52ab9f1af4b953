//! Stacking layout: where the items at one anchor are placed on the frame.
//!
//! Items are taken oldest first. Vertical and horizontal stacking push each
//! item past the ones before it until the space between the anchor point and
//! the frame edge runs out; a grid fills rows of at most `max_columns` items;
//! a single policy shows only the oldest item. Bottom anchors stack upward and
//! right anchors stack leftward.

use vstd::prelude::*;
use vstd::multiset::Multiset;
use crate::geometry::{
    Anchor, Rect, sat_add, sat_sub, u16_max, spec_dwell_rect, compute_dwell_rect,
    anchor_point_fits, spec_anchor_position, anchor_position,
};
use crate::types::StackingPolicy;
use crate::text::{dec, push_decimal, lex_lt, str_lt, lemma_lex_irrefl, lemma_lex_asym, lemma_lex_le_trans, lemma_lex_trans};
use vstd::string::StringExecFns;

verus! {

/// What the planner needs to know about one item.
#[derive(Debug, Clone, Copy, PartialEq, Eq, Structural)]
pub struct LayoutItem {
    pub id: u64,
    /// Creation time; older items come first.
    pub created_at: u64,
    pub width: u16,
    pub height: u16,
    pub margin: u16,
    pub fullscreen: bool,
    /// Percentage offsets, already converted to cells of the frame.
    pub off_h_percent_cells: i32,
    pub off_v_percent_cells: i32,
    pub offset_h_cells: i16,
    pub offset_v_cells: i16,
}

/// A grid cell.
#[derive(Debug, Clone, Copy, PartialEq, Eq, Structural)]
pub struct GridPlacement {
    pub row: usize,
    pub col: usize,
}

/// The result of grid layout: a cell per item (or none), and the offset of
/// each column and row from the anchor position.
#[derive(Debug)]
pub struct GridLayout {
    pub placements: Vec<Option<GridPlacement>>,
    pub column_offsets: Vec<u16>,
    pub row_offsets: Vec<u16>,
}

/// The grid as it is being filled.
pub struct GridState {
    pub placements: Seq<Option<GridPlacement>>,
    pub widths: Seq<u16>,
    pub heights: Seq<u16>,
    pub row: int,
    pub col: int,
}

/// The `k`-th position of a walk over `n` items: forward, or backward when stacking up.
pub open spec fn order_idx(up: bool, n: int, k: int) -> int {
    if up {
        n - 1 - k
    } else {
        k
    }
}

pub open spec fn max16(a: u16, b: u16) -> u16 {
    if a >= b {
        a
    } else {
        b
    }
}

/// Height used by the first `k` rows: row heights with `rs` between rows,
/// summed with saturation.
pub open spec fn used_rows(hs: Seq<u16>, rs: u16, k: int) -> int
    decreases k,
{
    if k <= 0 {
        0
    } else {
        let u = sat_add(used_rows(hs, rs, k - 1), hs[k - 1] as int);
        if k < hs.len() {
            sat_add(u, rs as int)
        } else {
            u
        }
    }
}

/// Offset of entry `k`: the saturating sum of the sizes before it, each followed by `sp`.
pub open spec fn running(ws: Seq<u16>, sp: u16, k: int) -> int
    decreases k,
{
    if k <= 0 {
        0
    } else {
        sat_add(running(ws, sp, k - 1), sat_add(ws[k - 1] as int, sp as int))
    }
}

/// Offsets of all entries.
pub open spec fn offsets_of(ws: Seq<u16>, sp: u16) -> Seq<u16> {
    Seq::new(ws.len(), |i: int| running(ws, sp, i) as u16)
}

/// Number of grid columns: `max_columns`, at least one, at most the item count.
pub open spec fn grid_columns(max_columns: u16, n: int) -> int {
    let m = if max_columns == 0 { 1 } else { max_columns as int };
    let cap = if n >= 1 { n } else { 1 };
    if m <= cap {
        m
    } else {
        cap
    }
}

/// Places item `idx`; the flag is set when the grid is full and the walk stops.
pub open spec fn grid_step(
    st: GridState,
    it: LayoutItem,
    idx: int,
    mc: int,
    avail: u16,
    rs: u16,
) -> (GridState, bool) {
    if it.fullscreen {
        (GridState { placements: st.placements.update(idx, None), ..st }, false)
    } else {
        let wrap = st.col >= mc;
        let row = if wrap { st.row + 1 } else { st.row };
        let col = if wrap { 0 } else { st.col };
        let hs = if wrap { st.heights.push(0u16) } else { st.heights };
        let newh = max16(hs[row], it.height);
        if used_rows(hs.update(row, newh), rs, hs.len() as int) > avail {
            (GridState { heights: hs, row, col, ..st }, true)
        } else {
            (
                GridState {
                    placements: st.placements.update(idx, Some(GridPlacement { row: row as usize, col: col as usize })),
                    widths: if it.width > st.widths[col] {
                        st.widths.update(col, it.width)
                    } else {
                        st.widths
                    },
                    heights: hs.update(row, newh),
                    row,
                    col: col + 1,
                },
                false,
            )
        }
    }
}

/// The grid after walking positions `k..n` of the order.
pub open spec fn grid_run(
    st: GridState,
    v: Seq<LayoutItem>,
    up: bool,
    k: int,
    mc: int,
    avail: u16,
    rs: u16,
) -> GridState
    decreases v.len() - k,
{
    if k >= v.len() {
        st
    } else {
        let idx = order_idx(up, v.len() as int, k);
        let (s2, stop) = grid_step(st, v[idx], idx, mc, avail, rs);
        if stop {
            s2
        } else {
            grid_run(s2, v, up, k + 1, mc, avail, rs)
        }
    }
}

proof fn lemma_grid_run_len(st: GridState, v: Seq<LayoutItem>, up: bool, k: int, mc: int, avail: u16, rs: u16)
    requires
        st.placements.len() == v.len(),
        0 <= k,
    ensures
        grid_run(st, v, up, k, mc, avail, rs).placements.len() == v.len(),
    decreases v.len() - k,
{
    if k < v.len() {
        let idx = order_idx(up, v.len() as int, k);
        let (s2, stop) = grid_step(st, v[idx], idx, mc, avail, rs);
        if !stop {
            lemma_grid_run_len(s2, v, up, k + 1, mc, avail, rs);
        }
    }
}

/// The grid before any item is placed.
pub open spec fn grid_start(n: int, mc: int) -> GridState {
    GridState {
        placements: Seq::new(n as nat, |i: int| None),
        widths: Seq::new(mc as nat, |i: int| 0u16),
        heights: seq![0u16],
        row: 0,
        col: 0,
    }
}

/// The grid layout of `v`, walked forward or (when stacking up) backward.
pub open spec fn spec_grid_layout(
    v: Seq<LayoutItem>,
    up: bool,
    avail: u16,
    max_columns: u16,
    rs: u16,
    cs: u16,
) -> (Seq<Option<GridPlacement>>, Seq<u16>, Seq<u16>) {
    let mc = grid_columns(max_columns, v.len() as int);
    if v.len() == 0 {
        (Seq::empty(), Seq::new(mc as nat, |i: int| 0u16), Seq::empty())
    } else {
        let fin = grid_run(grid_start(v.len() as int, mc), v, up, 0, mc, avail, rs);
        (fin.placements, offsets_of(fin.widths, cs), offsets_of(fin.heights, rs))
    }
}


proof fn lemma_grid_run_cells(st: GridState, v: Seq<LayoutItem>, up: bool, k: int, mc: int, avail: u16, rs: u16)
    requires
        mc >= 1,
        0 <= k,
        0 <= st.col <= mc,
        st.placements.len() == v.len(),
        forall|i: int| #![trigger st.placements[i]] 0 <= i < v.len() && st.placements[i] is Some ==> st.placements[i]->0.col
            < mc && !v[i].fullscreen,
    ensures
        forall|i: int| #![trigger grid_run(st, v, up, k, mc, avail, rs).placements[i]]
            0 <= i < v.len() && grid_run(st, v, up, k, mc, avail, rs).placements[i] is Some
                ==> grid_run(st, v, up, k, mc, avail, rs).placements[i]->0.col < mc && !v[i].fullscreen,
    decreases v.len() - k,
{
    if k < v.len() {
        let idx = order_idx(up, v.len() as int, k);
        let (s2, stop) = grid_step(st, v[idx], idx, mc, avail, rs);
        assert forall|i: int| #![trigger s2.placements[i]] 0 <= i < v.len() && s2.placements[i] is Some implies s2.placements[i]->0.col
            < mc && !v[i].fullscreen by {
            if i != idx {
                assert(s2.placements[i] == st.placements[i]);
            }
        }
        if !stop {
            lemma_grid_run_cells(s2, v, up, k + 1, mc, avail, rs);
        }
    }
}

/// Law: an item the grid places is never fullscreen, and its column is below
/// the number of grid columns (rows wrap there).
pub proof fn lemma_grid_cells_in_columns(
    v: Seq<LayoutItem>,
    up: bool,
    avail: u16,
    max_columns: u16,
    rs: u16,
    cs: u16,
)
    ensures
        forall|i: int| #![trigger spec_grid_layout(v, up, avail, max_columns, rs, cs).0[i]]
            0 <= i < spec_grid_layout(v, up, avail, max_columns, rs, cs).0.len()
                && spec_grid_layout(v, up, avail, max_columns, rs, cs).0[i] is Some ==> {
                &&& spec_grid_layout(v, up, avail, max_columns, rs, cs).0[i]->0.col < grid_columns(
                    max_columns,
                    v.len() as int,
                )
                &&& !v[i].fullscreen
            },
{
    if v.len() > 0 {
        let mc = grid_columns(max_columns, v.len() as int);
        lemma_grid_run_len(grid_start(v.len() as int, mc), v, up, 0, mc, avail, rs);
        lemma_grid_run_cells(grid_start(v.len() as int, mc), v, up, 0, mc, avail, rs);
    }
}

proof fn lemma_grid_run_rows(st: GridState, v: Seq<LayoutItem>, up: bool, k: int, mc: int, rs: u16)
    requires
        mc >= 1,
        0 <= k <= v.len(),
        v.len() <= usize::MAX,
        forall|i: int| 0 <= i < v.len() ==> !(#[trigger] v[i]).fullscreen,
        st.placements.len() == v.len(),
        st.widths.len() == mc,
        st.row >= 0,
        st.heights.len() == st.row + 1,
        0 <= st.col <= mc,
        st.row * mc + st.col == k,
    ensures
        forall|j: int| #![trigger order_idx(up, v.len() as int, j)] k <= j < v.len() ==> grid_run(st, v, up, k, mc, u16::MAX, rs).placements[order_idx(up, v.len() as int, j)]
            == Some(GridPlacement { row: (j / mc) as usize, col: (j % mc) as usize }),
        forall|j: int| #![trigger order_idx(up, v.len() as int, j)] 0 <= j < k ==> grid_run(st, v, up, k, mc, u16::MAX, rs).placements[order_idx(up, v.len() as int, j)]
            == st.placements[order_idx(up, v.len() as int, j)],
    decreases v.len() - k,
{
    if k < v.len() {
        let n = v.len() as int;
        let idx = order_idx(up, n, k);
        let it = v[idx];
        let wrap = st.col >= mc;
        let row = if wrap { st.row + 1 } else { st.row };
        let col = if wrap { 0 } else { st.col };
        let hs = if wrap { st.heights.push(0u16) } else { st.heights };
        let newh = max16(hs[row], it.height);
        lemma_used_rows_range(hs.update(row, newh), rs, hs.len() as int);
        let (s2, stop) = grid_step(st, it, idx, mc, u16::MAX, rs);
        assert(!stop);
        assert(row * mc + col == k) by (nonlinear_arith)
            requires
                st.row * mc + st.col == k,
                wrap ==> st.col == mc && row == st.row + 1 && col == 0,
                !wrap ==> row == st.row && col == st.col,
        ;
        assert(s2.row * mc + s2.col == k + 1);
        lemma_grid_run_rows(s2, v, up, k + 1, mc, rs);
        vstd::arithmetic::div_mod::lemma_fundamental_div_mod_converse(k, mc, row, col);
        assert(0 <= row <= k) by (nonlinear_arith)
            requires
                row * mc + col == k,
                mc >= 1,
                col >= 0,
                row >= 0,
        ;
        assert forall|j: int| #![trigger order_idx(up, n, j)] 0 <= j < k implies grid_run(s2, v, up, k + 1, mc, u16::MAX, rs).placements[order_idx(up, n, j)]
            == st.placements[order_idx(up, n, j)] by {
            assert(order_idx(up, n, j) != idx);
            assert(s2.placements[order_idx(up, n, j)] == st.placements[order_idx(up, n, j)]);
        }
        assert(grid_run(s2, v, up, k + 1, mc, u16::MAX, rs).placements[order_idx(up, n, k)] == s2.placements[idx]);
    }
}

/// Law: with unlimited height and no fullscreen item, the grid places every
/// item: the `j`-th item of the walk at row `j / c` and column `j % c`, where
/// `c` is the number of grid columns.
pub proof fn lemma_grid_fills_row_by_row(v: Seq<LayoutItem>, up: bool, max_columns: u16, rs: u16, cs: u16)
    requires
        v.len() <= usize::MAX,
        forall|i: int| 0 <= i < v.len() ==> !(#[trigger] v[i]).fullscreen,
    ensures
        forall|j: int| #![trigger order_idx(up, v.len() as int, j)]
            0 <= j < v.len() ==> spec_grid_layout(v, up, u16::MAX, max_columns, rs, cs).0[order_idx(up, v.len() as int, j)]
                == Some(GridPlacement {
                row: (j / grid_columns(max_columns, v.len() as int)) as usize,
                col: (j % grid_columns(max_columns, v.len() as int)) as usize,
            }),
{
    if v.len() > 0 {
        let mc = grid_columns(max_columns, v.len() as int);
        lemma_grid_run_rows(grid_start(v.len() as int, mc), v, up, 0, mc, rs);
    }
}

proof fn lemma_used_rows_range(hs: Seq<u16>, rs: u16, k: int)
    ensures
        0 <= used_rows(hs, rs, k) <= u16_max(),
    decreases k,
{
    if k > 0 {
        lemma_used_rows_range(hs, rs, k - 1);
    }
}

proof fn lemma_running_range(ws: Seq<u16>, sp: u16, k: int)
    ensures
        0 <= running(ws, sp, k) <= u16_max(),
    decreases k,
{
    if k > 0 {
        lemma_running_range(ws, sp, k - 1);
    }
}

/// Height that the rows take when row `row` is raised to `newh`.
fn used_height(hs: &Vec<u16>, row: usize, newh: u16, rs: u16) -> (u: u16)
    requires
        row < hs.len(),
    ensures
        u == used_rows(hs@.update(row as int, newh), rs, hs.len() as int),
{
    let ghost h2 = hs@.update(row as int, newh);
    let mut used: u16 = 0;
    let mut r: usize = 0;
    while r < hs.len()
        invariant
            r <= hs.len(),
            row < hs.len(),
            h2 == hs@.update(row as int, newh),
            used == used_rows(h2, rs, r as int),
        decreases hs.len() - r,
    {
        let applied = if r == row {
            newh
        } else {
            hs[r]
        };
        proof {
            lemma_used_rows_range(h2, rs, r as int);
        }
        used = used.saturating_add(applied);
        if r + 1 < hs.len() {
            used = used.saturating_add(rs);
        }
        r = r + 1;
    }
    used
}

/// Offsets of consecutive entries of sizes `ws` with `sp` between them.
fn offsets(ws: &Vec<u16>, sp: u16) -> (out: Vec<u16>)
    ensures
        out@ == offsets_of(ws@, sp),
{
    let mut out: Vec<u16> = Vec::new();
    let mut run: u16 = 0;
    let mut i: usize = 0;
    while i < ws.len()
        invariant
            i <= ws.len(),
            out@.len() == i,
            run == running(ws@, sp, i as int),
            forall|j: int| 0 <= j < i ==> out@[j] == running(ws@, sp, j) as u16,
        decreases ws.len() - i,
    {
        out.push(run);
        proof {
            lemma_running_range(ws@, sp, i as int);
        }
        run = run.saturating_add(ws[i].saturating_add(sp));
        i = i + 1;
    }
    assert(out@ =~= offsets_of(ws@, sp));
    out
}

/// Lays out `v` in a grid of at most `max_columns` columns within `avail` rows.
///
/// Items are walked forward, or backward when `up`; fullscreen items get no
/// cell. Rows fill left to right; the walk stops at the first item whose row
/// would push the used height (rows plus `rs` between them) past `avail`.
pub fn build_grid_layout(
    v: &Vec<LayoutItem>,
    up: bool,
    avail: u16,
    max_columns: u16,
    rs: u16,
    cs: u16,
) -> (g: GridLayout)
    ensures
        (g.placements@, g.column_offsets@, g.row_offsets@) == spec_grid_layout(
            v@,
            up,
            avail,
            max_columns,
            rs,
            cs,
        ),
{
    let n = v.len();
    let m: usize = if max_columns == 0 {
        1
    } else {
        max_columns as usize
    };
    let cap: usize = if n >= 1 {
        n
    } else {
        1
    };
    let mc: usize = if m <= cap {
        m
    } else {
        cap
    };
    if n == 0 {
        let mut zeros: Vec<u16> = Vec::new();
        let mut i: usize = 0;
        while i < mc
            invariant
                i <= mc,
                zeros@ == Seq::new(i as nat, |j: int| 0u16),
            decreases mc - i,
        {
            zeros.push(0);
            i = i + 1;
            proof {
                assert(zeros@ =~= Seq::new(i as nat, |j: int| 0u16));
            }
        }
        return GridLayout { placements: Vec::new(), column_offsets: zeros, row_offsets: Vec::new() };
    }
    let mut placements: Vec<Option<GridPlacement>> = Vec::new();
    let mut i: usize = 0;
    while i < n
        invariant
            i <= n,
            placements@ == Seq::new(i as nat, |j: int| None::<GridPlacement>),
        decreases n - i,
    {
        placements.push(None);
        i = i + 1;
        proof {
            assert(placements@ =~= Seq::new(i as nat, |j: int| None::<GridPlacement>));
        }
    }
    let mut widths: Vec<u16> = Vec::new();
    let mut i: usize = 0;
    while i < mc
        invariant
            i <= mc,
            widths@ == Seq::new(i as nat, |j: int| 0u16),
        decreases mc - i,
    {
        widths.push(0);
        i = i + 1;
        proof {
            assert(widths@ =~= Seq::new(i as nat, |j: int| 0u16));
        }
    }
    let mut heights: Vec<u16> = vec![0u16];
    let mut row: usize = 0;
    let mut col: usize = 0;
    let ghost total = grid_run(grid_start(n as int, mc as int), v@, up, 0, mc as int, avail, rs);
    proof {
        assert(heights@ =~= seq![0u16]);
        assert(GridState { placements: placements@, widths: widths@, heights: heights@, row: 0, col: 0 }
            == grid_start(n as int, mc as int));
    }
    let mut k: usize = 0;
    while k < n
        invariant
            n == v.len(),
            n >= 1,
            mc as int == grid_columns(max_columns, n as int),
            1 <= mc <= n,
            k <= n,
            placements@.len() == n,
            widths@.len() == mc,
            heights@.len() == row + 1,
            row <= k,
            col <= mc,
            grid_run(
                GridState { placements: placements@, widths: widths@, heights: heights@, row: row as int, col: col as int },
                v@,
                up,
                k as int,
                mc as int,
                avail,
                rs,
            ) == total,
        decreases n - k,
    {
        let idx: usize = if up {
            n - 1 - k
        } else {
            k
        };
        let it = v[idx];
        let ghost st = GridState { placements: placements@, widths: widths@, heights: heights@, row: row as int, col: col as int };
        if it.fullscreen {
            placements.set(idx, None);
            k = k + 1;
            proof {
                assert(GridState { placements: placements@, widths: widths@, heights: heights@, row: row as int, col: col as int }
                    == grid_step(st, it, idx as int, mc as int, avail, rs).0);
            }
        } else {
            if col >= mc {
                row = row + 1;
                col = 0;
                heights.push(0);
            }
            let cur = heights[row];
            let newh = if cur >= it.height {
                cur
            } else {
                it.height
            };
            let used = used_height(&heights, row, newh, rs);
            if used > avail {
                proof {
                    assert(GridState { placements: placements@, widths: widths@, heights: heights@, row: row as int, col: col as int }
                        == grid_step(st, it, idx as int, mc as int, avail, rs).0);
                    assert(grid_step(st, it, idx as int, mc as int, avail, rs).1);
                }
                k = n;
            } else {
                heights.set(row, newh);
                if it.width > widths[col] {
                    widths.set(col, it.width);
                }
                placements.set(idx, Some(GridPlacement { row, col }));
                col = col + 1;
                k = k + 1;
                proof {
                    assert(GridState { placements: placements@, widths: widths@, heights: heights@, row: row as int, col: col as int }
                        == grid_step(st, it, idx as int, mc as int, avail, rs).0);
                }
            }
        }
    }
    let column_offsets = offsets(&widths, cs);
    let row_offsets = offsets(&heights, rs);
    GridLayout { placements, column_offsets, row_offsets }
}

/// A planned placement: item `index` of the visible list, its id, and where it dwells.
#[derive(Debug, Clone, Copy, PartialEq, Eq, Structural)]
pub struct PlannedRect {
    pub index: usize,
    pub id: u64,
    pub rect: Rect,
}

pub open spec fn zero_rect() -> Rect {
    Rect { x: 0, y: 0, width: 0, height: 0 }
}

pub open spec fn imax(a: int, b: int) -> int {
    if a >= b {
        a
    } else {
        b
    }
}

pub open spec fn imin(a: int, b: int) -> int {
    if a <= b {
        a
    } else {
        b
    }
}

/// The item's dwell rectangle clamped onto the frame; the empty rectangle at the
/// origin when nothing of it is on the frame.
pub open spec fn spec_base_rect(anchor: Anchor, it: LayoutItem, frame: Rect) -> Rect {
    let d = spec_dwell_rect(
        anchor,
        it.off_h_percent_cells,
        it.off_v_percent_cells,
        it.offset_h_cells,
        it.offset_v_cells,
        frame,
        it.width,
        it.height,
        it.margin,
    );
    let i = d.spec_clamped().spec_intersection(frame);
    if i.width > 0 && i.height > 0 {
        i
    } else {
        zero_rect()
    }
}

/// The grid of the plan: placements, column offsets and row offsets.
pub type GridView = (Seq<Option<GridPlacement>>, Seq<u16>, Seq<u16>);

/// Where item `idx` goes given what is already stacked (`acc_h` rows, `acc_w`
/// columns), and the room it takes; `None` when the stack is full and planning stops.
#[verifier::opaque]
pub open spec fn spec_stack_rect(
    anchor: Anchor,
    it: LayoutItem,
    frame: Rect,
    policy: StackingPolicy,
    grid: GridView,
    idx: int,
    acc_h: u16,
    acc_w: u16,
    avail_h: u16,
    avail_w: u16,
) -> (Option<Rect>, u16) {
    let up = anchor.is_bottom();
    let left = anchor.is_right();
    let fs = it.fullscreen;
    let base = spec_base_rect(anchor, it, frame);
    match policy {
        StackingPolicy::Vertical { spacing } => {
            let sp = if acc_h > 0 { spacing } else { 0u16 };
            let needed = sat_add(it.height as int, sp as int) as u16;
            if !fs && sat_add(acc_h as int, needed as int) > avail_h {
                (None, needed)
            } else {
                let sy = if fs {
                    frame.y as int
                } else if up {
                    sat_sub(base.y as int, acc_h as int)
                } else {
                    sat_add(base.y as int, acc_h as int)
                };
                let y = imin(imax(sy, frame.y as int), sat_sub(frame.spec_bottom(), it.height as int));
                let r = Rect {
                    x: if fs { frame.x } else { base.x },
                    y: y as u16,
                    width: if fs { frame.width } else { base.width },
                    height: it.height,
                };
                (Some(r.spec_intersection(frame)), needed)
            }
        },
        StackingPolicy::Horizontal { spacing } => {
            let sp = if acc_w > 0 { spacing } else { 0u16 };
            let needed = sat_add(it.width as int, sp as int) as u16;
            if !fs && sat_add(acc_w as int, needed as int) > avail_w {
                (None, needed)
            } else {
                let sx = if fs {
                    frame.x as int
                } else if left {
                    sat_sub(base.x as int, acc_w as int)
                } else {
                    sat_add(base.x as int, acc_w as int)
                };
                let x = imin(imax(sx, frame.x as int), sat_sub(frame.spec_right(), it.width as int));
                let r = Rect {
                    x: x as u16,
                    y: if fs { frame.y } else { base.y },
                    width: it.width,
                    height: if fs { frame.height } else { base.height },
                };
                (Some(r.spec_intersection(frame)), needed)
            }
        },
        StackingPolicy::Grid { .. } => {
            if fs {
                (Some(frame), 0u16)
            } else {
                match grid.0[idx] {
                    None => (None, 0u16),
                    Some(p) => {
                        let ox: u16 = if p.col < grid.1.len() { grid.1[p.col as int] } else { 0u16 };
                        let oy: u16 = if p.row < grid.2.len() { grid.2[p.row as int] } else { 0u16 };
                        let sx = if left {
                            sat_sub(base.x as int, ox as int)
                        } else {
                            sat_add(base.x as int, ox as int)
                        };
                        let sy = if up {
                            sat_sub(base.y as int, oy as int)
                        } else {
                            sat_add(base.y as int, oy as int)
                        };
                        let r = Rect {
                            x: imax(sx, frame.x as int) as u16,
                            y: imax(sy, frame.y as int) as u16,
                            width: it.width,
                            height: it.height,
                        };
                        (Some(r.spec_intersection(frame)), 0u16)
                    },
                }
            }
        },
        StackingPolicy::Single => {
            if fs {
                (Some(frame), 0u16)
            } else {
                (Some(base), 0u16)
            }
        },
    }
}

/// The placements from position `k` of the walk on, given what is stacked so far.
/// Items of zero width or height take their room but are left out of the plan.
pub open spec fn plan_run(
    anchor: Anchor,
    v: Seq<LayoutItem>,
    frame: Rect,
    policy: StackingPolicy,
    grid: GridView,
    k: int,
    acc_h: u16,
    acc_w: u16,
    avail_h: u16,
    avail_w: u16,
) -> Seq<PlannedRect>
    decreases v.len() - k,
{
    if k >= v.len() {
        Seq::empty()
    } else {
        let idx = order_idx(anchor.is_bottom(), v.len() as int, k);
        let (r, needed) = spec_stack_rect(
            anchor,
            v[idx],
            frame,
            policy,
            grid,
            idx,
            acc_h,
            acc_w,
            avail_h,
            avail_w,
        );
        match r {
            None => Seq::empty(),
            Some(rect) => {
                let nh = if policy is Vertical { sat_add(acc_h as int, needed as int) as u16 } else { acc_h };
                let nw = if policy is Horizontal { sat_add(acc_w as int, needed as int) as u16 } else { acc_w };
                let rest = plan_run(anchor, v, frame, policy, grid, k + 1, nh, nw, avail_h, avail_w);
                if rect.width > 0 && rect.height > 0 {
                    seq![PlannedRect { index: idx as usize, id: v[idx].id, rect }] + rest
                } else {
                    rest
                }
            },
        }
    }
}

/// Rows between the anchor point and the frame edge that the stack grows toward.
pub open spec fn spec_avail_h(anchor: Anchor, frame: Rect) -> u16 {
    let ap = spec_anchor_position(anchor, frame);
    (if anchor.is_bottom() {
        sat_add(sat_sub(ap.y as int, frame.y as int), 1)
    } else {
        sat_sub(frame.spec_bottom(), ap.y as int)
    }) as u16
}

/// Columns between the anchor point and the frame edge that the stack grows toward.
pub open spec fn spec_avail_w(anchor: Anchor, frame: Rect) -> u16 {
    let ap = spec_anchor_position(anchor, frame);
    (if anchor.is_right() {
        sat_add(sat_sub(ap.x as int, frame.x as int), 1)
    } else {
        sat_sub(frame.spec_right(), ap.x as int)
    }) as u16
}

/// The items a policy considers: all of them, or only the oldest for `Single`.
pub open spec fn considered(v: Seq<LayoutItem>, policy: StackingPolicy) -> Seq<LayoutItem> {
    if policy is Single && v.len() > 1 {
        v.take(1)
    } else {
        v
    }
}

/// The grid a policy uses (empty unless it is `Grid`).
pub open spec fn spec_plan_grid(anchor: Anchor, w: Seq<LayoutItem>, frame: Rect, policy: StackingPolicy) -> GridView {
    match policy {
        StackingPolicy::Grid { max_columns, row_spacing, column_spacing } => spec_grid_layout(
            w,
            anchor.is_bottom(),
            spec_avail_h(anchor, frame),
            max_columns,
            row_spacing,
            column_spacing,
        ),
        _ => (Seq::empty(), Seq::empty(), Seq::empty()),
    }
}

/// The plan for the visible items `v` (oldest first) at `anchor`.
pub open spec fn spec_plan(anchor: Anchor, v: Seq<LayoutItem>, frame: Rect, policy: StackingPolicy) -> Seq<PlannedRect> {
    let w = considered(v, policy);
    let grid = spec_plan_grid(anchor, w, frame, policy);
    if v.len() == 0 {
        Seq::empty()
    } else if policy is Grid
        && (forall|i: int| 0 <= i < grid.0.len() ==> grid.0[i] is None)
        && !(exists|i: int| 0 <= i < w.len() && w[i].fullscreen) {
        Seq::empty()
    } else {
        plan_run(anchor, w, frame, policy, grid, 0, 0, 0, spec_avail_h(anchor, frame), spec_avail_w(anchor, frame))
    }
}


/// The item's dwell rectangle clamped onto the frame.
fn base_rect(anchor: Anchor, it: &LayoutItem, frame: Rect) -> (r: Rect)
    ensures
        r == spec_base_rect(anchor, *it, frame),
{
    let d = compute_dwell_rect(
        anchor,
        it.off_h_percent_cells,
        it.off_v_percent_cells,
        it.offset_h_cells,
        it.offset_v_cells,
        frame,
        it.width,
        it.height,
        it.margin,
    );
    match d.to_clamped().intersect(&frame) {
        Some(i) => i,
        None => Rect { x: 0, y: 0, width: 0, height: 0 },
    }
}

/// Places item `idx` on the stack; `None` when the stack is full.
fn stack_rect(
    anchor: Anchor,
    it: &LayoutItem,
    frame: Rect,
    policy: StackingPolicy,
    grid: &GridLayout,
    idx: usize,
    acc_h: u16,
    acc_w: u16,
    avail_h: u16,
    avail_w: u16,
) -> (r: (Option<Rect>, u16))
    requires
        policy is Grid ==> idx < grid.placements@.len(),
    ensures
        r == spec_stack_rect(
            anchor,
            *it,
            frame,
            policy,
            (grid.placements@, grid.column_offsets@, grid.row_offsets@),
            idx as int,
            acc_h,
            acc_w,
            avail_h,
            avail_w,
        ),
{
    reveal(spec_stack_rect);
    let up = anchor.stacks_up();
    let left = anchor.stacks_left();
    let fs = it.fullscreen;
    let base = base_rect(anchor, it, frame);
    match policy {
        StackingPolicy::Vertical { spacing } => {
            let sp = if acc_h > 0 {
                spacing
            } else {
                0
            };
            let needed = it.height.saturating_add(sp);
            if !fs && acc_h.saturating_add(needed) > avail_h {
                return (None, needed);
            }
            let sy = if fs {
                frame.y
            } else if up {
                base.y.saturating_sub(acc_h)
            } else {
                base.y.saturating_add(acc_h)
            };
            let y1 = if sy >= frame.y {
                sy
            } else {
                frame.y
            };
            let lim = frame.bottom().saturating_sub(it.height);
            let y = if y1 <= lim {
                y1
            } else {
                lim
            };
            let r = Rect {
                x: if fs {
                    frame.x
                } else {
                    base.x
                },
                y,
                width: if fs {
                    frame.width
                } else {
                    base.width
                },
                height: it.height,
            };
            (Some(r.intersection(&frame)), needed)
        },
        StackingPolicy::Horizontal { spacing } => {
            let sp = if acc_w > 0 {
                spacing
            } else {
                0
            };
            let needed = it.width.saturating_add(sp);
            if !fs && acc_w.saturating_add(needed) > avail_w {
                return (None, needed);
            }
            let sx = if fs {
                frame.x
            } else if left {
                base.x.saturating_sub(acc_w)
            } else {
                base.x.saturating_add(acc_w)
            };
            let x1 = if sx >= frame.x {
                sx
            } else {
                frame.x
            };
            let lim = frame.right().saturating_sub(it.width);
            let x = if x1 <= lim {
                x1
            } else {
                lim
            };
            let r = Rect {
                x,
                y: if fs {
                    frame.y
                } else {
                    base.y
                },
                width: it.width,
                height: if fs {
                    frame.height
                } else {
                    base.height
                },
            };
            (Some(r.intersection(&frame)), needed)
        },
        StackingPolicy::Grid { .. } => {
            if fs {
                return (Some(frame), 0);
            }
            match grid.placements[idx] {
                None => (None, 0),
                Some(p) => {
                    let ox: u16 = if p.col < grid.column_offsets.len() {
                        grid.column_offsets[p.col]
                    } else {
                        0
                    };
                    let oy: u16 = if p.row < grid.row_offsets.len() {
                        grid.row_offsets[p.row]
                    } else {
                        0
                    };
                    let sx = if left {
                        base.x.saturating_sub(ox)
                    } else {
                        base.x.saturating_add(ox)
                    };
                    let sy = if up {
                        base.y.saturating_sub(oy)
                    } else {
                        base.y.saturating_add(oy)
                    };
                    let r = Rect {
                        x: if sx >= frame.x {
                            sx
                        } else {
                            frame.x
                        },
                        y: if sy >= frame.y {
                            sy
                        } else {
                            frame.y
                        },
                        width: it.width,
                        height: it.height,
                    };
                    (Some(r.intersection(&frame)), 0)
                },
            }
        },
        StackingPolicy::Single => {
            if fs {
                (Some(frame), 0)
            } else {
                (Some(base), 0)
            }
        },
    }
}

/// Plans the stack at `anchor` for the visible items `v`, oldest first.
///
/// Returns, in walk order, the placement of every item that gets a non-empty
/// rectangle on the frame.
pub fn plan_stack(anchor: Anchor, v: &Vec<LayoutItem>, frame: Rect, policy: StackingPolicy) -> (out: Vec<PlannedRect>)
    requires
        anchor_point_fits(frame),
    ensures
        out@ == spec_plan(anchor, v@, frame, policy),
{
    if v.len() == 0 {
        return Vec::new();
    }
    let mut w: Vec<LayoutItem> = Vec::new();
    if let StackingPolicy::Single = policy {
        w.push(v[0]);
        proof {
            assert(w@ =~= considered(v@, policy));
        }
    } else {
        w = v.clone();
        proof {
            assert(w@ =~= considered(v@, policy));
        }
    }
    let up = anchor.stacks_up();
    let left = anchor.stacks_left();
    let ap = anchor_position(anchor, frame);
    let avail_h = if up {
        ap.y.saturating_sub(frame.y).saturating_add(1)
    } else {
        frame.bottom().saturating_sub(ap.y)
    };
    let avail_w = if left {
        ap.x.saturating_sub(frame.x).saturating_add(1)
    } else {
        frame.right().saturating_sub(ap.x)
    };
    let grid = match policy {
        StackingPolicy::Grid { max_columns, row_spacing, column_spacing } => build_grid_layout(
            &w,
            up,
            avail_h,
            max_columns,
            row_spacing,
            column_spacing,
        ),
        _ => GridLayout { placements: Vec::new(), column_offsets: Vec::new(), row_offsets: Vec::new() },
    };
    let ghost gv: GridView = (grid.placements@, grid.column_offsets@, grid.row_offsets@);
    proof {
        assert(gv == spec_plan_grid(anchor, w@, frame, policy));
    }
    if let StackingPolicy::Grid { .. } = policy {
        let mut all_none = true;
        let mut i: usize = 0;
        while i < grid.placements.len()
            invariant
                i <= grid.placements@.len(),
                all_none == forall|j: int| 0 <= j < i ==> grid.placements@[j] is None,
            decreases grid.placements.len() - i,
        {
            if grid.placements[i].is_some() {
                all_none = false;
            }
            i = i + 1;
        }
        let mut any_fs = false;
        let mut i: usize = 0;
        while i < w.len()
            invariant
                i <= w@.len(),
                any_fs == exists|j: int| 0 <= j < i && w@[j].fullscreen,
            decreases w.len() - i,
        {
            if w[i].fullscreen {
                any_fs = true;
            }
            i = i + 1;
        }
        if all_none && !any_fs {
            return Vec::new();
        }
        proof {
            let mc = grid_columns(policy->max_columns, w@.len() as int);
            lemma_grid_run_len(grid_start(w@.len() as int, mc), w@, up, 0, mc, avail_h, policy->row_spacing);
            assert(grid.placements@.len() == w@.len());
        }
    }
    let n = w.len();
    let ghost total = plan_run(anchor, w@, frame, policy, gv, 0, 0, 0, avail_h, avail_w);
    let mut acc_h: u16 = 0;
    let mut acc_w: u16 = 0;
    let mut out: Vec<PlannedRect> = Vec::new();
    let mut k: usize = 0;
    proof {
        assert(out@ + plan_run(anchor, w@, frame, policy, gv, 0, 0, 0, avail_h, avail_w) =~= total);
    }
    while k < n
        invariant
            n == w@.len(),
            n >= 1,
            k <= n,
            up == anchor.is_bottom(),
            gv == (grid.placements@, grid.column_offsets@, grid.row_offsets@),
            policy is Grid ==> grid.placements@.len() == n,
            out@ + plan_run(anchor, w@, frame, policy, gv, k as int, acc_h, acc_w, avail_h, avail_w) == total,
        decreases n - k,
    {
        let idx: usize = if up {
            n - 1 - k
        } else {
            k
        };
        let ghost rest = plan_run(anchor, w@, frame, policy, gv, k as int, acc_h, acc_w, avail_h, avail_w);
        let (r, needed) = stack_rect(anchor, &w[idx], frame, policy, &grid, idx, acc_h, acc_w, avail_h, avail_w);
        match r {
            None => {
                proof {
                    assert(out@ + Seq::<PlannedRect>::empty() =~= out@);
                }
                k = n;
            },
            Some(rect) => {
                match policy {
                    StackingPolicy::Vertical { .. } => {
                        acc_h = acc_h.saturating_add(needed);
                    },
                    StackingPolicy::Horizontal { .. } => {
                        acc_w = acc_w.saturating_add(needed);
                    },
                    _ => {},
                }
                k = k + 1;
                if rect.width > 0 && rect.height > 0 {
                    let ghost old_out = out@;
                    out.push(PlannedRect { index: idx, id: w[idx as usize].id, rect });
                    proof {
                        assert(out@ + plan_run(anchor, w@, frame, policy, gv, k as int, acc_h, acc_w, avail_h, avail_w)
                            =~= old_out + rest);
                    }
                }
            },
        }
    }
    proof {
        assert(out@ =~= out@ + plan_run(anchor, w@, frame, policy, gv, k as int, acc_h, acc_w, avail_h, avail_w));
    }
    out
}


/// The size an item is drawn at: the whole frame when fullscreen, else its
/// configured size cut down to the frame.
pub open spec fn spec_visible(it: LayoutItem, frame: Rect) -> LayoutItem {
    if it.fullscreen {
        LayoutItem { width: frame.width, height: frame.height, ..it }
    } else {
        LayoutItem {
            width: if it.width <= frame.width { it.width } else { frame.width },
            height: if it.height <= frame.height { it.height } else { frame.height },
            ..it
        }
    }
}

/// Items in creation order, oldest first.
pub open spec fn by_created(v: Seq<LayoutItem>) -> bool {
    forall|i: int, j: int| 0 <= i <= j < v.len() ==> v[i].created_at <= v[j].created_at
}

/// The items at their drawn size.
pub open spec fn visible_all(items: Seq<LayoutItem>, frame: Rect) -> Seq<LayoutItem> {
    items.map_values(|it: LayoutItem| spec_visible(it, frame))
}

/// Sizes `it` for drawing on `frame`.
pub fn visible_item(it: &LayoutItem, frame: Rect) -> (r: LayoutItem)
    ensures
        r == spec_visible(*it, frame),
{
    if it.fullscreen {
        LayoutItem { width: frame.width, height: frame.height, ..*it }
    } else {
        LayoutItem {
            width: if it.width <= frame.width {
                it.width
            } else {
                frame.width
            },
            height: if it.height <= frame.height {
                it.height
            } else {
                frame.height
            },
            ..*it
        }
    }
}

/// Index of the first oldest item.
fn oldest_index(v: &Vec<LayoutItem>) -> (r: usize)
    requires
        v.len() > 0,
    ensures
        r < v.len(),
        forall|j: int| 0 <= j < v.len() ==> v@[r as int].created_at <= #[trigger] v@[j].created_at,
{
    let mut best: usize = 0;
    let mut i: usize = 1;
    while i < v.len()
        invariant
            1 <= i <= v.len(),
            best < i,
            forall|j: int| 0 <= j < i ==> v@[best as int].created_at <= #[trigger] v@[j].created_at,
        decreases v.len() - i,
    {
        if v[i].created_at < v[best].created_at {
            best = i;
        }
        i = i + 1;
    }
    best
}

/// The items at their drawn size, oldest first (equal times keep their order).
pub fn visible_items(items: &Vec<LayoutItem>, frame: Rect) -> (v: Vec<LayoutItem>)
    ensures
        v@.to_multiset() == visible_all(items@, frame).to_multiset(),
        by_created(v@),
{
    broadcast use vstd::seq_lib::group_to_multiset_ensures;

    let mut rest: Vec<LayoutItem> = Vec::new();
    let mut i: usize = 0;
    while i < items.len()
        invariant
            i <= items.len(),
            rest@ == visible_all(items@.take(i as int), frame),
        decreases items.len() - i,
    {
        let x = visible_item(&items[i], frame);
        rest.push(x);
        i = i + 1;
        proof {
            assert(rest@ =~= visible_all(items@.take(i as int), frame));
        }
    }
    proof {
        assert(items@.take(items.len() as int) =~= items@);
    }
    let ghost all = rest@;
    let mut out: Vec<LayoutItem> = Vec::new();
    while rest.len() > 0
        invariant
            out@.to_multiset().add(rest@.to_multiset()) == all.to_multiset(),
            by_created(out@),
            forall|a: int, b: int|
                0 <= a < out@.len() && 0 <= b < rest@.len() ==> out@[a].created_at <= rest@[b].created_at,
        decreases rest@.len(),
    {
        let j = oldest_index(&rest);
        let ghost before = rest@;
        let x = rest.remove(j);
        proof {
            vstd::seq_lib::to_multiset_remove(before, j as int);
            assert(before[j as int] == x);
            assert(before.contains(x));
            before.to_multiset_ensures();
            assert(before.to_multiset().count(x) > 0);
            assert(before.remove(j as int).to_multiset() == before.to_multiset().remove(x));
            assert forall|b: int| 0 <= b < rest@.len() implies x.created_at <= rest@[b].created_at by {
                let b2 = if b < j { b } else { b + 1 };
                assert(rest@[b] == before[b2]);
            }
        }
        let ghost out_before = out@;
        out.push(x);
        proof {
            vstd::seq_lib::to_multiset_build(out_before, x);
            assert(out@.to_multiset() == out_before.to_multiset().insert(x));
            assert(out@.to_multiset().add(rest@.to_multiset()) =~= all.to_multiset());
            assert forall|a: int, b: int|
                0 <= a < out@.len() && 0 <= b < rest@.len() implies out@[a].created_at <= rest@[b].created_at by {
                let b2 = if b < j { b } else { b + 1 };
                assert(rest@[b] == before[b2]);
            }
        }
    }
    proof {
        assert(rest@.to_multiset() =~= Multiset::empty());
        assert(out@.to_multiset().add(Multiset::empty()) =~= out@.to_multiset());
    }
    out
}

/// Plans the items at `anchor`: sizes them, puts them oldest first, and stacks them.
///
/// Returns the visible items in that order and the placements, each of which
/// names its item by index into the visible list.
pub fn plan_anchor(anchor: Anchor, items: &Vec<LayoutItem>, frame: Rect, policy: StackingPolicy) -> (r: (
    Vec<LayoutItem>,
    Vec<PlannedRect>,
))
    requires
        anchor_point_fits(frame),
    ensures
        r.0@.to_multiset() == visible_all(items@, frame).to_multiset(),
        by_created(r.0@),
        r.1@ == spec_plan(anchor, r.0@, frame, policy),
{
    let v = visible_items(items, frame);
    let plan = plan_stack(anchor, &v, frame, policy);
    (v, plan)
}

/// A non-empty rectangle lying wholly on the frame.
pub open spec fn on_frame(r: Rect, frame: Rect) -> bool {
    &&& r.width > 0 && r.height > 0
    &&& frame.x <= r.x && r.x + r.width <= frame.x + frame.width
    &&& frame.y <= r.y && r.y + r.height <= frame.y + frame.height
}

/// Position of item `idx` in the walk over `n` items.
pub open spec fn walk_pos(up: bool, n: int, idx: int) -> int {
    if up {
        n - 1 - idx
    } else {
        idx
    }
}

proof fn lemma_intersection_on_frame(r: Rect, frame: Rect)
    ensures
        r.spec_intersection(frame).width > 0 && r.spec_intersection(frame).height > 0
            ==> on_frame(r.spec_intersection(frame), frame),
{
}

proof fn lemma_base_on_frame(anchor: Anchor, it: LayoutItem, frame: Rect)
    ensures
        spec_base_rect(anchor, it, frame).width > 0 ==> on_frame(spec_base_rect(anchor, it, frame), frame),
{
    let d = spec_dwell_rect(
        anchor,
        it.off_h_percent_cells,
        it.off_v_percent_cells,
        it.offset_h_cells,
        it.offset_v_cells,
        frame,
        it.width,
        it.height,
        it.margin,
    );
    lemma_intersection_on_frame(d.spec_clamped(), frame);
}

/// Law: in a horizontal stack at an anchor off the right edge, a
/// non-fullscreen item placed after `acc_w` columns of earlier items lands
/// exactly `acc_w` cells to the right of its own anchored rectangle, with its
/// width and that rectangle's rows, whenever it stays on the frame.
pub proof fn lemma_horizontal_stack_offset(
    anchor: Anchor,
    it: LayoutItem,
    frame: Rect,
    spacing: u16,
    grid: GridView,
    idx: int,
    acc_h: u16,
    acc_w: u16,
    avail_h: u16,
    avail_w: u16,
)
    requires
        !anchor.is_right(),
        !it.fullscreen,
        spec_base_rect(anchor, it, frame).width > 0,
        spec_base_rect(anchor, it, frame).x + acc_w + it.width <= frame.spec_right(),
        spec_stack_rect(anchor, it, frame, StackingPolicy::Horizontal { spacing }, grid, idx, acc_h, acc_w, avail_h, avail_w).0
            is Some,
    ensures
        spec_stack_rect(anchor, it, frame, StackingPolicy::Horizontal { spacing }, grid, idx, acc_h, acc_w, avail_h, avail_w).0
            == Some(
            Rect {
                x: (spec_base_rect(anchor, it, frame).x + acc_w) as u16,
                y: spec_base_rect(anchor, it, frame).y,
                width: it.width,
                height: spec_base_rect(anchor, it, frame).height,
            },
        ),
{
    reveal(spec_stack_rect);
    lemma_base_on_frame(anchor, it, frame);
}

/// Law: in a horizontal stack at an anchor on the right edge, a
/// non-fullscreen item placed after `acc_w` columns of earlier items lands
/// exactly `acc_w` cells to the left of its own anchored rectangle, with its
/// width and that rectangle's rows, whenever it stays on the frame.
pub proof fn lemma_horizontal_stack_offset_leftward(
    anchor: Anchor,
    it: LayoutItem,
    frame: Rect,
    spacing: u16,
    grid: GridView,
    idx: int,
    acc_h: u16,
    acc_w: u16,
    avail_h: u16,
    avail_w: u16,
)
    requires
        anchor.is_right(),
        !it.fullscreen,
        spec_base_rect(anchor, it, frame).width > 0,
        frame.x + acc_w <= spec_base_rect(anchor, it, frame).x,
        spec_base_rect(anchor, it, frame).x - acc_w + it.width <= frame.spec_right(),
        spec_stack_rect(anchor, it, frame, StackingPolicy::Horizontal { spacing }, grid, idx, acc_h, acc_w, avail_h, avail_w).0
            is Some,
    ensures
        spec_stack_rect(anchor, it, frame, StackingPolicy::Horizontal { spacing }, grid, idx, acc_h, acc_w, avail_h, avail_w).0
            == Some(
            Rect {
                x: (spec_base_rect(anchor, it, frame).x - acc_w) as u16,
                y: spec_base_rect(anchor, it, frame).y,
                width: it.width,
                height: spec_base_rect(anchor, it, frame).height,
            },
        ),
{
    reveal(spec_stack_rect);
    lemma_base_on_frame(anchor, it, frame);
}

/// Law: in a vertical stack at an anchor off the bottom edge, a
/// non-fullscreen item placed after `acc_h` rows of earlier items lands
/// exactly `acc_h` rows below its own anchored rectangle, with its height and
/// that rectangle's columns, whenever it stays on the frame.
pub proof fn lemma_vertical_stack_offset_down(
    anchor: Anchor,
    it: LayoutItem,
    frame: Rect,
    spacing: u16,
    grid: GridView,
    idx: int,
    acc_h: u16,
    acc_w: u16,
    avail_h: u16,
    avail_w: u16,
)
    requires
        !anchor.is_bottom(),
        !it.fullscreen,
        spec_base_rect(anchor, it, frame).width > 0,
        spec_base_rect(anchor, it, frame).y + acc_h + it.height <= frame.spec_bottom(),
        spec_stack_rect(anchor, it, frame, StackingPolicy::Vertical { spacing }, grid, idx, acc_h, acc_w, avail_h, avail_w).0
            is Some,
    ensures
        spec_stack_rect(anchor, it, frame, StackingPolicy::Vertical { spacing }, grid, idx, acc_h, acc_w, avail_h, avail_w).0
            == Some(
            Rect {
                x: spec_base_rect(anchor, it, frame).x,
                y: (spec_base_rect(anchor, it, frame).y + acc_h) as u16,
                width: spec_base_rect(anchor, it, frame).width,
                height: it.height,
            },
        ),
{
    reveal(spec_stack_rect);
    lemma_base_on_frame(anchor, it, frame);
}

/// Law: in a vertical stack at an anchor on the bottom edge, a
/// non-fullscreen item placed after `acc_h` rows of earlier items lands
/// exactly `acc_h` rows above its own anchored rectangle, with its height and
/// that rectangle's columns, whenever it stays on the frame.
pub proof fn lemma_vertical_stack_offset_up(
    anchor: Anchor,
    it: LayoutItem,
    frame: Rect,
    spacing: u16,
    grid: GridView,
    idx: int,
    acc_h: u16,
    acc_w: u16,
    avail_h: u16,
    avail_w: u16,
)
    requires
        anchor.is_bottom(),
        !it.fullscreen,
        spec_base_rect(anchor, it, frame).width > 0,
        frame.y + acc_h <= spec_base_rect(anchor, it, frame).y,
        spec_base_rect(anchor, it, frame).y - acc_h + it.height <= frame.spec_bottom(),
        spec_stack_rect(anchor, it, frame, StackingPolicy::Vertical { spacing }, grid, idx, acc_h, acc_w, avail_h, avail_w).0
            is Some,
    ensures
        spec_stack_rect(anchor, it, frame, StackingPolicy::Vertical { spacing }, grid, idx, acc_h, acc_w, avail_h, avail_w).0
            == Some(
            Rect {
                x: spec_base_rect(anchor, it, frame).x,
                y: (spec_base_rect(anchor, it, frame).y - acc_h) as u16,
                width: spec_base_rect(anchor, it, frame).width,
                height: it.height,
            },
        ),
{
    reveal(spec_stack_rect);
    lemma_base_on_frame(anchor, it, frame);
}

/// Law: in a horizontal (vertical) stack a non-fullscreen item takes its
/// width (height) plus the spacing, with no spacing before the first item,
/// and it is refused, ending the stack, exactly when the room used with it
/// (capped at `u16::MAX`) would pass the available width (height).
pub proof fn lemma_stack_room(
    anchor: Anchor,
    it: LayoutItem,
    frame: Rect,
    spacing: u16,
    grid: GridView,
    idx: int,
    acc_h: u16,
    acc_w: u16,
    avail_h: u16,
    avail_w: u16,
)
    requires
        !it.fullscreen,
    ensures
        ({
            let h = spec_stack_rect(anchor, it, frame, StackingPolicy::Horizontal { spacing }, grid, idx, acc_h, acc_w, avail_h, avail_w);
            let room = it.width + (if acc_w > 0 { spacing as int } else { 0 });
            &&& h.1 == (if room <= u16::MAX { room } else { u16::MAX as int })
            &&& (h.0 is None <==> (if acc_w + h.1 <= u16::MAX { acc_w + h.1 } else { u16::MAX as int }) > avail_w)
        }),
        ({
            let v = spec_stack_rect(anchor, it, frame, StackingPolicy::Vertical { spacing }, grid, idx, acc_h, acc_w, avail_h, avail_w);
            let room = it.height + (if acc_h > 0 { spacing as int } else { 0 });
            &&& v.1 == (if room <= u16::MAX { room } else { u16::MAX as int })
            &&& (v.0 is None <==> (if acc_h + v.1 <= u16::MAX { acc_h + v.1 } else { u16::MAX as int }) > avail_h)
        }),
{
    reveal(spec_stack_rect);
}

/// Law: in a horizontal stack at an anchor off the right edge, two
/// non-fullscreen items anchored at the same column, the second placed after
/// the room the first takes, do not overlap: the second starts at or right of
/// the first's right edge (whenever both stay on the frame).
pub proof fn lemma_horizontal_stack_no_overlap(
    anchor: Anchor,
    a: LayoutItem,
    b: LayoutItem,
    frame: Rect,
    spacing: u16,
    grid: GridView,
    ia: int,
    ib: int,
    acc_h: u16,
    acc_w: u16,
    avail_h: u16,
    avail_w: u16,
)
    requires
        !anchor.is_right(),
        !a.fullscreen,
        !b.fullscreen,
        spec_base_rect(anchor, a, frame).width > 0,
        spec_base_rect(anchor, b, frame).width > 0,
        spec_base_rect(anchor, a, frame).x == spec_base_rect(anchor, b, frame).x,
        ({
            let first = spec_stack_rect(anchor, a, frame, StackingPolicy::Horizontal { spacing }, grid, ia, acc_h, acc_w, avail_h, avail_w);
            let next = acc_w + first.1;
            &&& next <= u16::MAX
            &&& first.0 is Some
            &&& spec_base_rect(anchor, a, frame).x + acc_w + a.width <= frame.spec_right()
            &&& spec_base_rect(anchor, b, frame).x + next + b.width <= frame.spec_right()
            &&& spec_stack_rect(anchor, b, frame, StackingPolicy::Horizontal { spacing }, grid, ib, acc_h, next as u16, avail_h, avail_w).0
                is Some
        }),
    ensures
        ({
            let first = spec_stack_rect(anchor, a, frame, StackingPolicy::Horizontal { spacing }, grid, ia, acc_h, acc_w, avail_h, avail_w);
            let second = spec_stack_rect(anchor, b, frame, StackingPolicy::Horizontal { spacing }, grid, ib, acc_h, (acc_w + first.1) as u16, avail_h, avail_w);
            first.0->0.x + first.0->0.width <= second.0->0.x
        }),
{
    let first = spec_stack_rect(anchor, a, frame, StackingPolicy::Horizontal { spacing }, grid, ia, acc_h, acc_w, avail_h, avail_w);
    let next = (acc_w + first.1) as u16;
    lemma_horizontal_stack_offset(anchor, a, frame, spacing, grid, ia, acc_h, acc_w, avail_h, avail_w);
    lemma_horizontal_stack_offset(anchor, b, frame, spacing, grid, ib, acc_h, next, avail_h, avail_w);
    reveal(spec_stack_rect);
}

proof fn lemma_stack_rect_on_frame(
    anchor: Anchor,
    it: LayoutItem,
    frame: Rect,
    policy: StackingPolicy,
    grid: GridView,
    idx: int,
    acc_h: u16,
    acc_w: u16,
    avail_h: u16,
    avail_w: u16,
)
    ensures
        ({
            let (r, needed) = spec_stack_rect(anchor, it, frame, policy, grid, idx, acc_h, acc_w, avail_h, avail_w);
            r matches Some(rect) ==> (rect.width > 0 && rect.height > 0 ==> on_frame(rect, frame))
        }),
{
    reveal(spec_stack_rect);
    lemma_base_on_frame(anchor, it, frame);
    let (r, needed) = spec_stack_rect(anchor, it, frame, policy, grid, idx, acc_h, acc_w, avail_h, avail_w);
    if let Some(rect) = r {
        if rect.width > 0 && rect.height > 0 {
            match policy {
                StackingPolicy::Vertical { spacing } => {
                    let base = spec_base_rect(anchor, it, frame);
                    let fs = it.fullscreen;
                    let up = anchor.is_bottom();
                    let sy = if fs {
                        frame.y as int
                    } else if up {
                        sat_sub(base.y as int, acc_h as int)
                    } else {
                        sat_add(base.y as int, acc_h as int)
                    };
                    let y = imin(imax(sy, frame.y as int), sat_sub(frame.spec_bottom(), it.height as int));
                    lemma_intersection_on_frame(Rect {
                        x: if fs { frame.x } else { base.x },
                        y: y as u16,
                        width: if fs { frame.width } else { base.width },
                        height: it.height,
                    }, frame);
                },
                StackingPolicy::Horizontal { spacing } => {
                    let base = spec_base_rect(anchor, it, frame);
                    let fs = it.fullscreen;
                    let left = anchor.is_right();
                    let sx = if fs {
                        frame.x as int
                    } else if left {
                        sat_sub(base.x as int, acc_w as int)
                    } else {
                        sat_add(base.x as int, acc_w as int)
                    };
                    let x = imin(imax(sx, frame.x as int), sat_sub(frame.spec_right(), it.width as int));
                    lemma_intersection_on_frame(Rect {
                        x: x as u16,
                        y: if fs { frame.y } else { base.y },
                        width: it.width,
                        height: if fs { frame.height } else { base.height },
                    }, frame);
                },
                StackingPolicy::Grid { .. } => {
                    if !it.fullscreen {
                        let p = grid.0[idx]->Some_0;
                        let base = spec_base_rect(anchor, it, frame);
                        let ox: u16 = if p.col < grid.1.len() { grid.1[p.col as int] } else { 0u16 };
                        let oy: u16 = if p.row < grid.2.len() { grid.2[p.row as int] } else { 0u16 };
                        let sx = if anchor.is_right() {
                            sat_sub(base.x as int, ox as int)
                        } else {
                            sat_add(base.x as int, ox as int)
                        };
                        let sy = if anchor.is_bottom() {
                            sat_sub(base.y as int, oy as int)
                        } else {
                            sat_add(base.y as int, oy as int)
                        };
                        lemma_intersection_on_frame(Rect {
                            x: imax(sx, frame.x as int) as u16,
                            y: imax(sy, frame.y as int) as u16,
                            width: it.width,
                            height: it.height,
                        }, frame);
                    }
                },
                StackingPolicy::Single => {},
            }
        }
    }
}

/// Every placement from position `k` on is on the frame, names a real item by
/// index and id, and comes later in the walk than the ones before it.
proof fn lemma_plan_run_props(
    anchor: Anchor,
    v: Seq<LayoutItem>,
    frame: Rect,
    policy: StackingPolicy,
    grid: GridView,
    k: int,
    acc_h: u16,
    acc_w: u16,
    avail_h: u16,
    avail_w: u16,
)
    requires
        0 <= k,
        v.len() <= usize::MAX,
    ensures
        ({
            let p = plan_run(anchor, v, frame, policy, grid, k, acc_h, acc_w, avail_h, avail_w);
            let up = anchor.is_bottom();
            let n = v.len() as int;
            &&& p.len() <= n - k || (k >= n && p.len() == 0)
            &&& forall|i: int| #![trigger p[i]] 0 <= i < p.len() ==> {
                &&& on_frame(p[i].rect, frame)
                &&& p[i].index < n
                &&& p[i].id == v[p[i].index as int].id
                &&& walk_pos(up, n, p[i].index as int) >= k
            }
            &&& forall|i: int, j: int| #![trigger p[i], p[j]] 0 <= i < j < p.len() ==>
                walk_pos(up, n, p[i].index as int) < walk_pos(up, n, p[j].index as int)
        }),
    decreases v.len() - k,
{
    if k < v.len() {
        let up = anchor.is_bottom();
        let n = v.len() as int;
        let idx = order_idx(up, n, k);
        let (r, needed) = spec_stack_rect(anchor, v[idx], frame, policy, grid, idx, acc_h, acc_w, avail_h, avail_w);
        lemma_stack_rect_on_frame(anchor, v[idx], frame, policy, grid, idx, acc_h, acc_w, avail_h, avail_w);
        if let Some(rect) = r {
            let nh = if policy is Vertical { sat_add(acc_h as int, needed as int) as u16 } else { acc_h };
            let nw = if policy is Horizontal { sat_add(acc_w as int, needed as int) as u16 } else { acc_w };
            lemma_plan_run_props(anchor, v, frame, policy, grid, k + 1, nh, nw, avail_h, avail_w);
            let rest = plan_run(anchor, v, frame, policy, grid, k + 1, nh, nw, avail_h, avail_w);
            let p = plan_run(anchor, v, frame, policy, grid, k, acc_h, acc_w, avail_h, avail_w);
            if rect.width > 0 && rect.height > 0 {
                let head = PlannedRect { index: idx as usize, id: v[idx].id, rect };
                assert(p == seq![head] + rest);
                assert forall|i: int| #![trigger p[i]] 0 <= i < p.len() implies {
                    &&& on_frame(p[i].rect, frame)
                    &&& p[i].index < n
                    &&& p[i].id == v[p[i].index as int].id
                    &&& walk_pos(up, n, p[i].index as int) >= k
                } by {
                    if i > 0 {
                        assert(p[i] == rest[i - 1]);
                        assert(on_frame(rest[i - 1].rect, frame));
                    } else {
                        assert(p[0] == head);
                        assert(on_frame(rect, frame));
                        assert(0 <= idx < n);
                    }
                }
                assert forall|i: int, j: int| #![trigger p[i], p[j]] 0 <= i < j < p.len() implies
                    walk_pos(up, n, p[i].index as int) < walk_pos(up, n, p[j].index as int) by {
                    assert(p[j] == rest[j - 1]);
                    if i > 0 {
                        assert(p[i] == rest[i - 1]);
                    } else {
                        assert(p[0] == head);
                        assert(walk_pos(up, n, idx) == k);
                    }
                }
            } else {
                assert(p == rest);
            }
        }
    }
}

/// Law: every placement in a plan is a non-empty rectangle wholly on the
/// frame, names an item of the visible list by index and id, and placements
/// come in walk order (oldest first, newest first at bottom anchors) without
/// repeats; a plan has at most one placement per item, and at most one under
/// the single policy.
pub proof fn lemma_plan_well_placed(anchor: Anchor, v: Seq<LayoutItem>, frame: Rect, policy: StackingPolicy)
    requires
        v.len() <= usize::MAX,
    ensures
        ({
            let p = spec_plan(anchor, v, frame, policy);
            let up = anchor.is_bottom();
            let n = v.len() as int;
            &&& p.len() <= n
            &&& policy is Single ==> p.len() <= 1
            &&& forall|i: int| #![trigger p[i]] 0 <= i < p.len() ==> {
                &&& on_frame(p[i].rect, frame)
                &&& p[i].index < n
                &&& p[i].id == v[p[i].index as int].id
            }
            &&& forall|i: int, j: int| #![trigger p[i], p[j]] 0 <= i < j < p.len() ==>
                walk_pos(up, n, p[i].index as int) < walk_pos(up, n, p[j].index as int)
        }),
{
    let w = considered(v, policy);
    let grid = spec_plan_grid(anchor, w, frame, policy);
    if v.len() > 0 {
        lemma_plan_run_props(anchor, w, frame, policy, grid, 0, 0, 0, spec_avail_h(anchor, frame), spec_avail_w(anchor, frame));
        let p = spec_plan(anchor, v, frame, policy);
        let up = anchor.is_bottom();
        if policy is Single && v.len() > 1 {
            assert forall|i: int| #![trigger p[i]] 0 <= i < p.len() implies p[i].id == v[p[i].index as int].id by {
                assert(p[i].index < 1);
                assert(w[p[i].index as int] == v[p[i].index as int]);
            }
        }
    }
}


/// A frame whose right and bottom edges fit in 16 bits.
pub open spec fn frame_in_range(frame: Rect) -> bool {
    frame.x + frame.width <= 0xFFFF && frame.y + frame.height <= 0xFFFF
}

/// The fullscreen items are sized to the frame.
pub open spec fn fullscreen_sized(v: Seq<LayoutItem>, frame: Rect) -> bool {
    forall|i: int| 0 <= i < v.len() && #[trigger] v[i].fullscreen ==> v[i].width == frame.width && v[i].height
        == frame.height
}

proof fn lemma_stack_rect_fullscreen(
    anchor: Anchor,
    it: LayoutItem,
    frame: Rect,
    policy: StackingPolicy,
    grid: GridView,
    idx: int,
    acc_h: u16,
    acc_w: u16,
    avail_h: u16,
    avail_w: u16,
)
    requires
        it.fullscreen,
        it.width == frame.width,
        it.height == frame.height,
        frame_in_range(frame),
    ensures
        spec_stack_rect(anchor, it, frame, policy, grid, idx, acc_h, acc_w, avail_h, avail_w).0 == Some(frame),
{
    reveal(spec_stack_rect);
    assert(frame.spec_intersection(frame) == frame);
}

proof fn lemma_run_fullscreen(
    anchor: Anchor,
    v: Seq<LayoutItem>,
    frame: Rect,
    policy: StackingPolicy,
    grid: GridView,
    k: int,
    acc_h: u16,
    acc_w: u16,
    avail_h: u16,
    avail_w: u16,
)
    requires
        0 <= k,
        v.len() <= usize::MAX,
        frame_in_range(frame),
        fullscreen_sized(v, frame),
    ensures
        ({
            let p = plan_run(anchor, v, frame, policy, grid, k, acc_h, acc_w, avail_h, avail_w);
            forall|i: int| #![trigger p[i]] 0 <= i < p.len() ==> (p[i].index < v.len() && (v[p[i].index as int].fullscreen
                ==> p[i].rect == frame))
        }),
    decreases v.len() - k,
{
    if k < v.len() {
        let up = anchor.is_bottom();
        let n = v.len() as int;
        let idx = order_idx(up, n, k);
        let (r, needed) = spec_stack_rect(anchor, v[idx], frame, policy, grid, idx, acc_h, acc_w, avail_h, avail_w);
        if v[idx].fullscreen {
            lemma_stack_rect_fullscreen(anchor, v[idx], frame, policy, grid, idx, acc_h, acc_w, avail_h, avail_w);
        }
        if let Some(rect) = r {
            let nh = if policy is Vertical { sat_add(acc_h as int, needed as int) as u16 } else { acc_h };
            let nw = if policy is Horizontal { sat_add(acc_w as int, needed as int) as u16 } else { acc_w };
            lemma_run_fullscreen(anchor, v, frame, policy, grid, k + 1, nh, nw, avail_h, avail_w);
            let rest = plan_run(anchor, v, frame, policy, grid, k + 1, nh, nw, avail_h, avail_w);
            let p = plan_run(anchor, v, frame, policy, grid, k, acc_h, acc_w, avail_h, avail_w);
            if rect.width > 0 && rect.height > 0 {
                let head = PlannedRect { index: idx as usize, id: v[idx].id, rect };
                assert(p == seq![head] + rest);
                assert forall|i: int| #![trigger p[i]] 0 <= i < p.len() implies (p[i].index < v.len() && (v[
                    p[i].index as int].fullscreen ==> p[i].rect == frame)) by {
                    if i > 0 {
                        assert(p[i] == rest[i - 1]);
                    }
                }
            }
        }
    }
}

/// Law: a fullscreen item (which the visible list sizes to the frame) is
/// placed on the whole frame, whatever the anchor and stacking policy.
pub proof fn lemma_fullscreen_fills_frame(anchor: Anchor, v: Seq<LayoutItem>, frame: Rect, policy: StackingPolicy)
    requires
        v.len() <= usize::MAX,
        frame_in_range(frame),
        fullscreen_sized(v, frame),
    ensures
        ({
            let p = spec_plan(anchor, v, frame, policy);
            forall|i: int| #![trigger p[i]] 0 <= i < p.len() && v[p[i].index as int].fullscreen ==> p[i].rect == frame
        }),
{
    let w = considered(v, policy);
    let grid = spec_plan_grid(anchor, w, frame, policy);
    if v.len() > 0 {
        assert(fullscreen_sized(w, frame)) by {
            assert forall|i: int| 0 <= i < w.len() && #[trigger] w[i].fullscreen implies w[i].width == frame.width
                && w[i].height == frame.height by {
                assert(w[i] == v[i]);
            }
        }
        lemma_run_fullscreen(anchor, w, frame, policy, grid, 0, 0, 0, spec_avail_h(anchor, frame), spec_avail_w(anchor, frame));
        let p = spec_plan(anchor, v, frame, policy);
        assert forall|i: int| #![trigger p[i]] 0 <= i < p.len() && v[p[i].index as int].fullscreen implies p[i].rect
            == frame by {
            assert(p[i].index < w.len());
            assert(w[p[i].index as int] == v[p[i].index as int]);
        }
    }
}

/// Position of a named anchor in rendering order (top row first, left to
/// right); absolute anchors come after all of them.
pub open spec fn anchor_rank(a: Anchor) -> int {
    match a {
        Anchor::TopLeft => 0,
        Anchor::TopCenter => 1,
        Anchor::TopRight => 2,
        Anchor::MiddleLeft => 3,
        Anchor::Center => 4,
        Anchor::MiddleRight => 5,
        Anchor::BottomLeft => 6,
        Anchor::BottomCenter => 7,
        Anchor::BottomRight => 8,
        Anchor::Absolute(_, _) => 9,
    }
}

/// How an anchor is written out: `Absolute(x, y)` for absolute anchors.
pub open spec fn anchor_label(a: Anchor) -> Seq<char> {
    match a {
        Anchor::Absolute(x, y) => "Absolute("@ + dec(x as nat) + ", "@ + dec(y as nat) + ")"@,
        _ => Seq::empty(),
    }
}

/// `a` renders strictly before `b`: by rank, and absolute anchors by their text.
pub open spec fn anchor_before(a: Anchor, b: Anchor) -> bool {
    anchor_rank(a) < anchor_rank(b) || (anchor_rank(a) == 9 && anchor_rank(b) == 9 && lex_lt(
        anchor_label(a),
        anchor_label(b),
    ))
}

/// The anchors are in rendering order.
pub open spec fn in_render_order(s: Seq<Anchor>) -> bool {
    forall|i: int, j: int| 0 <= i < j < s.len() ==> !anchor_before(#[trigger] s[j], #[trigger] s[i])
}

fn rank_of(a: Anchor) -> (r: u8)
    ensures
        r == anchor_rank(a),
{
    match a {
        Anchor::TopLeft => 0,
        Anchor::TopCenter => 1,
        Anchor::TopRight => 2,
        Anchor::MiddleLeft => 3,
        Anchor::Center => 4,
        Anchor::MiddleRight => 5,
        Anchor::BottomLeft => 6,
        Anchor::BottomCenter => 7,
        Anchor::BottomRight => 8,
        Anchor::Absolute(_, _) => 9,
    }
}

/// The text an anchor is written as (empty for named anchors).
pub fn anchor_text(a: Anchor) -> (r: String)
    ensures
        r@ == anchor_label(a),
{
    match a {
        Anchor::Absolute(x, y) => {
            let mut s = String::from_str("Absolute(");
            push_decimal(&mut s, x as u64);
            s.append(", ");
            push_decimal(&mut s, y as u64);
            s.append(")");
            s
        },
        _ => String::new(),
    }
}

fn before(a: Anchor, b: Anchor) -> (r: bool)
    ensures
        r == anchor_before(a, b),
{
    let ra = rank_of(a);
    let rb = rank_of(b);
    if ra < rb {
        true
    } else if ra == 9 && rb == 9 {
        let la = anchor_text(a);
        let lb = anchor_text(b);
        str_lt(la.as_str(), lb.as_str())
    } else {
        false
    }
}

proof fn lemma_before_order(a: Anchor, b: Anchor, c: Anchor)
    ensures
        !anchor_before(a, a),
        anchor_before(a, b) ==> !anchor_before(b, a),
        !anchor_before(b, a) && !anchor_before(c, b) ==> !anchor_before(c, a),
{
    lemma_lex_irrefl(anchor_label(a));
    lemma_lex_asym(anchor_label(a), anchor_label(b));
    lemma_lex_le_trans(anchor_label(a), anchor_label(b), anchor_label(c));
}

/// Index of the first anchor that renders no later than any other.
fn first_in_order(v: &Vec<Anchor>) -> (r: usize)
    requires
        v.len() > 0,
    ensures
        r < v.len(),
        forall|j: int| 0 <= j < v.len() ==> !anchor_before(#[trigger] v@[j], v@[r as int]),
{
    let mut best: usize = 0;
    let mut i: usize = 1;
    proof {
        lemma_before_order(v@[0], v@[0], v@[0]);
    }
    while i < v.len()
        invariant
            1 <= i <= v.len(),
            best < i,
            forall|j: int| 0 <= j < i ==> !anchor_before(#[trigger] v@[j], v@[best as int]),
        decreases v.len() - i,
    {
        if before(v[i], v[best]) {
            proof {
                assert forall|j: int| 0 <= j < i + 1 implies !anchor_before(#[trigger] v@[j], v@[i as int]) by {
                    lemma_before_order(v@[i as int], v@[best as int], v@[j]);
                    lemma_before_order(v@[j], v@[best as int], v@[i as int]);
                    lemma_before_order(v@[i as int], v@[i as int], v@[i as int]);
                    if anchor_before(v@[j], v@[i as int]) {
                        lemma_before_trans(v@[j], v@[i as int], v@[best as int]);
                    }
                }
            }
            best = i;
        }
        i = i + 1;
    }
    best
}

proof fn lemma_before_trans(a: Anchor, b: Anchor, c: Anchor)
    requires
        anchor_before(a, b),
        anchor_before(b, c),
    ensures
        anchor_before(a, c),
{
    lemma_lex_trans(anchor_label(a), anchor_label(b), anchor_label(c));
}

/// The order in which anchors are rendered: the nine named anchors from the
/// top-left across and down to the bottom-right, then absolute anchors
/// sorted by their written form.
pub fn render_order(anchors: &Vec<Anchor>) -> (r: Vec<Anchor>)
    ensures
        r@.to_multiset() == anchors@.to_multiset(),
        in_render_order(r@),
{
    broadcast use vstd::seq_lib::group_to_multiset_ensures;

    let mut rest = anchors.clone();
    proof {
        assert(rest@ =~= anchors@);
    }
    let ghost all = anchors@;
    let mut out: Vec<Anchor> = Vec::new();
    while rest.len() > 0
        invariant
            out@.to_multiset().add(rest@.to_multiset()) == all.to_multiset(),
            in_render_order(out@),
            forall|a: int, b: int| 0 <= a < out@.len() && 0 <= b < rest@.len() ==> !anchor_before(rest@[b], out@[a]),
        decreases rest@.len(),
    {
        let j = first_in_order(&rest);
        let ghost prev = rest@;
        let x = rest.remove(j);
        proof {
            vstd::seq_lib::to_multiset_remove(prev, j as int);
            assert(prev[j as int] == x);
            assert(prev.contains(x));
            prev.to_multiset_ensures();
            assert(prev.to_multiset().count(x) > 0);
            assert forall|b: int| 0 <= b < rest@.len() implies !anchor_before(rest@[b], x) by {
                let b2 = if b < j { b } else { b + 1 };
                assert(rest@[b] == prev[b2]);
            }
        }
        let ghost out_prev = out@;
        out.push(x);
        proof {
            vstd::seq_lib::to_multiset_build(out_prev, x);
            assert(out@.to_multiset().add(rest@.to_multiset()) =~= all.to_multiset());
            assert forall|a: int, b: int| 0 <= a < out@.len() && 0 <= b < rest@.len() implies !anchor_before(
                rest@[b],
                out@[a],
            ) by {
                let b2 = if b < j { b } else { b + 1 };
                assert(rest@[b] == prev[b2]);
            }
            assert forall|a: int, b: int| 0 <= a < b < out@.len() implies !anchor_before(
                #[trigger] out@[b],
                #[trigger] out@[a],
            ) by {
                if b == out@.len() - 1 {
                    assert(prev[j as int] == out@[b]);
                }
            }
        }
    }
    proof {
        assert(rest@.to_multiset() =~= Multiset::empty());
        assert(out@.to_multiset().add(Multiset::empty()) =~= out@.to_multiset());
    }
    out
}

} // verus!
