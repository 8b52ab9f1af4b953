use tui_vfx_recipes::geometry::{anchor_position, compute_dwell_rect, Anchor, Rect, SignedRect};
use tui_vfx_recipes::layout::{
    build_grid_layout, plan_anchor, plan_stack, render_order, visible_items, GridPlacement, LayoutItem,
};
use tui_vfx_recipes::types::StackingPolicy;

fn frame() -> Rect {
    Rect::new(0, 0, 100, 50)
}

fn dwell(anchor: Anchor, margin: u16) -> SignedRect {
    compute_dwell_rect(anchor, 0, 0, 0, 0, frame(), 20, 10, margin)
}

#[test]
fn test_top_left_margin_delta() {
    let no_margin = dwell(Anchor::TopLeft, 0);
    let with_margin = dwell(Anchor::TopLeft, 5);
    assert_eq!(with_margin.x - no_margin.x, 5);
    assert_eq!(with_margin.y - no_margin.y, 5);
    assert_eq!(with_margin.width, no_margin.width);
    assert_eq!(with_margin.height, no_margin.height);
}

#[test]
fn test_bottom_right_margin_delta() {
    let no_margin = dwell(Anchor::BottomRight, 0);
    let with_margin = dwell(Anchor::BottomRight, 5);
    assert_eq!(with_margin.x - no_margin.x, -5);
    assert_eq!(with_margin.y - no_margin.y, -5);
}

#[test]
fn test_center_anchor_no_margin_effect() {
    let no_margin = dwell(Anchor::Center, 0);
    let with_margin = dwell(Anchor::Center, 5);
    assert_eq!(with_margin.x, no_margin.x);
    assert_eq!(with_margin.y, no_margin.y);
}

#[test]
fn test_zero_margin_preserves_base() {
    let result = dwell(Anchor::TopLeft, 0);
    assert_eq!(result.x, 0);
    assert_eq!(result.y, 0);
    assert_eq!(result.width, 20);
    assert_eq!(result.height, 10);
}

#[test]
fn test_top_center_only_vertical_margin() {
    let no_margin = dwell(Anchor::TopCenter, 0);
    let with_margin = dwell(Anchor::TopCenter, 5);
    assert_eq!(with_margin.x, no_margin.x);
    assert_eq!(with_margin.y - no_margin.y, 5);
}

#[test]
fn test_middle_left_only_horizontal_margin() {
    let no_margin = dwell(Anchor::MiddleLeft, 0);
    let with_margin = dwell(Anchor::MiddleLeft, 5);
    assert_eq!(with_margin.x - no_margin.x, 5);
    assert_eq!(with_margin.y, no_margin.y);
}

#[test]
fn test_middle_right_margin_delta() {
    let no_margin = dwell(Anchor::MiddleRight, 0);
    let with_margin = dwell(Anchor::MiddleRight, 5);
    assert_eq!(with_margin.x - no_margin.x, -5);
    assert_eq!(with_margin.y, no_margin.y);
}

#[test]
fn test_bottom_left_margin_delta() {
    let no_margin = dwell(Anchor::BottomLeft, 0);
    let with_margin = dwell(Anchor::BottomLeft, 5);
    assert_eq!(with_margin.x - no_margin.x, 5);
    assert_eq!(with_margin.y - no_margin.y, -5);
}

#[test]
fn test_bottom_center_margin_delta() {
    let no_margin = dwell(Anchor::BottomCenter, 0);
    let with_margin = dwell(Anchor::BottomCenter, 5);
    assert_eq!(with_margin.x, no_margin.x);
    assert_eq!(with_margin.y - no_margin.y, -5);
}

#[test]
fn anchored_positions_use_visual_center() {
    // Centre: x = (100 - 20) / 2 = 40, y = 45% of 50 = 22, minus half the height 5.
    let r = dwell(Anchor::Center, 0);
    assert_eq!((r.x, r.y), (40, 17));
    let r = dwell(Anchor::BottomRight, 0);
    assert_eq!((r.x, r.y), (80, 40));
    let p = anchor_position(Anchor::BottomRight, frame());
    assert_eq!((p.x, p.y), (99, 49));
    let p = anchor_position(Anchor::Center, frame());
    assert_eq!((p.x, p.y), (50, 22));
}

fn item(id: u64, created_at: u64, width: u16, height: u16) -> LayoutItem {
    LayoutItem {
        id,
        created_at,
        width,
        height,
        margin: 0,
        fullscreen: false,
        off_h_percent_cells: 0,
        off_v_percent_cells: 0,
        offset_h_cells: 0,
        offset_v_cells: 0,
    }
}

#[test]
fn visible_items_are_oldest_first_and_clamped() {
    let items = vec![item(1, 30, 200, 5), item(2, 10, 20, 80), item(3, 20, 10, 10)];
    let v = visible_items(&items, frame());
    let ids: Vec<u64> = v.iter().map(|i| i.id).collect();
    assert_eq!(ids, vec![2, 3, 1]);
    assert_eq!((v[0].width, v[0].height), (20, 50));
    assert_eq!((v[2].width, v[2].height), (100, 5));
}

#[test]
fn vertical_stack_stops_when_full() {
    // Top-left stacks downward: 50 rows available, items 20 rows each with 2 rows between.
    let items = vec![item(1, 1, 10, 20), item(2, 2, 10, 20), item(3, 3, 10, 20)];
    let (v, plan) = plan_anchor(Anchor::TopLeft, &items, frame(), StackingPolicy::Vertical { spacing: 2 });
    assert_eq!(v.len(), 3);
    assert_eq!(plan.len(), 2);
    assert_eq!(plan[0].id, 1);
    assert_eq!(plan[0].rect, Rect::new(0, 0, 10, 20));
    assert_eq!(plan[1].id, 2);
    assert_eq!(plan[1].rect, Rect::new(0, 20, 10, 20));
}

#[test]
fn bottom_anchor_stacks_upward_newest_first() {
    let items = vec![item(1, 1, 10, 5), item(2, 2, 10, 5)];
    let (_, plan) = plan_anchor(Anchor::BottomLeft, &items, frame(), StackingPolicy::Vertical { spacing: 0 });
    assert_eq!(plan.len(), 2);
    assert_eq!(plan[0].id, 2);
    assert_eq!(plan[0].rect, Rect::new(0, 45, 10, 5));
    assert_eq!(plan[1].id, 1);
    assert_eq!(plan[1].rect, Rect::new(0, 40, 10, 5));
}

#[test]
fn horizontal_stack_from_the_right() {
    let items = vec![item(1, 1, 30, 5), item(2, 2, 30, 5), item(3, 3, 30, 5), item(4, 4, 30, 5)];
    let (_, plan) = plan_anchor(Anchor::TopRight, &items, frame(), StackingPolicy::Horizontal { spacing: 1 });
    let xs: Vec<u16> = plan.iter().map(|p| p.rect.x).collect();
    assert_eq!(xs, vec![70, 40, 9]);
}

#[test]
fn single_policy_shows_only_the_oldest() {
    let items = vec![item(7, 5, 10, 5), item(8, 1, 10, 5)];
    let (_, plan) = plan_anchor(Anchor::TopLeft, &items, frame(), StackingPolicy::Single);
    assert_eq!(plan.len(), 1);
    assert_eq!(plan[0].id, 8);
}

#[test]
fn grid_fills_rows_of_max_columns() {
    let v = vec![item(1, 1, 10, 4), item(2, 2, 12, 6), item(3, 3, 8, 3)];
    let g = build_grid_layout(&v, false, 50, 2, 1, 2);
    assert_eq!(g.placements, vec![
        Some(GridPlacement { row: 0, col: 0 }),
        Some(GridPlacement { row: 0, col: 1 }),
        Some(GridPlacement { row: 1, col: 0 }),
    ]);
    assert_eq!(g.column_offsets, vec![0, 12]);
    assert_eq!(g.row_offsets, vec![0, 7]);
    let (_, plan) = plan_anchor(
        Anchor::TopLeft,
        &v,
        frame(),
        StackingPolicy::Grid { max_columns: 2, row_spacing: 1, column_spacing: 2 },
    );
    let rects: Vec<Rect> = plan.iter().map(|p| p.rect).collect();
    assert_eq!(rects, vec![Rect::new(0, 0, 10, 4), Rect::new(12, 0, 12, 6), Rect::new(0, 7, 8, 3)]);
}

#[test]
fn grid_stops_when_rows_overflow() {
    let v = vec![item(1, 1, 10, 30), item(2, 2, 10, 30)];
    let g = build_grid_layout(&v, false, 50, 1, 0, 0);
    assert_eq!(g.placements, vec![Some(GridPlacement { row: 0, col: 0 }), None]);
}

#[test]
fn empty_grid_plans_nothing() {
    let v = vec![item(1, 1, 10, 60)];
    let plan = plan_stack(
        Anchor::TopLeft,
        &visible_items(&v, Rect::new(0, 0, 100, 20)),
        Rect::new(0, 0, 100, 20),
        StackingPolicy::Grid { max_columns: 3, row_spacing: 0, column_spacing: 0 },
    );
    assert_eq!(plan.len(), 1);
    let plan = plan_stack(
        Anchor::BottomLeft,
        &v,
        Rect::new(0, 0, 100, 20),
        StackingPolicy::Grid { max_columns: 3, row_spacing: 0, column_spacing: 0 },
    );
    assert!(plan.is_empty());
}

#[test]
fn fullscreen_items_fill_the_frame() {
    let mut it = item(1, 1, 5, 5);
    it.fullscreen = true;
    let (v, plan) = plan_anchor(Anchor::Center, &vec![it], frame(), StackingPolicy::Single);
    assert_eq!((v[0].width, v[0].height), (100, 50));
    assert_eq!(plan[0].rect, frame());
}

#[test]
fn render_order_named_then_absolute_by_text() {
    let anchors = vec![
        Anchor::Absolute(9, 1),
        Anchor::BottomRight,
        Anchor::Absolute(10, 2),
        Anchor::TopLeft,
        Anchor::Center,
    ];
    let order = render_order(&anchors);
    assert_eq!(order, vec![
        Anchor::TopLeft,
        Anchor::Center,
        Anchor::BottomRight,
        Anchor::Absolute(10, 2),
        Anchor::Absolute(9, 1),
    ]);
}

#[test]
fn fullscreen_item_covers_the_frame_under_every_policy() {
    let mut big = item(1, 0, 20, 5);
    big.fullscreen = true;
    let items = vec![big, item(2, 1, 20, 5)];
    for policy in [
        StackingPolicy::Vertical { spacing: 1 },
        StackingPolicy::Horizontal { spacing: 1 },
        StackingPolicy::Grid { max_columns: 2, row_spacing: 0, column_spacing: 0 },
        StackingPolicy::Single,
    ] {
        let (v, plan) = plan_anchor(Anchor::BottomRight, &items, frame(), policy);
        let full = plan.iter().find(|p| v[p.index].fullscreen).expect("fullscreen item is planned");
        assert_eq!(full.rect, frame());
    }
}

#[test]
fn huge_offsets_saturate_off_the_frame() {
    let far = compute_dwell_rect(Anchor::TopLeft, i32::MAX, 0, 10, 0, frame(), 20, 10, 5);
    assert_eq!(far.x, i32::MAX);
    assert_eq!(far.y, 5);
    let low = compute_dwell_rect(Anchor::BottomRight, 0, i32::MAX, 0, 100, frame(), 20, 10, 0);
    assert_eq!(low.y, i32::MIN);
    let left = compute_dwell_rect(Anchor::TopRight, i32::MAX, 0, 1, 0, frame(), 20, 10, 3);
    assert_eq!(left.x as i64, 80 - (i32::MAX as i64 + 1) - 3);
    // Far-off items stay in the plan's visible list but get no placement.
    let mut gone = item(2, 2, 10, 5);
    gone.off_h_percent_cells = i32::MAX;
    let items = vec![item(1, 1, 10, 5), gone];
    let (v, plan) = plan_anchor(Anchor::TopLeft, &items, frame(), StackingPolicy::Vertical { spacing: 1 });
    assert_eq!(v.len(), 2);
    assert_eq!(plan.len(), 1);
    assert_eq!(plan[0].id, 1);
    assert_eq!(plan[0].rect, Rect::new(0, 0, 10, 5));
}

#[test]
fn grid_with_unlimited_height_fills_row_by_row() {
    let v: Vec<LayoutItem> = (0..5).map(|i| item(i, i, 4, 30)).collect();
    let g = build_grid_layout(&v, true, u16::MAX, 2, 1, 1);
    // Walking up, item 4 comes first.
    let expected: Vec<Option<GridPlacement>> = (0..5usize)
        .map(|i| {
            let j = 4 - i;
            Some(GridPlacement { row: j / 2, col: j % 2 })
        })
        .collect();
    assert_eq!(g.placements, expected);
    let mut fs = item(9, 9, 4, 3);
    fs.fullscreen = true;
    let g = build_grid_layout(&vec![item(1, 1, 4, 3), fs, item(2, 2, 4, 3)], false, u16::MAX, 3, 0, 0);
    assert_eq!(g.placements[1], None);
    assert!(g.placements.iter().flatten().all(|p| p.col < 2));
}
