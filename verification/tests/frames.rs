use tui_vfx_recipes::geometry::Rect;
use tui_vfx_recipes::grid::{in_area, translate, CellGrid};
use tui_vfx_recipes::theme::FrameContent;

fn frame(tl: &str, tr: &str, bl: &str, br: &str, top: &str, bottom: &str, left: &str, right: &str) -> FrameContent {
    FrameContent {
        top_left: tl.to_string(),
        top_right: tr.to_string(),
        bottom_left: bl.to_string(),
        bottom_right: br.to_string(),
        top: top.to_string(),
        bottom: bottom.to_string(),
        left: left.to_string(),
        right: right.to_string(),
    }
}

#[test]
fn frame_cells_draw_corners_edges_and_sides() {
    let f = frame("+", "+", "+", "+", "-=", "_", "|", "!");
    let cells = f.frame_cells(Rect::new(0, 0, 5, 3), Rect::new(0, 0, 80, 24));
    let expected = vec![
        (0, 0, '+'),
        (4, 0, '+'),
        (0, 2, '+'),
        (4, 2, '+'),
        (1, 0, '-'),
        (2, 0, '='),
        (3, 0, '-'),
        (1, 2, '_'),
        (2, 2, '_'),
        (3, 2, '_'),
        (0, 1, '|'),
        (4, 1, '!'),
    ];
    assert_eq!(cells, expected);
}

#[test]
fn frame_cells_skip_small_areas() {
    let f = frame("+", "+", "+", "+", "-", "-", "|", "|");
    assert!(f.frame_cells(Rect::new(0, 0, 1, 5), Rect::new(0, 0, 80, 24)).is_empty());
    assert!(f.frame_cells(Rect::new(0, 0, 5, 1), Rect::new(0, 0, 80, 24)).is_empty());
}

#[test]
fn frame_cells_keep_long_strings_on_the_border() {
    let f = frame("ab", "xyz", "", "", "", "", "LM", "RS");
    let cells = f.frame_cells(Rect::new(0, 0, 4, 3), Rect::new(0, 0, 5, 3));
    assert_eq!(cells, vec![(0, 0, 'a'), (3, 0, 'x'), (0, 1, 'L'), (3, 1, 'R')]);
    let edge = f.frame_cells(Rect::new(2, 0, 4, 3), Rect::new(0, 0, 5, 3));
    assert_eq!(edge, vec![(2, 0, 'a'), (2, 1, 'L')]);
}

#[test]
fn grid_set_then_get() {
    let mut g = CellGrid::from_cells(vec!['.'; 6], 3, 2);
    assert_eq!(g.index(2, 1), Some(5));
    assert_eq!(g.index(3, 0), None);
    g.set(1, 1, '#');
    assert_eq!(g.get(1, 1), Some(&'#'));
    assert_eq!(g.get(1, 0), Some(&'.'));
    g.set(5, 5, '#');
    assert_eq!(g.cells.iter().filter(|c| **c == '#').count(), 1);
}

#[test]
fn translate_and_area_bounds() {
    assert_eq!(translate(10, 20, 3, 4), (13, 24));
    assert_eq!(translate(65530, 0, 10, 0), (65535, 0));
    assert_eq!(translate(3, 4, 65536, 65537), (65535, 65535));
    assert!(!in_area(Rect::new(0, 0, 65535, 65535), 65535, 65535));
    let area = Rect::new(2, 2, 3, 3);
    assert!(in_area(area, 2, 2));
    assert!(in_area(area, 4, 4));
    assert!(!in_area(area, 5, 4));
    assert!(!in_area(area, 1, 3));
}
