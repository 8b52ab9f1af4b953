use tui_vfx_recipes::geometry::{Anchor, Rect};
use tui_vfx_recipes::manager::AnimationManager;
use tui_vfx_recipes::state::{Animated, AnimationPhase, LifecycleState, LifecycleTiming};
use tui_vfx_recipes::types::{Animation, AutoDismiss, OverflowPolicy, StackingPolicy};

const MS: u64 = 1_000_000;

#[derive(Debug, Clone, PartialEq)]
struct Toast {
    name: &'static str,
    anchor: Anchor,
    timing: LifecycleTiming,
}

fn timing(animation: Animation, auto: AutoDismiss) -> LifecycleTiming {
    LifecycleTiming {
        animation,
        exit_animation: None,
        auto_dismiss: auto,
        enter_ms: 100,
        exit_ms: 200,
        loop_period_ms: None,
    }
}

fn toast(name: &'static str) -> Toast {
    Toast { name, anchor: Anchor::BottomRight, timing: timing(Animation::Slide, AutoDismiss::After(1000)) }
}

impl Animated for Toast {
    // What each property method returns, named for the library's contracts.
    fn spec_anchor(&self) -> Anchor {
        self.anchor()
    }
    fn spec_timing(&self) -> LifecycleTiming {
        self.timing()
    }
    fn spec_width(&self) -> u16 {
        self.width()
    }
    fn spec_height(&self) -> u16 {
        self.height()
    }
    fn spec_exterior_margin(&self) -> u16 {
        self.exterior_margin()
    }
    fn spec_is_fullscreen(&self) -> bool {
        self.is_fullscreen()
    }
    fn spec_offset_h_percent_cells(&self, frame: Rect) -> i32 {
        self.offset_h_percent_cells(frame)
    }
    fn spec_offset_v_percent_cells(&self, frame: Rect) -> i32 {
        self.offset_v_percent_cells(frame)
    }
    fn spec_offset_h_cells(&self) -> i16 {
        self.offset_h_cells()
    }
    fn spec_offset_v_cells(&self) -> i16 {
        self.offset_v_cells()
    }

    fn anchor(&self) -> Anchor {
        self.anchor
    }
    fn timing(&self) -> LifecycleTiming {
        self.timing
    }
    fn width(&self) -> u16 {
        20
    }
    fn height(&self) -> u16 {
        3
    }
    fn exterior_margin(&self) -> u16 {
        0
    }
    fn is_fullscreen(&self) -> bool {
        false
    }
    fn offset_h_percent_cells(&self, _frame: Rect) -> i32 {
        0
    }
    fn offset_v_percent_cells(&self, _frame: Rect) -> i32 {
        0
    }
    fn offset_h_cells(&self) -> i16 {
        0
    }
    fn offset_v_cells(&self) -> i16 {
        0
    }
}

#[test]
fn add_skips_existing_ids_after_wrap() {
    let mut manager = AnimationManager::new();
    let now = 0;
    let first = manager.add(toast("first"), now).unwrap();

    manager.next_id = first;
    let second = manager.add(toast("second"), now).unwrap();

    assert_ne!(first, second);
    assert!(manager.get_state(first).is_some());
    assert!(manager.get_state(second).is_some());
}

#[test]
fn ids_wrap_around_the_id_space() {
    let mut manager = AnimationManager::new();
    manager.next_id = u64::MAX;
    let a = manager.add(toast("a"), 0).unwrap();
    let b = manager.add(toast("b"), 0).unwrap();
    assert_eq!(a, u64::MAX);
    assert_eq!(b, 0);
}

#[test]
fn lifecycle_runs_enter_dwell_exit_finish() {
    let mut s = LifecycleState::new(1, toast("x"), 0);
    assert_eq!(s.phase, AnimationPhase::Entering);
    s.tick(50 * MS, 4000);
    assert_eq!(s.phase, AnimationPhase::Entering);
    s.tick(100 * MS, 4000);
    assert_eq!(s.phase, AnimationPhase::Dwelling);
    assert_eq!(s.dwell_start, Some(100 * MS));
    s.tick(1099 * MS, 4000);
    assert_eq!(s.phase, AnimationPhase::Dwelling);
    s.tick(1100 * MS, 4000);
    assert_eq!(s.phase, AnimationPhase::Exiting);
    assert_eq!(s.exit_start, Some(1100 * MS));
    s.tick(1300 * MS, 4000);
    assert_eq!(s.phase, AnimationPhase::Finished);
}

#[test]
fn immediate_items_start_dwelling_and_finish_on_dismiss() {
    let t = Toast { timing: timing(Animation::Immediate, AutoDismiss::Manual), ..toast("x") };
    let mut s = LifecycleState::new(1, t, 7);
    assert_eq!(s.phase, AnimationPhase::Dwelling);
    s.tick(1_000_000 * MS, 4000);
    assert_eq!(s.phase, AnimationPhase::Dwelling);
    s.dismiss(8);
    assert_eq!(s.phase, AnimationPhase::Finished);
}

#[test]
fn zero_auto_dismiss_uses_manager_default() {
    let t = Toast { timing: timing(Animation::Fade, AutoDismiss::After(0)), ..toast("x") };
    let mut s = LifecycleState::new(1, t, 0);
    s.tick(100 * MS, 500);
    assert_eq!(s.phase, AnimationPhase::Dwelling);
    s.tick(599 * MS, 500);
    assert_eq!(s.phase, AnimationPhase::Dwelling);
    s.tick(600 * MS, 500);
    assert_eq!(s.phase, AnimationPhase::Exiting);
}

#[test]
fn phase_progress_reports_fraction_parts() {
    let s = LifecycleState::new(1, toast("x"), 0);
    let p = s.phase_progress(40 * MS);
    assert_eq!(p.elapsed_nanos, 40 * MS);
    assert_eq!(p.duration_ms, 100);
}

#[test]
fn tick_removes_finished_items() {
    let mut manager = AnimationManager::new();
    let id = manager.add(toast("a"), 0).unwrap();
    manager.add(toast("b"), 500 * MS).unwrap();
    assert!(manager.dismiss(id, 10 * MS));
    manager.tick(300 * MS);
    assert!(manager.get_state(id).is_none());
    assert_eq!(manager.states().len(), 1);
}

#[test]
fn dismiss_unknown_id_is_refused() {
    let mut manager: AnimationManager<Toast> = AnimationManager::new();
    assert!(!manager.dismiss(42, 0));
    assert!(!manager.remove(42));
}

#[test]
fn overflow_discards_oldest_by_default() {
    let mut manager = AnimationManager::new();
    manager.max_concurrent_per_anchor = 2;
    let a = manager.add(toast("a"), 1).unwrap();
    let b = manager.add(toast("b"), 2).unwrap();
    let c = manager.add(toast("c"), 3).unwrap();
    assert_eq!(manager.ids_at_anchor(Anchor::BottomRight), vec![b, c]);
    assert!(manager.get_state(a).is_none());
}

#[test]
fn overflow_reject_refuses_new_items() {
    let mut manager = AnimationManager::new();
    manager.max_concurrent_per_anchor = 1;
    manager.overflow = OverflowPolicy::Reject;
    let a = manager.add(toast("a"), 1).unwrap();
    assert_eq!(manager.add(toast("b"), 2), None);
    assert_eq!(manager.ids_at_anchor(Anchor::BottomRight), vec![a]);
}

#[test]
fn overflow_discard_newest_keeps_the_oldest() {
    let mut manager = AnimationManager::new();
    manager.max_concurrent_per_anchor = 2;
    manager.overflow = OverflowPolicy::DiscardNewest;
    let a = manager.add(toast("a"), 1).unwrap();
    let b = manager.add(toast("b"), 2).unwrap();
    let c = manager.add(toast("c"), 3).unwrap();
    assert_eq!(manager.ids_at_anchor(Anchor::BottomRight), vec![a, c]);
    assert!(manager.get_state(b).is_none());
}

#[test]
fn anchors_listed_once_in_first_use_order() {
    let mut manager = AnimationManager::new();
    manager.add(Toast { anchor: Anchor::TopLeft, ..toast("a") }, 1).unwrap();
    manager.add(toast("b"), 2).unwrap();
    manager.add(Toast { anchor: Anchor::TopLeft, ..toast("c") }, 3).unwrap();
    assert_eq!(manager.anchors(), vec![Anchor::TopLeft, Anchor::BottomRight]);
}

#[test]
fn manager_plans_live_items_at_an_anchor() {
    let mut manager = AnimationManager::new().with_stacking_policy(StackingPolicy::Vertical { spacing: 1 });
    let a = manager.add(toast("a"), 1).unwrap();
    let b = manager.add(toast("b"), 2).unwrap();
    let frame = Rect::new(0, 0, 80, 24);
    let (v, plan) = manager.plan_at(Anchor::BottomRight, frame);
    assert_eq!(v.len(), 2);
    assert_eq!(plan.len(), 2);
    assert_eq!(plan[0].id, b);
    assert_eq!(plan[0].rect, Rect::new(60, 21, 20, 3));
    assert_eq!(plan[1].id, a);
    assert_eq!(plan[1].rect, Rect::new(60, 18, 20, 3));
    manager.clear();
    assert!(manager.states().is_empty());
}

#[test]
fn render_plan_orders_anchors_and_places_items() {
    let mut manager = AnimationManager::new();
    let mut a = toast("absolute");
    a.anchor = Anchor::Absolute(5, 5);
    manager.add(a, 0).unwrap();
    manager.add(toast("bottom"), 0).unwrap();
    let mut t = toast("top");
    t.anchor = Anchor::TopLeft;
    manager.add(t, 0).unwrap();
    manager.add(toast("bottom again"), 0).unwrap();

    let plan = manager.render_plan(Rect::new(0, 0, 100, 50));
    let anchors: Vec<Anchor> = plan.iter().map(|g| g.anchor).collect();
    assert_eq!(anchors, vec![Anchor::TopLeft, Anchor::BottomRight, Anchor::Absolute(5, 5)]);
    assert_eq!(plan[0].items.len(), 1);
    assert_eq!(plan[1].items.len(), 2);
    assert_eq!(plan[0].rects.len(), 1);
    assert_eq!(plan[0].rects[0].rect, Rect::new(0, 0, 20, 3));
}

#[test]
fn added_item_is_what_get_state_returns() {
    let mut manager = AnimationManager::new();
    let id = manager.add(toast("hello"), 5).unwrap();
    manager.add(toast("other"), 6).unwrap();
    let state = manager.get_state(id).unwrap();
    assert_eq!(state.id, id);
    assert_eq!(state.item.name, "hello");
    assert_eq!(state.created_at, 5);
    assert_eq!(state.phase, AnimationPhase::Entering);
}

#[test]
fn plans_of_an_empty_manager_are_empty() {
    let manager: AnimationManager<Toast> = AnimationManager::new();
    let frame = Rect::new(0, 0, 80, 24);
    let (v, plan) = manager.plan_at(Anchor::Center, frame);
    assert!(v.is_empty());
    assert!(plan.is_empty());
    assert!(manager.render_plan(frame).is_empty());
}

#[test]
fn planned_items_are_the_live_states_at_the_anchor() {
    let mut manager = AnimationManager::new().with_stacking_policy(StackingPolicy::Vertical { spacing: 0 });
    let a = manager.add(Toast { anchor: Anchor::TopLeft, ..toast("a") }, 0).unwrap();
    let b = manager.add(Toast { anchor: Anchor::TopLeft, ..toast("b") }, MS).unwrap();
    manager.add(toast("elsewhere"), 0).unwrap();
    let (v, plan) = manager.plan_at(Anchor::TopLeft, Rect::new(0, 0, 80, 24));
    assert_eq!(v.iter().map(|i| i.id).collect::<Vec<_>>(), vec![a, b]);
    assert_eq!((v[0].width, v[0].height), (20, 3));
    assert_eq!(plan.len(), 2);
    assert_eq!((plan[0].id, plan[0].rect), (a, Rect::new(0, 0, 20, 3)));
    assert_eq!((plan[1].id, plan[1].rect), (b, Rect::new(0, 3, 20, 3)));
}

#[test]
fn reject_refuses_only_at_the_items_own_full_anchor() {
    let mut manager = AnimationManager::new();
    manager.max_concurrent_per_anchor = 1;
    manager.overflow = OverflowPolicy::Reject;
    manager.add(toast("first"), 0).unwrap();
    assert_eq!(manager.add(toast("second"), 1), None);
    assert_eq!(manager.states().len(), 1);
    let other = manager.add(Toast { anchor: Anchor::TopLeft, ..toast("other") }, 2).unwrap();
    assert_eq!(manager.get_state(other).unwrap().anchor, Anchor::TopLeft);
}

#[test]
fn by_anchor_lists_ids_per_anchor_in_first_use_order() {
    let mut manager = AnimationManager::new();
    let a = manager.add(toast("a"), 1).unwrap();
    let b = manager.add(Toast { anchor: Anchor::TopLeft, ..toast("b") }, 2).unwrap();
    let c = manager.add(toast("c"), 3).unwrap();
    assert_eq!(manager.by_anchor(), vec![(Anchor::BottomRight, vec![a, c]), (Anchor::TopLeft, vec![b])]);
}

#[test]
fn add_changes_only_its_own_anchors_list() {
    let mut manager = AnimationManager::new();
    manager.max_concurrent_per_anchor = 2;
    manager.overflow = OverflowPolicy::DiscardOldest;
    let t = manager.add(Toast { anchor: Anchor::TopLeft, ..toast("t") }, 0).unwrap();
    let a = manager.add(toast("a"), 1).unwrap();
    let b = manager.add(toast("b"), 2).unwrap();
    assert_eq!(manager.ids_at_anchor(Anchor::BottomRight).len(), 2);
    let c = manager.add(toast("c"), 3).unwrap();
    assert_eq!(manager.ids_at_anchor(Anchor::BottomRight), vec![b, c]);
    assert_eq!(manager.ids_at_anchor(Anchor::TopLeft), vec![t]);
    assert!(manager.get_state(a).is_none());
}
