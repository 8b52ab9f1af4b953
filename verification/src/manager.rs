//! The animation manager: holds items, enforces per-anchor limits, drives
//! their lifecycles and hands out ids.
//!
//! States are kept in insertion order, so the items at an anchor, read in
//! that order, are exactly the per-anchor id lists of the manager.

use vstd::prelude::*;
use crate::geometry::Anchor;
use crate::state::{Animated, AnimationPhase, LifecycleState, spec_tick, spec_dismiss};
use crate::types::{Animation, OverflowPolicy, StackingPolicy};
use crate::geometry::{Rect, anchor_point_fits};
use crate::layout::{LayoutItem, PlannedRect, plan_anchor, spec_plan, by_created, visible_all, spec_visible, render_order, in_render_order};

verus! {

/// 2^64, the number of distinct ids.
pub open spec fn id_space() -> int {
    0x1_0000_0000_0000_0000
}

/// The id `k` steps after `start`, wrapping around.
pub open spec fn circ(start: u64, k: int) -> u64 {
    ((start + k) % id_space()) as u64
}

/// Steps from `start` to `id`, wrapping around.
pub open spec fn circ_dist(start: u64, id: u64) -> int {
    (id - start + id_space()) % id_space()
}

/// No two states share an id.
pub open spec fn ids_unique<T>(s: Seq<LifecycleState<T>>) -> bool {
    forall|i: int, j: int| 0 <= i < j < s.len() ==> s[i].id != s[j].id
}

/// Some state carries `id`.
pub open spec fn has_id<T>(s: Seq<LifecycleState<T>>, id: u64) -> bool {
    exists|i: int| 0 <= i < s.len() && s[i].id == id
}

/// Ids of the states placed at `a`, in insertion order.
pub open spec fn ids_at<T>(s: Seq<LifecycleState<T>>, a: Anchor) -> Seq<u64>
    decreases s.len(),
{
    if s.len() == 0 {
        Seq::empty()
    } else {
        let r = ids_at(s.drop_last(), a);
        if s.last().anchor == a {
            r.push(s.last().id)
        } else {
            r
        }
    }
}

/// Some state is placed at `a`.
pub open spec fn has_at<T>(s: Seq<LifecycleState<T>>, a: Anchor) -> bool {
    exists|j: int| 0 <= j < s.len() && s[j].anchor == a
}

/// `i` indexes the oldest state at `a`; the first one among equals.
pub open spec fn is_oldest_at<T>(s: Seq<LifecycleState<T>>, a: Anchor, i: int) -> bool {
    &&& 0 <= i < s.len()
    &&& s[i].anchor == a
    &&& forall|j: int| 0 <= j < s.len() && s[j].anchor == a ==> s[i].created_at <= s[j].created_at
    &&& forall|j: int| 0 <= j < i && s[j].anchor == a ==> s[j].created_at > s[i].created_at
}

/// `i` indexes the newest state at `a`; the last one among equals.
pub open spec fn is_newest_at<T>(s: Seq<LifecycleState<T>>, a: Anchor, i: int) -> bool {
    &&& 0 <= i < s.len()
    &&& s[i].anchor == a
    &&& forall|j: int| 0 <= j < s.len() && s[j].anchor == a ==> s[i].created_at >= s[j].created_at
    &&& forall|j: int| i < j < s.len() && s[j].anchor == a ==> s[j].created_at < s[i].created_at
}

pub open spec fn oldest_index<T>(s: Seq<LifecycleState<T>>, a: Anchor) -> int {
    choose|i: int| is_oldest_at(s, a, i)
}

pub open spec fn newest_index<T>(s: Seq<LifecycleState<T>>, a: Anchor) -> int {
    choose|i: int| is_newest_at(s, a, i)
}

/// The states left after making room at anchor `a`, or `None` when the new item is refused.
pub open spec fn spec_after_limit<T>(
    s: Seq<LifecycleState<T>>,
    a: Anchor,
    max: usize,
    policy: OverflowPolicy,
) -> Option<Seq<LifecycleState<T>>> {
    if ids_at(s, a).len() < max {
        Some(s)
    } else {
        match policy {
            OverflowPolicy::Reject => None,
            OverflowPolicy::DiscardOldest => if has_at(s, a) {
                Some(s.remove(oldest_index(s, a)))
            } else {
                Some(s)
            },
            OverflowPolicy::DiscardNewest => if has_at(s, a) {
                Some(s.remove(newest_index(s, a)))
            } else {
                Some(s)
            },
        }
    }
}

/// One state after a tick at `now`.
pub open spec fn tick_state<T>(s: LifecycleState<T>, now: u64, d: u64) -> LifecycleState<T> {
    let c = spec_tick(s.lifecycle_core(), now, d);
    LifecycleState {
        phase: c.phase,
        created_at: c.created_at,
        enter_start: c.enter_start,
        dwell_start: c.dwell_start,
        exit_start: c.exit_start,
        timing: c.timing,
        ..s
    }
}

/// One state after a dismissal at `now`.
pub open spec fn dismiss_state<T>(s: LifecycleState<T>, now: u64) -> LifecycleState<T> {
    let c = spec_dismiss(s.lifecycle_core(), now);
    LifecycleState {
        phase: c.phase,
        created_at: c.created_at,
        enter_start: c.enter_start,
        dwell_start: c.dwell_start,
        exit_start: c.exit_start,
        timing: c.timing,
        ..s
    }
}

pub open spec fn not_finished<T>() -> spec_fn(LifecycleState<T>) -> bool {
    |x: LifecycleState<T>| x.phase != AnimationPhase::Finished
}

/// The states that survive a tick at `now`, in order.
pub open spec fn spec_ticked<T>(s: Seq<LifecycleState<T>>, now: u64, d: u64) -> Seq<LifecycleState<T>> {
    s.map_values(|x: LifecycleState<T>| tick_state(x, now, d)).filter(not_finished())
}

/// Distinct anchors of the states in order of first appearance.
pub open spec fn anchors_in<T>(s: Seq<LifecycleState<T>>) -> Seq<Anchor>
    decreases s.len(),
{
    if s.len() == 0 {
        Seq::empty()
    } else {
        let r = anchors_in(s.drop_last());
        if r.contains(s.last().anchor) {
            r
        } else {
            r.push(s.last().anchor)
        }
    }
}

/// The states placed at `a` that have not finished, in insertion order.
pub open spec fn live_at<T>(s: Seq<LifecycleState<T>>, a: Anchor) -> Seq<LifecycleState<T>>
    decreases s.len(),
{
    if s.len() == 0 {
        Seq::empty()
    } else {
        let r = live_at(s.drop_last(), a);
        if s.last().anchor == a && s.last().phase != AnimationPhase::Finished {
            r.push(s.last())
        } else {
            r
        }
    }
}

/// Manages the lifecycles of animated items.
pub struct AnimationManager<T> {
    /// The held states, in insertion order; ids are unique (see `wf`).
    pub states: Vec<LifecycleState<T>>,
    /// Where the next id allocation starts.
    pub next_id: u64,
    /// Most items shown at one anchor.
    pub max_concurrent_per_anchor: usize,
    /// What to do when an anchor is full.
    pub overflow: OverflowPolicy,
    /// Dwell time, in milliseconds, of items whose auto-dismiss time is zero.
    pub default_display_ms: u64,
    /// How items at one anchor are laid out.
    pub stacking_policy: StackingPolicy,
}

impl<T: Animated> AnimationManager<T> {
    /// The held states, in insertion order.
    pub open spec fn spec_states(&self) -> Seq<LifecycleState<T>> {
        self.states@
    }

    /// The id the next allocation starts from.
    pub open spec fn spec_next_id(&self) -> u64 {
        self.next_id
    }

    /// Well-formedness: ids are unique.
    pub open spec fn wf(&self) -> bool {
        ids_unique(self.spec_states())
    }

    /// An empty manager: five items per anchor, oldest discarded on overflow,
    /// four seconds of default dwell, vertical stacking.
    pub fn new() -> (m: Self)
        ensures
            m.wf(),
            m.spec_states() == Seq::<LifecycleState<T>>::empty(),
            m.spec_next_id() == 0,
            m.max_concurrent_per_anchor == 5,
            m.overflow == OverflowPolicy::DiscardOldest,
            m.default_display_ms == 4000,
            m.stacking_policy == (StackingPolicy::Vertical { spacing: 0 }),
    {
        AnimationManager {
            states: Vec::new(),
            next_id: 0,
            max_concurrent_per_anchor: 5,
            overflow: OverflowPolicy::DiscardOldest,
            default_display_ms: 4000,
            stacking_policy: StackingPolicy::Vertical { spacing: 0 },
        }
    }

    /// Builder form of `set_stacking_policy`.
    pub fn with_stacking_policy(self, policy: StackingPolicy) -> (m: Self)
        ensures
            m.spec_states() == self.spec_states(),
            m.spec_next_id() == self.spec_next_id(),
            m.max_concurrent_per_anchor == self.max_concurrent_per_anchor,
            m.overflow == self.overflow,
            m.default_display_ms == self.default_display_ms,
            m.stacking_policy == policy,
    {
        let mut m = self;
        m.stacking_policy = policy;
        m
    }

    /// Sets how items at one anchor are laid out.
    pub fn set_stacking_policy(&mut self, policy: StackingPolicy)
        ensures
            final(self).spec_states() == old(self).spec_states(),
            final(self).spec_next_id() == old(self).spec_next_id(),
            final(self).max_concurrent_per_anchor == old(self).max_concurrent_per_anchor,
            final(self).overflow == old(self).overflow,
            final(self).default_display_ms == old(self).default_display_ms,
            final(self).stacking_policy == policy,
    {
        self.stacking_policy = policy;
    }

    fn find_index(&self, id: u64) -> (r: Option<usize>)
        ensures
            match r {
                Some(i) => i < self.spec_states().len() && self.spec_states()[i as int].id == id,
                None => !has_id(self.spec_states(), id),
            },
    {
        let n = self.states.len();
        let mut i: usize = 0;
        while i < n
            invariant
                n == self.states@.len(),
                i <= n,
                forall|j: int| 0 <= j < i ==> self.states@[j].id != id,
            decreases n - i,
        {
            if self.states[i].id == id {
                return Some(i);
            }
            i += 1;
        }
        None
    }

    /// Removes the item with `id`; returns whether it was present.
    pub fn remove(&mut self, id: u64) -> (r: bool)
        requires
            old(self).wf(),
        ensures
            final(self).wf(),
            r == has_id(old(self).spec_states(), id),
            r ==> exists|i: int|
                0 <= i < old(self).spec_states().len() && old(self).spec_states()[i].id == id
                    && final(self).spec_states() == old(self).spec_states().remove(i),
            !r ==> final(self).spec_states() == old(self).spec_states(),
            final(self).spec_next_id() == old(self).spec_next_id(),
            final(self).max_concurrent_per_anchor == old(self).max_concurrent_per_anchor,
            final(self).overflow == old(self).overflow,
            final(self).default_display_ms == old(self).default_display_ms,
            final(self).stacking_policy == old(self).stacking_policy,
    {
        match self.find_index(id) {
            Some(i) => {
                let ghost before = self.states@;
                let _removed = self.states.remove(i);
                proof {
                    assert(self.states@ == before.remove(i as int));
                    assert forall|a: int, b: int| 0 <= a < b < self.states@.len() implies
                        self.states@[a].id != self.states@[b].id by {
                        let a2 = if a < i { a } else { a + 1 };
                        let b2 = if b < i { b } else { b + 1 };
                        assert(self.states@[a] == before[a2]);
                        assert(self.states@[b] == before[b2]);
                    }
                }
                true
            },
            None => false,
        }
    }

    /// Removes every item.
    pub fn clear(&mut self)
        ensures
            final(self).wf(),
            final(self).spec_states() == Seq::<LifecycleState<T>>::empty(),
            final(self).spec_next_id() == old(self).spec_next_id(),
            final(self).max_concurrent_per_anchor == old(self).max_concurrent_per_anchor,
            final(self).overflow == old(self).overflow,
            final(self).default_display_ms == old(self).default_display_ms,
            final(self).stacking_policy == old(self).stacking_policy,
    {
        self.states.clear();
    }

    /// Dismisses the item with `id` at `now`; returns whether it was present.
    pub fn dismiss(&mut self, id: u64, now: u64) -> (r: bool)
        requires
            old(self).wf(),
        ensures
            final(self).wf(),
            r == has_id(old(self).spec_states(), id),
            r ==> exists|i: int|
                0 <= i < old(self).spec_states().len() && old(self).spec_states()[i].id == id
                    && final(self).spec_states() == old(self).spec_states().update(
                    i,
                    dismiss_state(old(self).spec_states()[i], now),
                ),
            !r ==> final(self).spec_states() == old(self).spec_states(),
            final(self).spec_next_id() == old(self).spec_next_id(),
            final(self).max_concurrent_per_anchor == old(self).max_concurrent_per_anchor,
            final(self).overflow == old(self).overflow,
            final(self).default_display_ms == old(self).default_display_ms,
            final(self).stacking_policy == old(self).stacking_policy,
    {
        match self.find_index(id) {
            Some(i) => {
                let ghost before = self.states@;
                self.states[i].dismiss(now);
                proof {
                    assert(self.states@[i as int].lifecycle_core() == spec_dismiss(before[i as int].lifecycle_core(), now));
                    assert(self.states@ =~= before.update(i as int, dismiss_state(before[i as int], now)));
                }
                true
            },
            None => false,
        }
    }

    /// Advances every lifecycle to `now`, then drops the finished items.
    pub fn tick(&mut self, now: u64)
        requires
            old(self).wf(),
        ensures
            final(self).wf(),
            final(self).spec_states() == spec_ticked(
                old(self).spec_states(),
                now,
                old(self).default_display_ms,
            ),
            final(self).spec_next_id() == old(self).spec_next_id(),
            final(self).max_concurrent_per_anchor == old(self).max_concurrent_per_anchor,
            final(self).overflow == old(self).overflow,
            final(self).default_display_ms == old(self).default_display_ms,
            final(self).stacking_policy == old(self).stacking_policy,
    {
        let ghost orig = self.states@;
        let d = self.default_display_ms;
        let ghost ticked = orig.map_values(|x: LifecycleState<T>| tick_state(x, now, d));
        let n = self.states.len();
        let mut i: usize = 0;
        while i < n
            invariant
                n == self.states@.len(),
                n == orig.len(),
                i <= n,
                d == self.default_display_ms,
                ticked == orig.map_values(|x: LifecycleState<T>| tick_state(x, now, d)),
                forall|j: int| 0 <= j < i ==> self.states@[j] == ticked[j],
                forall|j: int| i <= j < n ==> self.states@[j] == orig[j],
                self.next_id == old(self).next_id,
                self.max_concurrent_per_anchor == old(self).max_concurrent_per_anchor,
                self.overflow == old(self).overflow,
                self.default_display_ms == old(self).default_display_ms,
                self.stacking_policy == old(self).stacking_policy,
            decreases n - i,
        {
            let ghost before = self.states@;
            self.states[i].tick(now, d);
            proof {
                assert(self.states@[i as int] == tick_state(before[i as int], now, d));
                assert forall|j: int| 0 <= j < n && j != i implies self.states@[j] == before[j] by {}
            }
            i += 1;
        }
        assert(self.states@ =~= ticked);
        let mut rest: Vec<LifecycleState<T>> = Vec::new();
        std::mem::swap(&mut rest, &mut self.states);
        let mut kept: Vec<LifecycleState<T>> = Vec::new();
        let ghost mut k: int = 0;
        while rest.len() > 0
            invariant
                0 <= k <= ticked.len(),
                rest@ == ticked.skip(k),
                kept@ == ticked.take(k).filter(not_finished()),
                ticked == orig.map_values(|x: LifecycleState<T>| tick_state(x, now, d)),
                self.states@.len() == 0,
                self.next_id == old(self).next_id,
                self.max_concurrent_per_anchor == old(self).max_concurrent_per_anchor,
                self.overflow == old(self).overflow,
                self.default_display_ms == old(self).default_display_ms,
                self.stacking_policy == old(self).stacking_policy,
            decreases rest@.len(),
        {
            let s = rest.remove(0);
            proof {
                assert(s == ticked[k]);
                assert(ticked.take(k + 1).drop_last() =~= ticked.take(k));
                reveal_with_fuel(Seq::filter, 1);
            }
            if !s.is_finished() {
                kept.push(s);
            }
            proof {
                k = k + 1;
                assert(rest@ =~= ticked.skip(k));
            }
        }
        proof {
            assert(ticked.take(k) =~= ticked);
        }
        self.states = kept;
        proof {
            assert forall|a: int, b: int| 0 <= a < b < self.states@.len() implies
                self.states@[a].id != self.states@[b].id by {
                lemma_filter_ids_unique(orig, now, d);
            }
        }
    }

    fn oldest_index_at(&self, a: Anchor) -> (r: Option<usize>)
        ensures
            match r {
                Some(i) => is_oldest_at(self.spec_states(), a, i as int),
                None => !has_at(self.spec_states(), a),
            },
    {
        let n = self.states.len();
        let mut best: Option<usize> = None;
        let mut i: usize = 0;
        while i < n
            invariant
                n == self.states@.len(),
                i <= n,
                match best {
                    Some(b) => is_oldest_at(self.states@.take(i as int), a, b as int)
                        && b < i,
                    None => forall|j: int| 0 <= j < i ==> self.states@[j].anchor != a,
                },
            decreases n - i,
        {
            if self.states[i].anchor == a {
                match best {
                    Some(b) => {
                        if self.states[i].created_at < self.states[b].created_at {
                            best = Some(i);
                        }
                    },
                    None => {
                        best = Some(i);
                    },
                }
            }
            proof {
                assert(self.states@.take(i + 1).drop_last() =~= self.states@.take(i as int));
            }
            i += 1;
        }
        proof {
            assert(self.states@.take(n as int) =~= self.states@);
        }
        best
    }

    fn newest_index_at(&self, a: Anchor) -> (r: Option<usize>)
        ensures
            match r {
                Some(i) => is_newest_at(self.spec_states(), a, i as int),
                None => !has_at(self.spec_states(), a),
            },
    {
        let n = self.states.len();
        let mut best: Option<usize> = None;
        let mut i: usize = 0;
        while i < n
            invariant
                n == self.states@.len(),
                i <= n,
                match best {
                    Some(b) => is_newest_at(self.states@.take(i as int), a, b as int)
                        && b < i,
                    None => forall|j: int| 0 <= j < i ==> self.states@[j].anchor != a,
                },
            decreases n - i,
        {
            if self.states[i].anchor == a {
                match best {
                    Some(b) => {
                        if self.states[i].created_at >= self.states[b].created_at {
                            best = Some(i);
                        }
                    },
                    None => {
                        best = Some(i);
                    },
                }
            }
            proof {
                assert(self.states@.take(i + 1).drop_last() =~= self.states@.take(i as int));
            }
            i += 1;
        }
        proof {
            assert(self.states@.take(n as int) =~= self.states@);
        }
        best
    }

    /// Ids of the items at anchor `a`, in insertion order.
    pub fn ids_at_anchor(&self, a: Anchor) -> (r: Vec<u64>)
        ensures
            r@ == ids_at(self.spec_states(), a),
    {
        let n = self.states.len();
        let mut out: Vec<u64> = Vec::new();
        let mut i: usize = 0;
        while i < n
            invariant
                n == self.states@.len(),
                i <= n,
                out@ == ids_at(self.states@.take(i as int), a),
            decreases n - i,
        {
            proof {
                assert(self.states@.take(i + 1).drop_last() =~= self.states@.take(i as int));
            }
            if self.states[i].anchor == a {
                out.push(self.states[i].id);
            }
            i += 1;
        }
        proof {
            assert(self.states@.take(n as int) =~= self.states@);
        }
        out
    }

    /// The anchors that hold items, in order of first use.
    pub fn anchors(&self) -> (r: Vec<Anchor>)
        ensures
            r@ == anchors_in(self.spec_states()),
    {
        let n = self.states.len();
        let mut out: Vec<Anchor> = Vec::new();
        let mut i: usize = 0;
        while i < n
            invariant
                n == self.states@.len(),
                i <= n,
                out@ == anchors_in(self.states@.take(i as int)),
            decreases n - i,
        {
            proof {
                assert(self.states@.take(i + 1).drop_last() =~= self.states@.take(i as int));
            }
            let a = self.states[i].anchor;
            let mut seen = false;
            let mut j: usize = 0;
            while j < out.len()
                invariant
                    j <= out@.len(),
                    seen == exists|k: int| 0 <= k < j && out@[k] == a,
                decreases out@.len() - j,
            {
                if out[j] == a {
                    seen = true;
                }
                j += 1;
            }
            proof {
                if seen {
                    let k = choose|k: int| 0 <= k < j && out@[k] == a;
                    assert(out@.contains(a));
                } else {
                    assert(!out@.contains(a));
                }
            }
            if !seen {
                out.push(a);
            }
            i += 1;
        }
        proof {
            assert(self.states@.take(n as int) =~= self.states@);
        }
        out
    }

    /// The index of items by anchor: each anchor that holds items, in order
    /// of first use, with the ids of its items in insertion order.
    pub fn by_anchor(&self) -> (r: Vec<(Anchor, Vec<u64>)>)
        ensures
            r@.len() == anchors_in(self.spec_states()).len(),
            forall|k: int| #![trigger r@[k]] 0 <= k < r@.len() ==> r@[k].0 == anchors_in(self.spec_states())[k]
                && r@[k].1@ == ids_at(self.spec_states(), r@[k].0),
    {
        let anchors = self.anchors();
        let mut out: Vec<(Anchor, Vec<u64>)> = Vec::new();
        let mut k: usize = 0;
        while k < anchors.len()
            invariant
                anchors@ == anchors_in(self.spec_states()),
                k <= anchors@.len(),
                out@.len() == k,
                forall|m: int| #![trigger out@[m]] 0 <= m < k ==> out@[m].0 == anchors@[m] && out@[m].1@ == ids_at(
                    self.spec_states(),
                    out@[m].0,
                ),
            decreases anchors.len() - k,
        {
            let a = anchors[k];
            let ids = self.ids_at_anchor(a);
            out.push((a, ids));
            k = k + 1;
        }
        out
    }

    fn count_at(&self, a: Anchor) -> (r: usize)
        ensures
            r == ids_at(self.spec_states(), a).len(),
    {
        let n = self.states.len();
        let mut c: usize = 0;
        let mut i: usize = 0;
        while i < n
            invariant
                n == self.states@.len(),
                i <= n,
                c == ids_at(self.states@.take(i as int), a).len(),
                c <= i,
            decreases n - i,
        {
            proof {
                assert(self.states@.take(i + 1).drop_last() =~= self.states@.take(i as int));
            }
            if self.states[i].anchor == a {
                c += 1;
            }
            i += 1;
        }
        proof {
            assert(self.states@.take(n as int) =~= self.states@);
        }
        c
    }

    /// Makes room at anchor `a`; returns `false` when the new item is refused.
    fn enforce_limit(&mut self, a: Anchor) -> (r: bool)
        requires
            old(self).wf(),
        ensures
            final(self).wf(),
            match spec_after_limit(
                old(self).spec_states(),
                a,
                old(self).max_concurrent_per_anchor,
                old(self).overflow,
            ) {
                Some(s) => r && final(self).spec_states() == s,
                None => !r && final(self).spec_states() == old(self).spec_states(),
            },
            final(self).spec_next_id() == old(self).spec_next_id(),
            final(self).max_concurrent_per_anchor == old(self).max_concurrent_per_anchor,
            final(self).overflow == old(self).overflow,
            final(self).default_display_ms == old(self).default_display_ms,
            final(self).stacking_policy == old(self).stacking_policy,
    {
        let count = self.count_at(a);
        if count < self.max_concurrent_per_anchor {
            return true;
        }
        match self.overflow {
            OverflowPolicy::Reject => false,
            OverflowPolicy::DiscardOldest => {
                match self.oldest_index_at(a) {
                    Some(i) => {
                        proof {
                            lemma_oldest_unique(self.states@, a, i as int);
                        }
                        let id = self.states[i].id;
                        let ghost before = self.states@;
                        let removed = self.remove(id);
                        proof {
                            let k = choose|k: int|
                                0 <= k < before.len() && before[k].id == id
                                    && self.states@ == before.remove(k);
                            assert(k == i);
                        }
                    },
                    None => {},
                }
                true
            },
            OverflowPolicy::DiscardNewest => {
                match self.newest_index_at(a) {
                    Some(i) => {
                        proof {
                            lemma_newest_unique(self.states@, a, i as int);
                        }
                        let id = self.states[i].id;
                        let ghost before = self.states@;
                        let removed = self.remove(id);
                        proof {
                            let k = choose|k: int|
                                0 <= k < before.len() && before[k].id == id
                                    && self.states@ == before.remove(k);
                            assert(k == i);
                        }
                    },
                    None => {},
                }
                true
            },
        }
    }

    /// Hands out the first unused id at or after the allocation cursor, wrapping around.
    fn allocate_id(&mut self) -> (r: Option<u64>)
        ensures
            final(self).spec_states() == old(self).spec_states(),
            final(self).max_concurrent_per_anchor == old(self).max_concurrent_per_anchor,
            final(self).overflow == old(self).overflow,
            final(self).default_display_ms == old(self).default_display_ms,
            final(self).stacking_policy == old(self).stacking_policy,
            match r {
                Some(id) => {
                    &&& !has_id(old(self).spec_states(), id)
                    &&& forall|j: int| 0 <= j < circ_dist(old(self).spec_next_id(), id)
                        ==> has_id(old(self).spec_states(), #[trigger] circ(old(self).spec_next_id(), j))
                    &&& final(self).spec_next_id() == circ(id, 1)
                },
                None => forall|x: u64| has_id(old(self).spec_states(), x),
            },
    {
        let start = self.next_id;
        let ghost mut k: int = 0;
        loop
            invariant
                0 <= k < id_space(),
                self.next_id == circ(start, k),
                self.states@ == old(self).states@,
                self.max_concurrent_per_anchor == old(self).max_concurrent_per_anchor,
                self.overflow == old(self).overflow,
                self.default_display_ms == old(self).default_display_ms,
                self.stacking_policy == old(self).stacking_policy,
                start == old(self).next_id,
                forall|j: int| 0 <= j < k ==> has_id(self.states@, #[trigger] circ(start, j)),
            decreases id_space() - k,
        {
            let id = self.next_id;
            self.next_id = self.next_id.wrapping_add(1);
            proof {
                assert(self.next_id == circ(start, k + 1));
                assert(self.next_id == circ(id, 1));
            }
            if self.find_index(id).is_none() {
                proof {
                    assert(circ_dist(start, id) == k);
                }
                return Some(id);
            }
            if self.next_id == start {
                proof {
                    assert(k + 1 == id_space() - 0 || (start + k + 1) % id_space() == start);
                    assert(k == id_space() - 1);
                    assert forall|x: u64| has_id(self.states@, x) by {
                        let j = circ_dist(start, x);
                        assert(circ(start, j) == x);
                        if j == k {
                            assert(circ(start, k) == id);
                        }
                    }
                }
                return None;
            }
            proof {
                k = k + 1;
            }
        }
    }

    /// Adds an item at `now` under its own anchor, making room there first as
    /// the overflow policy says. Returns the new id, or `None` when the item
    /// is refused: its anchor is full under `Reject` (nothing changes), or no
    /// id is free.
    pub fn add(&mut self, item: T, now: u64) -> (r: Option<u64>)
        requires
            old(self).wf(),
        ensures
            final(self).wf(),
            final(self).max_concurrent_per_anchor == old(self).max_concurrent_per_anchor,
            final(self).overflow == old(self).overflow,
            final(self).default_display_ms == old(self).default_display_ms,
            final(self).stacking_policy == old(self).stacking_policy,
            match r {
                Some(id) => {
                    let s = final(self).spec_states();
                    let last = s[s.len() - 1];
                    &&& s.len() >= 1
                    &&& last.id == id
                    &&& last.item == item
                    &&& last.anchor == item.spec_anchor()
                    &&& last.timing == item.spec_timing()
                    &&& last.created_at == now
                    &&& ids_at(s, item.spec_anchor()) == ids_at(s.drop_last(), item.spec_anchor()).push(id)
                    &&& ids_at(s, item.spec_anchor()).len() == (if ids_at(
                        old(self).spec_states(),
                        item.spec_anchor(),
                    ).len() < old(self).max_concurrent_per_anchor || ids_at(
                        old(self).spec_states(),
                        item.spec_anchor(),
                    ).len() == 0 {
                        ids_at(old(self).spec_states(), item.spec_anchor()).len() + 1
                    } else {
                        ids_at(old(self).spec_states(), item.spec_anchor()).len()
                    })
                    &&& forall|b: Anchor| b != item.spec_anchor() ==> #[trigger] ids_at(s, b) == ids_at(
                        old(self).spec_states(),
                        b,
                    )
                    &&& last.enter_start == now
                    &&& last.exit_start.is_none()
                    &&& (last.timing.animation == Animation::Immediate ==> last.phase == AnimationPhase::Dwelling)
                    &&& (last.timing.animation != Animation::Immediate ==> last.phase == AnimationPhase::Entering)
                    &&& spec_after_limit(
                        old(self).spec_states(),
                        last.anchor,
                        old(self).max_concurrent_per_anchor,
                        old(self).overflow,
                    ) == Some(s.drop_last())
                    &&& !has_id(s.drop_last(), id)
                    &&& forall|j: int| 0 <= j < circ_dist(old(self).spec_next_id(), id)
                        ==> has_id(s.drop_last(), #[trigger] circ(old(self).spec_next_id(), j))
                },
                None => match spec_after_limit(
                    old(self).spec_states(),
                    item.spec_anchor(),
                    old(self).max_concurrent_per_anchor,
                    old(self).overflow,
                ) {
                    None => final(self).spec_states() == old(self).spec_states(),
                    Some(s) => final(self).spec_states() == s && forall|x: u64| has_id(s, x),
                },
            },
    {
        let anchor = item.anchor();
        if !self.enforce_limit(anchor) {
            return None;
        }
        let ghost after = self.states@;
        let ghost cursor = self.next_id;
        let id = match self.allocate_id() {
            Some(id) => id,
            None => return None,
        };
        let timing = item.timing();
        let state = LifecycleState::start(id, item, anchor, timing, now);
        self.states.push(state);
        proof {
            lemma_after_limit_counts(old(self).spec_states(), anchor, old(self).max_concurrent_per_anchor, old(self).overflow);
            assert(self.states@.drop_last() =~= after);
            assert forall|b: Anchor| b != anchor implies #[trigger] ids_at(self.states@, b) == ids_at(
                old(self).spec_states(),
                b,
            ) by {
                assert(ids_at(self.states@, b) == ids_at(after, b));
            }
            assert(self.states@.drop_last() =~= after);
            assert forall|a: int, b: int| 0 <= a < b < self.states@.len() implies
                self.states@[a].id != self.states@[b].id by {
                if b == self.states@.len() - 1 {
                    assert(after[a].id != id);
                }
            }
        }
        Some(id)
    }

    /// The held states, in insertion order.
    pub fn states(&self) -> (r: &[LifecycleState<T>])
        ensures
            r@ == self.spec_states(),
    {
        self.states.as_slice()
    }

    /// The state of the item with `id`, if held.
    pub fn get_state(&self, id: u64) -> (r: Option<&LifecycleState<T>>)
        ensures
            match r {
                Some(s) => exists|i: int|
                    0 <= i < self.spec_states().len() && self.spec_states()[i] == *s && s.id == id,
                None => !has_id(self.spec_states(), id),
            },
    {
        match self.find_index(id) {
            Some(i) => Some(&self.states[i]),
            None => None,
        }
    }
}



/// Law: after `add` hands out an id, the state `get_state` finds under that
/// id is the one just added: the manager's ids are unique (`wf`) and `add`
/// puts the new state last.
pub proof fn lemma_add_then_get<T>(s: Seq<LifecycleState<T>>, id: u64, i: int)
    requires
        ids_unique(s),
        s.len() >= 1,
        s[s.len() - 1].id == id,
        0 <= i < s.len(),
        s[i].id == id,
    ensures
        i == s.len() - 1,
        s[i] == s[s.len() - 1],
{
}

/// Ticking keeps ids unique.
pub proof fn lemma_filter_ids_unique<T>(s: Seq<LifecycleState<T>>, now: u64, d: u64)
    requires
        ids_unique(s),
    ensures
        ids_unique(spec_ticked(s, now, d)),
    decreases s.len(),
{
    reveal_with_fuel(Seq::filter, 1);
    let m = s.map_values(|x: LifecycleState<T>| tick_state(x, now, d));
    if s.len() > 0 {
        let s0 = s.drop_last();
        lemma_filter_ids_unique(s0, now, d);
        let m0 = s0.map_values(|x: LifecycleState<T>| tick_state(x, now, d));
        assert(m.drop_last() =~= m0);
        let f0 = m0.filter(not_finished());
        assert forall|j: int| 0 <= j < f0.len() implies f0[j].id != m.last().id by {
            m0.lemma_filter_contains_rev(not_finished(), f0[j]);
            s0.lemma_filter_len(not_finished());
            let k = choose|k: int| 0 <= k < m0.len() && m0[k] == f0[j];
            assert(m0[k].id == s0[k].id);
            assert(s[k].id != s[s.len() - 1].id);
        }
    }
}

/// Law: after a tick no finished item is held, and no item was added.
pub proof fn lemma_tick_drops_finished<T>(s: Seq<LifecycleState<T>>, now: u64, d: u64)
    ensures
        forall|i: int| 0 <= i < spec_ticked(s, now, d).len()
            ==> spec_ticked(s, now, d)[i].phase != AnimationPhase::Finished,
        spec_ticked(s, now, d).len() <= s.len(),
{
    let m = s.map_values(|x: LifecycleState<T>| tick_state(x, now, d));
    m.lemma_filter_len(not_finished());
    assert forall|i: int| 0 <= i < spec_ticked(s, now, d).len()
        implies spec_ticked(s, now, d)[i].phase != AnimationPhase::Finished by {
        m.lemma_filter_pred(not_finished(), i);
    }
}

/// Law: after room is made at an anchor with a positive limit, the anchor holds fewer items than the limit.
pub proof fn lemma_limit_makes_room<T>(
    s: Seq<LifecycleState<T>>,
    a: Anchor,
    max: usize,
    policy: OverflowPolicy,
)
    requires
        max > 0,
        ids_at(s, a).len() <= max,
    ensures
        match spec_after_limit(s, a, max, policy) {
            Some(s2) => ids_at(s2, a).len() < max,
            None => policy == OverflowPolicy::Reject && ids_at(s, a).len() == max,
        },
{
    if ids_at(s, a).len() >= max {
        match policy {
            OverflowPolicy::Reject => {},
            OverflowPolicy::DiscardOldest => {
                lemma_ids_at_len_pos(s, a);
                let i = oldest_index(s, a);
                lemma_has_at_oldest(s, a);
                lemma_ids_at_remove(s, a, i);
            },
            OverflowPolicy::DiscardNewest => {
                lemma_ids_at_len_pos(s, a);
                let i = newest_index(s, a);
                lemma_has_at_newest(s, a);
                lemma_ids_at_remove(s, a, i);
            },
        }
    }
}

/// Removing a state at another anchor leaves the id list of `b` as it was.
proof fn lemma_ids_at_remove_other<T>(s: Seq<LifecycleState<T>>, b: Anchor, i: int)
    requires
        0 <= i < s.len(),
        s[i].anchor != b,
    ensures
        ids_at(s.remove(i), b) == ids_at(s, b),
    decreases s.len(),
{
    if i == s.len() - 1 {
        assert(s.remove(i) =~= s.drop_last());
    } else {
        lemma_ids_at_remove_other(s.drop_last(), b, i);
        assert(s.remove(i).drop_last() =~= s.drop_last().remove(i));
        assert(s.remove(i).last() == s.last());
    }
}

proof fn lemma_no_state_no_ids<T>(s: Seq<LifecycleState<T>>, a: Anchor)
    requires
        !has_at(s, a),
    ensures
        ids_at(s, a).len() == 0,
{
    if ids_at(s, a).len() > 0 {
        lemma_ids_at_len_pos(s, a);
    }
}

/// Making room at `a` removes at most one id there: none when the anchor has
/// room (or holds nothing), one otherwise; other anchors keep their ids.
proof fn lemma_after_limit_counts<T>(s: Seq<LifecycleState<T>>, a: Anchor, max: usize, policy: OverflowPolicy)
    requires
        spec_after_limit(s, a, max, policy) is Some,
    ensures
        ({
            let s2 = spec_after_limit(s, a, max, policy)->0;
            let n = ids_at(s, a).len();
            &&& ids_at(s2, a).len() == (if n < max || n == 0 { n } else { (n - 1) as nat })
            &&& forall|b: Anchor| b != a ==> #[trigger] ids_at(s2, b) == ids_at(s, b)
        }),
{
    let n = ids_at(s, a).len();
    if n >= max {
        if has_at(s, a) {
            let i = if policy == OverflowPolicy::DiscardOldest {
                lemma_has_at_oldest(s, a);
                oldest_index(s, a)
            } else {
                lemma_has_at_newest(s, a);
                newest_index(s, a)
            };
            lemma_ids_at_remove(s, a, i);
            assert forall|b: Anchor| b != a implies #[trigger] ids_at(s.remove(i), b) == ids_at(s, b) by {
                lemma_ids_at_remove_other(s, b, i);
            }
        } else {
            lemma_no_state_no_ids(s, a);
        }
    }
}

proof fn lemma_ids_at_len_pos<T>(s: Seq<LifecycleState<T>>, a: Anchor)
    requires
        ids_at(s, a).len() > 0,
    ensures
        has_at(s, a),
    decreases s.len(),
{
    if s.last().anchor != a {
        lemma_ids_at_len_pos(s.drop_last(), a);
        let j = choose|j: int| 0 <= j < s.drop_last().len() && s.drop_last()[j].anchor == a;
        assert(s[j].anchor == a);
    } else {
        assert(s[s.len() - 1].anchor == a);
    }
}


/// The oldest index at an anchor is unique.
proof fn lemma_oldest_unique<T>(s: Seq<LifecycleState<T>>, a: Anchor, i: int)
    requires
        is_oldest_at(s, a, i),
    ensures
        oldest_index(s, a) == i,
        has_at(s, a),
{
    let c = oldest_index(s, a);
    assert(is_oldest_at(s, a, c));
    if c < i {
        assert(s[c].created_at > s[i].created_at);
    } else if c > i {
        assert(s[i].created_at > s[c].created_at);
    }
}

/// The newest index at an anchor is unique.
proof fn lemma_newest_unique<T>(s: Seq<LifecycleState<T>>, a: Anchor, i: int)
    requires
        is_newest_at(s, a, i),
    ensures
        newest_index(s, a) == i,
        has_at(s, a),
{
    let c = newest_index(s, a);
    assert(is_newest_at(s, a, c));
    if c < i {
        assert(s[c].created_at < s[i].created_at);
    } else if c > i {
        assert(s[i].created_at < s[c].created_at);
    }
}

proof fn lemma_has_at_oldest<T>(s: Seq<LifecycleState<T>>, a: Anchor)
    requires
        has_at(s, a),
    ensures
        is_oldest_at(s, a, oldest_index(s, a)),
{
    let w = lemma_oldest_exists(s, a, s.len() as int);
}

proof fn lemma_has_at_newest<T>(s: Seq<LifecycleState<T>>, a: Anchor)
    requires
        has_at(s, a),
    ensures
        is_newest_at(s, a, newest_index(s, a)),
{
    let w = lemma_newest_exists(s, a, s.len() as int);
}

proof fn lemma_oldest_exists<T>(s: Seq<LifecycleState<T>>, a: Anchor, n: int) -> (i: int)
    requires
        0 <= n <= s.len(),
        exists|j: int| 0 <= j < n && s[j].anchor == a,
    ensures
        0 <= i < n,
        s[i].anchor == a,
        forall|j: int| 0 <= j < n && s[j].anchor == a ==> s[i].created_at <= s[j].created_at,
        forall|j: int| 0 <= j < i && s[j].anchor == a ==> s[j].created_at > s[i].created_at,
        n == s.len() ==> is_oldest_at(s, a, i),
    decreases n,
{
    if exists|j: int| 0 <= j < n - 1 && s[j].anchor == a {
        let p = lemma_oldest_exists(s, a, n - 1);
        if s[n - 1].anchor == a && s[n - 1].created_at < s[p].created_at {
            n - 1
        } else {
            p
        }
    } else {
        n - 1
    }
}


proof fn lemma_newest_exists<T>(s: Seq<LifecycleState<T>>, a: Anchor, n: int) -> (i: int)
    requires
        0 <= n <= s.len(),
        exists|j: int| 0 <= j < n && s[j].anchor == a,
    ensures
        0 <= i < n,
        s[i].anchor == a,
        forall|j: int| 0 <= j < n && s[j].anchor == a ==> s[i].created_at >= s[j].created_at,
        forall|j: int| i < j < n && s[j].anchor == a ==> s[j].created_at < s[i].created_at,
        n == s.len() ==> is_newest_at(s, a, i),
    decreases n,
{
    if exists|j: int| 0 <= j < n - 1 && s[j].anchor == a {
        let p = lemma_newest_exists(s, a, n - 1);
        if s[n - 1].anchor == a && s[n - 1].created_at >= s[p].created_at {
            n - 1
        } else {
            p
        }
    } else {
        n - 1
    }
}

/// Removing a state at anchor `a` shortens the anchor's id list by one.
proof fn lemma_ids_at_remove<T>(s: Seq<LifecycleState<T>>, a: Anchor, i: int)
    requires
        0 <= i < s.len(),
        s[i].anchor == a,
    ensures
        ids_at(s.remove(i), a).len() + 1 == ids_at(s, a).len(),
    decreases s.len(),
{
    if i == s.len() - 1 {
        assert(s.remove(i) =~= s.drop_last());
    } else {
        lemma_ids_at_remove(s.drop_last(), a, i);
        assert(s.remove(i).drop_last() =~= s.drop_last().remove(i));
        assert(s.remove(i).last() == s.last());
    }
}


proof fn lemma_live_at_members<T>(s: Seq<LifecycleState<T>>, a: Anchor)
    ensures
        forall|i: int| #![trigger live_at(s, a)[i]] 0 <= i < live_at(s, a).len() ==> {
            &&& live_at(s, a)[i].anchor == a
            &&& live_at(s, a)[i].phase != AnimationPhase::Finished
            &&& exists|j: int| 0 <= j < s.len() && s[j] == live_at(s, a)[i]
        },
    decreases s.len(),
{
    if s.len() > 0 {
        lemma_live_at_members(s.drop_last(), a);
        let r = live_at(s.drop_last(), a);
        assert forall|i: int| #![trigger live_at(s, a)[i]] 0 <= i < live_at(s, a).len() implies {
            &&& live_at(s, a)[i].anchor == a
            &&& live_at(s, a)[i].phase != AnimationPhase::Finished
            &&& exists|j: int| 0 <= j < s.len() && s[j] == live_at(s, a)[i]
        } by {
            if i < r.len() {
                assert(live_at(s, a)[i] == r[i]);
                let j = choose|j: int| 0 <= j < s.drop_last().len() && s.drop_last()[j] == r[i];
                assert(s[j] == r[i]);
            } else {
                assert(live_at(s, a)[i] == s.last());
                assert(s[s.len() - 1] == s.last());
            }
        }
    }
}

proof fn lemma_live_at_ids_unique<T>(s: Seq<LifecycleState<T>>, a: Anchor)
    requires
        ids_unique(s),
    ensures
        ids_unique(live_at(s, a)),
    decreases s.len(),
{
    if s.len() > 0 {
        let p = s.drop_last();
        lemma_live_at_ids_unique(p, a);
        lemma_live_at_members(p, a);
        let r = live_at(p, a);
        if s.last().anchor == a && s.last().phase != AnimationPhase::Finished {
            assert forall|i: int, j: int| 0 <= i < j < live_at(s, a).len() implies live_at(s, a)[i].id != live_at(
                s,
                a,
            )[j].id by {
                if j == r.len() {
                    assert(live_at(s, a)[i] == r[i]);
                    let m = choose|m: int| 0 <= m < p.len() && p[m] == r[i];
                    assert(s[m] == r[i]);
                    assert(s[s.len() - 1] == s.last());
                } else {
                    assert(live_at(s, a)[i] == r[i]);
                    assert(live_at(s, a)[j] == r[j]);
                }
            }
        }
    }
}

/// Distinct ids at distinct positions of `v` are inherited by any sequence
/// with the same elements.
proof fn lemma_permuted_ids_unique(v: Seq<LayoutItem>, w: Seq<LayoutItem>)
    requires
        v.to_multiset() == w.to_multiset(),
        forall|i: int, j: int| 0 <= i < j < w.len() ==> w[i].id != w[j].id,
    ensures
        forall|i: int, j: int| 0 <= i < j < v.len() ==> v[i].id != v[j].id,
{
    broadcast use vstd::seq_lib::group_to_multiset_ensures;

    assert(w.no_duplicates()) by {
        assert forall|i: int, j: int| 0 <= i < w.len() && 0 <= j < w.len() && i != j implies w[i] != w[j] by {
            if i < j {
                assert(w[i].id != w[j].id);
            } else {
                assert(w[j].id != w[i].id);
            }
        }
    }
    w.lemma_multiset_has_no_duplicates();
    v.lemma_multiset_has_no_duplicates_conv();
    assert forall|i: int, j: int| 0 <= i < j < v.len() implies v[i].id != v[j].id by {
        assert(v[i] != v[j]);
        assert(v.to_multiset().count(v[i]) > 0);
        assert(v.to_multiset().count(v[j]) > 0);
        assert(w.contains(v[i]));
        assert(w.contains(v[j]));
        let m1 = choose|m: int| 0 <= m < w.len() && w[m] == v[i];
        let m2 = choose|m: int| 0 <= m < w.len() && w[m] == v[j];
        if m1 < m2 {
            assert(w[m1].id != w[m2].id);
        } else if m2 < m1 {
            assert(w[m2].id != w[m1].id);
        }
    }
}

/// The layout inputs of a state on `frame`: id and creation time from the
/// state, size, margin and offsets from its item.
pub open spec fn layout_of<T: Animated>(s: LifecycleState<T>, frame: Rect) -> LayoutItem {
    LayoutItem {
        id: s.id,
        created_at: s.created_at,
        width: s.item.spec_width(),
        height: s.item.spec_height(),
        margin: s.item.spec_exterior_margin(),
        fullscreen: s.item.spec_is_fullscreen(),
        off_h_percent_cells: s.item.spec_offset_h_percent_cells(frame),
        off_v_percent_cells: s.item.spec_offset_v_percent_cells(frame),
        offset_h_cells: s.item.spec_offset_h_cells(),
        offset_v_cells: s.item.spec_offset_v_cells(),
    }
}

/// The layout inputs of the live states at anchor `a`, in insertion order.
pub open spec fn layout_items<T: Animated>(s: Seq<LifecycleState<T>>, a: Anchor, frame: Rect) -> Seq<LayoutItem> {
    live_at(s, a).map_values(|st: LifecycleState<T>| layout_of(st, frame))
}

impl<T: Animated> AnimationManager<T> {
    /// Layout inputs for the live items at anchor `a`, in insertion order: id
    /// and creation time from the state, size, margin and offsets from the item.
    pub fn layout_items_at(&self, a: Anchor, frame: Rect) -> (r: Vec<LayoutItem>)
        ensures
            r@ == layout_items(self.spec_states(), a, frame),
    {
        let n = self.states.len();
        let mut out: Vec<LayoutItem> = Vec::new();
        let mut i: usize = 0;
        proof {
            assert(out@ =~= layout_items(self.states@.take(0), a, frame));
        }
        while i < n
            invariant
                n == self.states@.len(),
                i <= n,
                out@ == layout_items(self.states@.take(i as int), a, frame),
            decreases n - i,
        {
            proof {
                assert(self.states@.take(i + 1).drop_last() =~= self.states@.take(i as int));
            }
            let st = &self.states[i];
            let live = match st.phase {
                AnimationPhase::Finished => false,
                _ => true,
            };
            if st.anchor == a && live {
                let it = LayoutItem {
                    id: st.id,
                    created_at: st.created_at,
                    width: st.item.width(),
                    height: st.item.height(),
                    margin: st.item.exterior_margin(),
                    fullscreen: st.item.is_fullscreen(),
                    off_h_percent_cells: st.item.offset_h_percent_cells(frame),
                    off_v_percent_cells: st.item.offset_v_percent_cells(frame),
                    offset_h_cells: st.item.offset_h_cells(),
                    offset_v_cells: st.item.offset_v_cells(),
                };
                out.push(it);
                proof {
                    assert(live_at(self.states@.take(i + 1), a) == live_at(self.states@.take(i as int), a).push(*st));
                    assert(out@ =~= layout_items(self.states@.take(i + 1), a, frame));
                }
            } else {
                proof {
                    assert(live_at(self.states@.take(i + 1), a) == live_at(self.states@.take(i as int), a));
                }
            }
            i += 1;
        }
        proof {
            assert(self.states@.take(n as int) =~= self.states@);
        }
        out
    }

    /// Plans the live items at anchor `a` with the manager's stacking policy.
    ///
    /// Returns the visible items (oldest first) and their placements.
    pub fn plan_at(&self, a: Anchor, frame: Rect) -> (r: (Vec<LayoutItem>, Vec<PlannedRect>))
        requires
            self.wf(),
            anchor_point_fits(frame),
        ensures
            forall|i: int, j: int| 0 <= i < j < r.0@.len() ==> r.0@[i].id != r.0@[j].id,
            r.0@.len() == live_at(self.spec_states(), a).len(),
            r.0@.to_multiset() == visible_all(layout_items(self.spec_states(), a, frame), frame).to_multiset(),
            by_created(r.0@),
            r.1@ == spec_plan(a, r.0@, frame, self.stacking_policy),
            forall|i: int| #![trigger r.0@[i]] 0 <= i < r.0@.len() ==> exists|j: int|
                #![trigger self.spec_states()[j]]
                0 <= j < self.spec_states().len() && {
                    let st = self.spec_states()[j];
                    &&& st.anchor == a
                    &&& st.phase != AnimationPhase::Finished
                    &&& r.0@[i] == spec_visible(layout_of(st, frame), frame)
                },
    {
        let items = self.layout_items_at(a, frame);
        let (v, plan) = plan_anchor(a, &items, frame, self.stacking_policy);
        proof {
            broadcast use vstd::seq_lib::group_to_multiset_ensures;
            assert(v@.len() == v@.to_multiset().len());
            assert(visible_all(items@, frame).len() == visible_all(items@, frame).to_multiset().len());
            lemma_live_at_members(self.spec_states(), a);
            let live = live_at(self.spec_states(), a);
            lemma_live_at_ids_unique(self.spec_states(), a);
            let w = visible_all(items@, frame);
            assert forall|i: int, j: int| 0 <= i < j < w.len() implies w[i].id != w[j].id by {
                assert(w[i].id == live[i].id);
                assert(w[j].id == live[j].id);
            }
            lemma_permuted_ids_unique(v@, w);
            assert forall|i: int| #![trigger v@[i]] 0 <= i < v@.len() implies exists|j: int|
                #![trigger self.spec_states()[j]]
                0 <= j < self.spec_states().len() && {
                    let st = self.spec_states()[j];
                    &&& st.anchor == a
                    &&& st.phase != AnimationPhase::Finished
                    &&& v@[i] == spec_visible(layout_of(st, frame), frame)
                } by {
                assert(v@.to_multiset().count(v@[i]) > 0);
                assert(visible_all(items@, frame).contains(v@[i]));
                let m = choose|m: int| 0 <= m < visible_all(items@, frame).len() && visible_all(items@, frame)[m] == v@[i];
                assert(items@[m] == layout_of(live[m], frame));
                assert(live[m].anchor == a);
                let j = choose|j: int| 0 <= j < self.spec_states().len() && self.spec_states()[j] == live[m];
                assert(self.spec_states()[j] == live[m]);
            }
        }
        (v, plan)
    }
}

/// One anchor's part of a render plan: the anchor, its visible items oldest
/// first, and their placements.
pub struct AnchorPlan {
    pub anchor: Anchor,
    pub items: Vec<LayoutItem>,
    pub rects: Vec<PlannedRect>,
}

/// The anchors of a render plan, in plan order.
pub open spec fn plan_anchors(groups: Seq<AnchorPlan>) -> Seq<Anchor> {
    groups.map_values(|g: AnchorPlan| g.anchor)
}

impl<T: Animated> AnimationManager<T> {
    /// The render plan of the whole frame: every anchor that holds items, in
    /// rendering order (named anchors top-left to bottom-right, then absolute
    /// ones), each with its items planned by the stacking policy.
    pub fn render_plan(&self, frame: Rect) -> (groups: Vec<AnchorPlan>)
        requires
            self.wf(),
            anchor_point_fits(frame),
        ensures
            plan_anchors(groups@).to_multiset() == anchors_in(self.spec_states()).to_multiset(),
            in_render_order(plan_anchors(groups@)),
            forall|k: int| #![trigger groups@[k]] 0 <= k < groups@.len() ==> {
                &&& groups@[k].items@.len() == live_at(self.spec_states(), groups@[k].anchor).len()
                &&& groups@[k].items@.to_multiset() == visible_all(
                    layout_items(self.spec_states(), groups@[k].anchor, frame),
                    frame,
                ).to_multiset()
                &&& by_created(groups@[k].items@)
                &&& groups@[k].rects@ == spec_plan(groups@[k].anchor, groups@[k].items@, frame, self.stacking_policy)
                &&& forall|i: int, j: int| 0 <= i < j < groups@[k].items@.len() ==> groups@[k].items@[i].id
                    != groups@[k].items@[j].id
                &&& forall|i: int| #![trigger groups@[k].items@[i]] 0 <= i < groups@[k].items@.len() ==> exists|j: int|
                    #![trigger self.spec_states()[j]]
                    0 <= j < self.spec_states().len() && {
                        let st = self.spec_states()[j];
                        &&& st.anchor == groups@[k].anchor
                        &&& st.phase != AnimationPhase::Finished
                        &&& groups@[k].items@[i] == spec_visible(layout_of(st, frame), frame)
                    }
            },
    {
        let anchors = self.anchors();
        let order = render_order(&anchors);
        let mut out: Vec<AnchorPlan> = Vec::new();
        let mut i: usize = 0;
        while i < order.len()
            invariant
                i <= order@.len(),
                plan_anchors(out@) == order@.take(i as int),
                forall|k: int| #![trigger out@[k]] 0 <= k < out@.len() ==> {
                    &&& out@[k].items@.len() == live_at(self.spec_states(), out@[k].anchor).len()
                    &&& out@[k].items@.to_multiset() == visible_all(
                        layout_items(self.spec_states(), out@[k].anchor, frame),
                        frame,
                    ).to_multiset()
                    &&& by_created(out@[k].items@)
                    &&& out@[k].rects@ == spec_plan(out@[k].anchor, out@[k].items@, frame, self.stacking_policy)
                    &&& forall|i: int, j: int| 0 <= i < j < out@[k].items@.len() ==> out@[k].items@[i].id
                        != out@[k].items@[j].id
                &&& forall|i: int| #![trigger out@[k].items@[i]] 0 <= i < out@[k].items@.len() ==> exists|j: int|
                    #![trigger self.spec_states()[j]]
                    0 <= j < self.spec_states().len() && {
                        let st = self.spec_states()[j];
                        &&& st.anchor == out@[k].anchor
                        &&& st.phase != AnimationPhase::Finished
                        &&& out@[k].items@[i] == spec_visible(layout_of(st, frame), frame)
                    }
                },
                self.wf(),
                anchor_point_fits(frame),
            decreases order.len() - i,
        {
            let a = order[i];
            let (items, rects) = self.plan_at(a, frame);
            let ghost prev = out@;
            out.push(AnchorPlan { anchor: a, items, rects });
            proof {
                assert(plan_anchors(prev).len() == prev.len());
                assert(prev.len() == i);
                assert(plan_anchors(out@).len() == i + 1);
                assert forall|j: int| 0 <= j < i + 1 implies #[trigger] plan_anchors(out@)[j] == order@.take(i + 1)[j] by {
                    if j < i {
                        assert(out@[j] == prev[j]);
                        assert(plan_anchors(prev)[j] == order@.take(i as int)[j]);
                    }
                }
                assert(plan_anchors(out@) =~= order@.take(i + 1));
            }
            i = i + 1;
        }
        proof {
            assert(order@.take(order@.len() as int) =~= order@);
        }
        out
    }
}

} // verus!
