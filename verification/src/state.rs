//! The lifecycle state machine of one animated item.
//!
//! Time is measured in nanoseconds on a monotonic clock (`u64`); durations
//! configured by recipes are in milliseconds. An item passes through
//! `Entering -> Dwelling -> Exiting -> Finished`; instant animations skip the
//! entering or exiting phase.

use vstd::prelude::*;
use crate::geometry::{Anchor, Rect};
use crate::types::{Animation, AutoDismiss};

verus! {

/// Nanoseconds per millisecond.
pub open spec fn nanos_per_milli() -> int {
    1_000_000
}

/// Phase of an item's life.
#[derive(Debug, Clone, Copy, PartialEq, Eq, Structural)]
pub enum AnimationPhase {
    Entering,
    Dwelling,
    Exiting,
    Finished,
}

/// Position of a phase in the lifecycle order.
pub open spec fn phase_rank(p: AnimationPhase) -> int {
    match p {
        AnimationPhase::Entering => 0,
        AnimationPhase::Dwelling => 1,
        AnimationPhase::Exiting => 2,
        AnimationPhase::Finished => 3,
    }
}

/// The timing facts of an item that drive its lifecycle.
#[derive(Debug, Clone, Copy, PartialEq, Eq, Structural)]
pub struct LifecycleTiming {
    /// Animation used to enter (and to exit unless `exit_animation` is set).
    pub animation: Animation,
    /// Animation used to exit, if different.
    pub exit_animation: Option<Animation>,
    /// When the item dismisses itself.
    pub auto_dismiss: AutoDismiss,
    /// Duration of the entering phase, in milliseconds.
    pub enter_ms: u64,
    /// Duration of the exiting phase, in milliseconds.
    pub exit_ms: u64,
    /// Period of looping effects, in milliseconds.
    pub loop_period_ms: Option<u64>,
}

impl LifecycleTiming {
    /// The animation used when leaving.
    pub open spec fn spec_exit_anim(self) -> Animation {
        match self.exit_animation {
            Some(a) => a,
            None => self.animation,
        }
    }
}

/// Something the animation manager can hold, place and animate.
///
/// Each method reads a property of the item: the same item gives the same
/// answer every time, which the `spec_` functions name.
pub trait Animated {
    /// The anchor of this item.
    spec fn spec_anchor(&self) -> Anchor;
    /// The timing of this item.
    spec fn spec_timing(&self) -> LifecycleTiming;
    /// The width of this item.
    spec fn spec_width(&self) -> u16;
    /// The height of this item.
    spec fn spec_height(&self) -> u16;
    /// The exterior margin of this item.
    spec fn spec_exterior_margin(&self) -> u16;
    /// Whether this item is fullscreen.
    spec fn spec_is_fullscreen(&self) -> bool;
    /// The horizontal percentage offset of this item in cells of `frame`.
    spec fn spec_offset_h_percent_cells(&self, frame: Rect) -> i32;
    /// The vertical percentage offset of this item in cells of `frame`.
    spec fn spec_offset_v_percent_cells(&self, frame: Rect) -> i32;
    /// The horizontal cell offset of this item.
    spec fn spec_offset_h_cells(&self) -> i16;
    /// The vertical cell offset of this item.
    spec fn spec_offset_v_cells(&self) -> i16;

    /// The screen anchor the item is placed against.
    fn anchor(&self) -> (r: Anchor)
        ensures
            r == self.spec_anchor(),
    ;
    /// The timing that drives the item's lifecycle.
    fn timing(&self) -> (r: LifecycleTiming)
        ensures
            r == self.spec_timing(),
    ;
    /// Configured width in cells.
    fn width(&self) -> (r: u16)
        ensures
            r == self.spec_width(),
    ;
    /// Configured height in cells.
    fn height(&self) -> (r: u16)
        ensures
            r == self.spec_height(),
    ;
    /// Cells between the item and its anchor edge.
    fn exterior_margin(&self) -> (r: u16)
        ensures
            r == self.spec_exterior_margin(),
    ;
    /// Whether the item fills the whole frame.
    fn is_fullscreen(&self) -> (r: bool)
        ensures
            r == self.spec_is_fullscreen(),
    ;
    /// Horizontal percentage offset, converted to cells of `frame`.
    fn offset_h_percent_cells(&self, frame: Rect) -> (r: i32)
        ensures
            r == self.spec_offset_h_percent_cells(frame),
    ;
    /// Vertical percentage offset, converted to cells of `frame`.
    fn offset_v_percent_cells(&self, frame: Rect) -> (r: i32)
        ensures
            r == self.spec_offset_v_percent_cells(frame),
    ;
    /// Horizontal offset in cells.
    fn offset_h_cells(&self) -> (r: i16)
        ensures
            r == self.spec_offset_h_cells(),
    ;
    /// Vertical offset in cells.
    fn offset_v_cells(&self) -> (r: i16)
        ensures
            r == self.spec_offset_v_cells(),
    ;
}

/// Time elapsed from `start` to `now`, zero if `now` is earlier.
pub open spec fn elapsed(start: u64, now: u64) -> int {
    if now >= start {
        now - start
    } else {
        0
    }
}

/// A phase of `dur_ms` milliseconds begun at `start` is complete at `now`.
pub open spec fn phase_done(start: u64, now: u64, dur_ms: u64) -> bool {
    dur_ms == 0 || elapsed(start, now) >= dur_ms * nanos_per_milli()
}

/// The dwell time after which an item dismisses itself, if any.
pub open spec fn display_ms(auto: AutoDismiss, default_ms: u64) -> Option<u64> {
    match auto {
        AutoDismiss::Manual => None,
        AutoDismiss::After(d) => if d > 0 {
            Some(d)
        } else {
            Some(default_ms)
        },
    }
}

/// The part of a lifecycle state that changes over time.
pub struct LifecycleCore {
    pub phase: AnimationPhase,
    pub created_at: u64,
    pub enter_start: u64,
    pub dwell_start: Option<u64>,
    pub exit_start: Option<u64>,
    pub timing: LifecycleTiming,
}

/// The state reached after leaving the dwell phase at `now`.
pub open spec fn spec_leave(c: LifecycleCore, now: u64) -> LifecycleCore {
    if c.timing.spec_exit_anim() == Animation::Immediate {
        LifecycleCore { phase: AnimationPhase::Finished, ..c }
    } else {
        LifecycleCore { phase: AnimationPhase::Exiting, exit_start: Some(now), ..c }
    }
}

/// One step of the lifecycle at time `now`.
pub open spec fn spec_tick(c: LifecycleCore, now: u64, default_ms: u64) -> LifecycleCore {
    match c.phase {
        AnimationPhase::Entering => if phase_done(c.enter_start, now, c.timing.enter_ms) {
            LifecycleCore { phase: AnimationPhase::Dwelling, dwell_start: Some(now), ..c }
        } else {
            c
        },
        AnimationPhase::Dwelling => match c.dwell_start {
            None => LifecycleCore { dwell_start: Some(now), ..c },
            Some(start) => match display_ms(c.timing.auto_dismiss, default_ms) {
                Some(d) => if elapsed(start, now) >= d * nanos_per_milli() {
                    spec_leave(c, now)
                } else {
                    c
                },
                None => c,
            },
        },
        AnimationPhase::Exiting => {
            let start = match c.exit_start {
                Some(s) => s,
                None => now,
            };
            let c2 = LifecycleCore { exit_start: Some(start), ..c };
            if phase_done(start, now, c.timing.exit_ms) {
                LifecycleCore { phase: AnimationPhase::Finished, ..c2 }
            } else {
                c2
            }
        },
        AnimationPhase::Finished => c,
    }
}

/// Law: an entering item starts dwelling on a tick exactly when `enter_ms`
/// milliseconds have passed since it entered; before that it stays entering.
pub proof fn lemma_enter_lasts_enter_ms(c: LifecycleCore, now: u64, default_ms: u64)
    requires
        c.phase == AnimationPhase::Entering,
    ensures
        spec_tick(c, now, default_ms).phase == (if c.timing.enter_ms == 0 || now - c.enter_start >= c.timing.enter_ms
            * 1_000_000 {
            AnimationPhase::Dwelling
        } else {
            AnimationPhase::Entering
        }),
{
}

/// Law: a dwelling item leaves dwelling on a tick exactly when its dwell
/// time has run since it began dwelling: `ms` milliseconds for `After(ms)`
/// with `ms > 0`, the manager's default for `After(0)`. It then exits from
/// that moment, or finishes at once when its exit animation is immediate.
/// With `Manual` it keeps dwelling.
pub proof fn lemma_dwell_lasts_display_time(c: LifecycleCore, now: u64, default_ms: u64)
    requires
        c.phase == AnimationPhase::Dwelling,
        c.dwell_start is Some,
    ensures
        c.timing.auto_dismiss == AutoDismiss::Manual ==> spec_tick(c, now, default_ms) == c,
        c.timing.auto_dismiss matches AutoDismiss::After(ms) ==> {
            let d = if ms > 0 { ms } else { default_ms };
            let t = spec_tick(c, now, default_ms);
            &&& (t.phase != AnimationPhase::Dwelling <==> d == 0 || now - c.dwell_start->0 >= d * 1_000_000)
            &&& t.phase != AnimationPhase::Dwelling ==> (if c.timing.spec_exit_anim() == Animation::Immediate {
                t.phase == AnimationPhase::Finished
            } else {
                t.phase == AnimationPhase::Exiting && t.exit_start == Some(now)
            })
        },
{
}

/// Law: an exiting item finishes on a tick exactly when `exit_ms`
/// milliseconds have passed since its exit began; before that it stays
/// exiting, and its exit start is kept.
pub proof fn lemma_exit_lasts_exit_ms(c: LifecycleCore, now: u64, default_ms: u64)
    requires
        c.phase == AnimationPhase::Exiting,
        c.exit_start is Some,
    ensures
        spec_tick(c, now, default_ms).phase == (if c.timing.exit_ms == 0 || now - c.exit_start->0
            >= c.timing.exit_ms * 1_000_000 {
            AnimationPhase::Finished
        } else {
            AnimationPhase::Exiting
        }),
        spec_tick(c, now, default_ms).exit_start == c.exit_start,
{
}

/// The state after a dismissal request at `now`.
pub open spec fn spec_dismiss(c: LifecycleCore, now: u64) -> LifecycleCore {
    if c.phase == AnimationPhase::Finished {
        c
    } else {
        spec_leave(c, now)
    }
}

/// Law: an item dismissed at `t` (while not finished, with an exit
/// animation) is finished on a later tick at `now` exactly when `exit_ms`
/// milliseconds have passed since `t`.
pub proof fn lemma_dismissed_item_exits_for_exit_ms(c: LifecycleCore, t: u64, now: u64, default_ms: u64)
    requires
        c.phase != AnimationPhase::Finished,
        c.timing.spec_exit_anim() != Animation::Immediate,
    ensures
        spec_tick(spec_dismiss(c, t), now, default_ms).phase == (if c.timing.exit_ms == 0 || now - t >= c.timing.exit_ms
            * 1_000_000 {
            AnimationPhase::Finished
        } else {
            AnimationPhase::Exiting
        }),
{
}

/// Lifecycle state of one item.
pub struct LifecycleState<T> {
    pub id: u64,
    pub item: T,
    /// The anchor the item was placed against when it was added.
    pub anchor: Anchor,
    pub phase: AnimationPhase,
    pub created_at: u64,
    pub enter_start: u64,
    pub dwell_start: Option<u64>,
    pub exit_start: Option<u64>,
    pub timing: LifecycleTiming,
}

/// Progress through a phase as a fraction `elapsed_nanos / (duration_ms * 10^6)`,
/// clamped to `[0, 1]`; a zero duration means complete.
#[derive(Debug, Clone, Copy, PartialEq, Eq, Structural)]
pub struct PhaseProgress {
    pub elapsed_nanos: u64,
    pub duration_ms: u64,
}

/// Position within a loop as `offset_nanos / (period_ms * 10^6)`.
#[derive(Debug, Clone, Copy, PartialEq, Eq, Structural)]
pub struct LoopPosition {
    pub offset_nanos: u64,
    pub period_ms: u64,
}

/// Dwell time used for progress when an item never dismisses itself.
pub open spec fn progress_default_ms() -> u64 {
    4000
}

impl<T> LifecycleState<T> {
    /// The time-varying part of the state.
    pub open spec fn lifecycle_core(&self) -> LifecycleCore {
        LifecycleCore {
            phase: self.phase,
            created_at: self.created_at,
            enter_start: self.enter_start,
            dwell_start: self.dwell_start,
            exit_start: self.exit_start,
            timing: self.timing,
        }
    }

}

impl<T: Animated> LifecycleState<T> {
    /// Starts the lifecycle of `item` at `now`; instant animations begin dwelling.
    pub fn new(id: u64, item: T, now: u64) -> (s: Self)
        ensures
            s.id == id,
            s.item == item,
            s.anchor == item.spec_anchor(),
            s.timing == item.spec_timing(),
            s.created_at == now,
            s.enter_start == now,
            s.exit_start.is_none(),
            item.spec_timing().animation == Animation::Immediate ==> s.phase == AnimationPhase::Dwelling
                && s.dwell_start == Some(now),
            item.spec_timing().animation != Animation::Immediate ==> s.phase == AnimationPhase::Entering
                && s.dwell_start.is_none(),
    {
        let anchor = item.anchor();
        let timing = item.timing();
        Self::start(id, item, anchor, timing, now)
    }

    /// Starts a lifecycle with the anchor and timing already read from the item.
    pub fn start(id: u64, item: T, anchor: Anchor, timing: LifecycleTiming, now: u64) -> (s: Self)
        ensures
            s.id == id,
            s.item == item,
            s.anchor == anchor,
            s.timing == timing,
            s.created_at == now,
            s.enter_start == now,
            s.exit_start.is_none(),
            timing.animation == Animation::Immediate ==> s.phase == AnimationPhase::Dwelling
                && s.dwell_start == Some(now),
            timing.animation != Animation::Immediate ==> s.phase == AnimationPhase::Entering
                && s.dwell_start.is_none(),
    {
        let (phase, dwell_start) = if timing.animation == Animation::Immediate {
            (AnimationPhase::Dwelling, Some(now))
        } else {
            (AnimationPhase::Entering, None)
        };
        LifecycleState {
            id,
            item,
            anchor,
            phase,
            created_at: now,
            enter_start: now,
            dwell_start,
            exit_start: None,
            timing,
        }
    }

    /// The time at which the item was added.
    pub fn created_at(&self) -> (r: u64)
        ensures
            r == self.created_at,
    {
        self.created_at
    }

    /// Whether the lifecycle has ended.
    pub fn is_finished(&self) -> (r: bool)
        ensures
            r == (self.phase == AnimationPhase::Finished),
    {
        self.phase == AnimationPhase::Finished
    }

    fn exit_anim(&self) -> (r: Animation)
        ensures
            r == self.timing.spec_exit_anim(),
    {
        match self.timing.exit_animation {
            Some(a) => a,
            None => self.timing.animation,
        }
    }

    fn effective_display_ms(&self, default_ms: u64) -> (r: Option<u64>)
        ensures
            r == display_ms(self.timing.auto_dismiss, default_ms),
    {
        match self.timing.auto_dismiss {
            AutoDismiss::Manual => None,
            AutoDismiss::After(d) => if d > 0 {
                Some(d)
            } else {
                Some(default_ms)
            },
        }
    }

    /// Requests dismissal: the item starts exiting, or finishes at once when it
    /// leaves without animation. A finished item stays finished.
    pub fn dismiss(&mut self, now: u64)
        ensures
            final(self).lifecycle_core() == spec_dismiss(old(self).lifecycle_core(), now),
            final(self).id == old(self).id,
            final(self).item == old(self).item,
            final(self).anchor == old(self).anchor,
    {
        if self.phase == AnimationPhase::Finished {
            return;
        }
        if self.exit_anim() == Animation::Immediate {
            self.phase = AnimationPhase::Finished;
            return;
        }
        self.phase = AnimationPhase::Exiting;
        self.exit_start = Some(now);
    }

    /// The animation in effect for the current phase.
    pub fn active_animation(&self) -> (r: Animation)
        ensures
            r == (if self.phase == AnimationPhase::Exiting {
                self.timing.spec_exit_anim()
            } else {
                self.timing.animation
            }),
    {
        match self.phase {
            AnimationPhase::Exiting => self.exit_anim(),
            _ => self.timing.animation,
        }
    }

    /// Advances the lifecycle to time `now`; `default_display_ms` is the dwell
    /// time of items whose auto-dismiss duration is zero.
    pub fn tick(&mut self, now: u64, default_display_ms: u64)
        ensures
            final(self).lifecycle_core() == spec_tick(old(self).lifecycle_core(), now, default_display_ms),
            final(self).id == old(self).id,
            final(self).item == old(self).item,
            final(self).anchor == old(self).anchor,
    {
        match self.phase {
            AnimationPhase::Entering => {
                if done(self.enter_start, now, self.timing.enter_ms) {
                    self.phase = AnimationPhase::Dwelling;
                    self.dwell_start = Some(now);
                }
            },
            AnimationPhase::Dwelling => {
                match self.dwell_start {
                    None => {
                        self.dwell_start = Some(now);
                    },
                    Some(start) => {
                        if let Some(d) = self.effective_display_ms(default_display_ms) {
                            if elapsed_at_least(start, now, d) {
                                if self.exit_anim() == Animation::Immediate {
                                    self.phase = AnimationPhase::Finished;
                                } else {
                                    self.phase = AnimationPhase::Exiting;
                                    self.exit_start = Some(now);
                                }
                            }
                        }
                    },
                }
            },
            AnimationPhase::Exiting => {
                let start = match self.exit_start {
                    Some(s) => s,
                    None => now,
                };
                self.exit_start = Some(start);
                if done(start, now, self.timing.exit_ms) {
                    self.phase = AnimationPhase::Finished;
                }
            },
            AnimationPhase::Finished => {},
        }
    }

    /// Progress through the current phase as an exact fraction.
    ///
    /// Entering and exiting measure against their configured durations;
    /// dwelling measures against the dismiss time (four seconds when the item
    /// never dismisses itself); a finished item is complete.
    pub fn phase_progress(&self, now: u64) -> (p: PhaseProgress)
        ensures
            p == (match self.phase {
                AnimationPhase::Entering => PhaseProgress {
                    elapsed_nanos: elapsed(self.enter_start, now) as u64,
                    duration_ms: self.timing.enter_ms,
                },
                AnimationPhase::Dwelling => match self.dwell_start {
                    Some(start) => PhaseProgress {
                        elapsed_nanos: elapsed(start, now) as u64,
                        duration_ms: match display_ms(self.timing.auto_dismiss, progress_default_ms()) {
                            Some(d) => d,
                            None => progress_default_ms(),
                        },
                    },
                    None => PhaseProgress { elapsed_nanos: 0, duration_ms: progress_default_ms() },
                },
                AnimationPhase::Exiting => PhaseProgress {
                    elapsed_nanos: elapsed(
                        match self.exit_start {
                            Some(s) => s,
                            None => self.enter_start,
                        },
                        now,
                    ) as u64,
                    duration_ms: self.timing.exit_ms,
                },
                AnimationPhase::Finished => PhaseProgress { elapsed_nanos: 0, duration_ms: 0 },
            }),
    {
        match self.phase {
            AnimationPhase::Entering => PhaseProgress {
                elapsed_nanos: now.saturating_sub(self.enter_start),
                duration_ms: self.timing.enter_ms,
            },
            AnimationPhase::Dwelling => match self.dwell_start {
                Some(start) => {
                    let d = match self.effective_display_ms(4000) {
                        Some(d) => d,
                        None => 4000,
                    };
                    PhaseProgress { elapsed_nanos: now.saturating_sub(start), duration_ms: d }
                },
                None => PhaseProgress { elapsed_nanos: 0, duration_ms: 4000 },
            },
            AnimationPhase::Exiting => {
                let start = match self.exit_start {
                    Some(s) => s,
                    None => self.enter_start,
                };
                PhaseProgress { elapsed_nanos: now.saturating_sub(start), duration_ms: self.timing.exit_ms }
            },
            AnimationPhase::Finished => PhaseProgress { elapsed_nanos: 0, duration_ms: 0 },
        }
    }

    /// Position within the looping period, or `None` when effects do not loop.
    pub fn loop_progress(&self, now: u64) -> (r: Option<LoopPosition>)
        ensures
            r == (match self.timing.loop_period_ms {
                Some(p) => if p == 0 {
                    None
                } else {
                    Some(LoopPosition {
                        offset_nanos: (elapsed(self.created_at, now) % (p * nanos_per_milli())) as u64,
                        period_ms: p,
                    })
                },
                None => None,
            }),
    {
        match self.timing.loop_period_ms {
            Some(p) => {
                if p == 0 {
                    None
                } else {
                    let e = now.saturating_sub(self.created_at) as u128;
                    let period = p as u128 * 1_000_000u128;
                    let off = e % period;
                    assert(off <= e) by (nonlinear_arith)
                        requires
                            off == e % period,
                            period > 0,
                    ;
                    Some(LoopPosition { offset_nanos: off as u64, period_ms: p })
                }
            },
            None => None,
        }
    }
}

/// Whether a phase of `dur_ms` begun at `start` is complete at `now`.
fn done(start: u64, now: u64, dur_ms: u64) -> (r: bool)
    ensures
        r == phase_done(start, now, dur_ms),
{
    dur_ms == 0 || elapsed_at_least(start, now, dur_ms)
}

/// Whether at least `ms` milliseconds have passed from `start` to `now`.
fn elapsed_at_least(start: u64, now: u64, ms: u64) -> (r: bool)
    ensures
        r == (elapsed(start, now) >= ms * nanos_per_milli()),
{
    let e = now.saturating_sub(start) as u128;
    e >= (ms as u128) * 1_000_000u128
}

/// Law: ticking never moves an item backward through its phases, a finished
/// item stays finished, and an item that was not entering cannot be entering.
pub proof fn lemma_tick_monotone(c: LifecycleCore, now: u64, default_ms: u64)
    ensures
        phase_rank(spec_tick(c, now, default_ms).phase) >= phase_rank(c.phase),
        c.phase == AnimationPhase::Finished ==> spec_tick(c, now, default_ms) == c,
        spec_tick(c, now, default_ms).timing == c.timing,
        spec_tick(c, now, default_ms).created_at == c.created_at,
{
}

/// Law: a dismissed item is exiting or finished, and leaves without an exit
/// animation only by finishing at once.
pub proof fn lemma_dismiss_leaves(c: LifecycleCore, now: u64)
    ensures
        spec_dismiss(c, now).phase == AnimationPhase::Exiting
            || spec_dismiss(c, now).phase == AnimationPhase::Finished,
        c.phase != AnimationPhase::Finished && c.timing.spec_exit_anim() == Animation::Immediate
            ==> spec_dismiss(c, now).phase == AnimationPhase::Finished,
        c.phase != AnimationPhase::Finished && c.timing.spec_exit_anim() != Animation::Immediate
            ==> spec_dismiss(c, now).phase == AnimationPhase::Exiting
            && spec_dismiss(c, now).exit_start == Some(now),
{
}

/// Law: an item that never dismisses itself stays dwelling under any number of ticks.
pub proof fn lemma_manual_dwell_persists(c: LifecycleCore, now: u64, default_ms: u64)
    requires
        c.phase == AnimationPhase::Dwelling,
        c.dwell_start.is_some(),
        c.timing.auto_dismiss == AutoDismiss::Manual,
    ensures
        spec_tick(c, now, default_ms) == c,
{
}

/// Law: a dwelling item with a dismiss time moves on exactly when that time has passed.
pub proof fn lemma_dwell_expires(c: LifecycleCore, now: u64, default_ms: u64, d: u64)
    requires
        c.phase == AnimationPhase::Dwelling,
        c.dwell_start.is_some(),
        display_ms(c.timing.auto_dismiss, default_ms) == Some(d),
    ensures
        (spec_tick(c, now, default_ms).phase != AnimationPhase::Dwelling)
            <==> elapsed(c.dwell_start.unwrap(), now) >= d * nanos_per_milli(),
{
}

} // verus!
