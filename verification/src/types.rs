//! Animation-level policy types shared by the lifecycle, manager and planner.

use vstd::prelude::*;

verus! {

/// How an item enters and leaves the screen.
#[derive(Debug, Clone, Copy, PartialEq, Eq, Structural)]
pub enum Animation {
    /// Slide in/out from the anchor edge.
    Slide,
    /// Expand from / collapse to a scaled rectangle.
    ExpandCollapse,
    /// Fade in/out at the dwell position.
    Fade,
    /// Follow an explicit motion path.
    Motion,
    /// Appear and disappear instantly (no animation).
    Immediate,
}

/// When an item dismisses itself.
#[derive(Debug, Clone, Copy, PartialEq, Eq, Structural)]
pub enum AutoDismiss {
    /// Never dismissed automatically.
    Manual,
    /// Dismissed after this many milliseconds of dwell (0 means the manager's default).
    After(u64),
}

impl Default for AutoDismiss {
    /// The default: dismiss after four seconds.
    fn default() -> (r: AutoDismiss)
        ensures
            r == AutoDismiss::After(4000),
    {
        AutoDismiss::After(4000)
    }
}

/// Whether the border edge of a sliding item vanishes at the screen edge.
#[derive(Debug, Clone, Copy, PartialEq, Eq, Structural)]
pub enum SlideBorderTrimPolicy {
    /// No trimming.
    Off,
    VanishingEdge,
}

/// How several items at one anchor are laid out.
#[derive(Debug, Clone, Copy, PartialEq, Eq, Structural)]
pub enum StackingPolicy {
    /// Stack vertically with `spacing` rows between items.
    Vertical { spacing: u16 },
    /// Stack horizontally with `spacing` columns between items.
    Horizontal { spacing: u16 },
    /// Lay out in a grid of at most `max_columns` columns.
    Grid { max_columns: u16, row_spacing: u16, column_spacing: u16 },
    /// No stacking: only the oldest item is shown.
    Single,
}

impl Default for StackingPolicy {
    /// The default: vertical stacking without spacing.
    fn default() -> (r: StackingPolicy)
        ensures
            r == (StackingPolicy::Vertical { spacing: 0 }),
    {
        StackingPolicy::Vertical { spacing: 0 }
    }
}

/// What happens when an anchor already holds the maximum number of items.
#[derive(Debug, Clone, Copy, PartialEq, Eq, Structural)]
pub enum OverflowPolicy {
    /// Refuse the new item.
    Reject,
    /// Remove the oldest item at that anchor, then add.
    DiscardOldest,
    /// Remove the newest item at that anchor, then add.
    DiscardNewest,
}

impl Default for OverflowPolicy {
    /// The default: discard the oldest item.
    fn default() -> (r: OverflowPolicy)
        ensures
            r == OverflowPolicy::DiscardOldest,
    {
        OverflowPolicy::DiscardOldest
    }
}

} // verus!
