//! Half-open ranges of absolute row positions.

use vstd::prelude::*;

verus! {

/// Absolute position of a row in the logical (sorted, filtered) row sequence.
pub type RowIndex = u64;

/// A contiguous half-open range `[start, end)` of row positions.
///
/// A window whose `end` does not exceed its `start` holds no position.
#[derive(Copy, Clone, Debug, PartialEq, Eq, Structural)]
pub struct Window {
    pub start: RowIndex,
    pub end: RowIndex,
}

impl Window {
    /// Whether position `i` lies in the window.
    pub open spec fn has(self, i: int) -> bool {
        self.start <= i < self.end
    }

    /// The number of positions in the window.
    pub open spec fn count(self) -> nat {
        if self.start < self.end {
            (self.end - self.start) as nat
        } else {
            0
        }
    }

    /// The window widened by `margin` positions on each side, within the range of `RowIndex`.
    pub open spec fn widened(self, margin: nat) -> Window {
        Window {
            start: if self.start >= margin {
                (self.start - margin) as u64
            } else {
                0
            },
            end: if self.end + margin <= u64::MAX {
                (self.end + margin) as u64
            } else {
                u64::MAX
            },
        }
    }

    /// The window cut off at `limit`: the positions of the window that lie below `limit`.
    pub open spec fn below(self, limit: RowIndex) -> Window {
        Window {
            start: if self.start <= limit {
                self.start
            } else {
                limit
            },
            end: if self.end <= limit {
                self.end
            } else {
                limit
            },
        }
    }

    /// The window `[start, end)`.
    pub fn new(start: RowIndex, end: RowIndex) -> (w: Window)
        ensures
            w.start == start,
            w.end == end,
    {
        Window { start, end }
    }

    /// The number of positions in the window.
    pub fn len(&self) -> (n: u64)
        ensures
            n == self.count(),
    {
        if self.start < self.end {
            self.end - self.start
        } else {
            0
        }
    }

    /// Whether the window holds no position.
    pub fn is_empty(&self) -> (empty: bool)
        ensures
            empty == (self.count() == 0),
            empty == (forall|i: int| !self.has(i)),
    {
        proof {
            if self.start < self.end {
                assert(self.has(self.start as int));
            }
        }
        self.start >= self.end
    }

    /// Whether `index` lies in the window.
    pub fn contains(&self, index: RowIndex) -> (inside: bool)
        ensures
            inside == self.has(index as int),
    {
        self.start <= index && index < self.end
    }

    /// Widens the window by `margin` positions on each side; the bounds stop at the
    /// ends of the range of `RowIndex`.
    pub fn expand(&self, margin: u64) -> (w: Window)
        ensures
            w == self.widened(margin as nat),
            forall|i: int| self.has(i) ==> w.has(i),
    {
        let start: u64 = if self.start >= margin {
            self.start - margin
        } else {
            0
        };
        let end: u64 = if self.end <= u64::MAX - margin {
            self.end + margin
        } else {
            u64::MAX
        };
        Window { start, end }
    }

    /// Cuts the window off at `limit`.
    pub fn clamp_to(&self, limit: RowIndex) -> (w: Window)
        ensures
            w == self.below(limit),
            forall|i: int| w.has(i) <==> self.has(i) && i < limit,
    {
        let start: u64 = if self.start <= limit {
            self.start
        } else {
            limit
        };
        let end: u64 = if self.end <= limit {
            self.end
        } else {
            limit
        };
        Window { start, end }
    }
}

} // verus!
