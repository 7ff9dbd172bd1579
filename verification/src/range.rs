//! Interval algebra over zero-based line indices. A `Range` is a closed-open
//! pair of line indices into a file's line sequence; two ranges *touch* when,
//! after widening each end by one line, their spans intersect, so that
//! adjacent edits are treated as overlapping.

use vstd::prelude::*;

verus! {

/// Closed-open interval `(start, end)` of zero-based line indices.
#[derive(Debug, Clone, Copy, PartialEq, Eq, Structural)]
pub struct Range(pub usize, pub usize);

impl Range {
    /// A well-formed range never ends before it starts.
    pub open spec fn wf(self) -> bool {
        self.0 <= self.1
    }

    /// `touches` as a predicate over unbounded integers: neither range lies
    /// strictly past the other even after widening each end by one.
    pub open spec fn sp_touches(self, other: Range) -> bool {
        !(self.1 + 1 < other.0 || other.1 + 1 < self.0)
    }

    /// Smallest range covering both arguments.
    pub open spec fn sp_join(self, other: Range) -> Range {
        Range(
            if self.0 <= other.0 { self.0 } else { other.0 },
            if self.1 >= other.1 { self.1 } else { other.1 },
        )
    }

    /// Converts a diff hunk's one-based start line and line count into a
    /// closed-open zero-based range. A count of zero marks a pure insertion
    /// point: the range is empty, anchored at `start`.
    pub open spec fn sp_from_indices(start: u32, lines: u32) -> Range {
        if lines == 0 {
            Range(start as usize, start as usize)
        } else {
            Range((start - 1) as usize, (start + lines - 1) as usize)
        }
    }

    #[must_use]
    pub fn from_indices(start: u32, lines: u32) -> (r: Self)
        requires
            lines == 0 || start >= 1,
            start as int + lines as int - 1 <= usize::MAX as int,
        ensures
            r == Range::sp_from_indices(start, lines),
            r.wf(),
    {
        if lines == 0 {
            let index: usize = start as usize;
            return Self(index, index);
        }
        Self(start as usize - 1, (start as usize - 1) + lines as usize)
    }

    #[must_use]
    pub fn touches(&self, other: &Self) -> (r: bool)
        ensures
            r == self.sp_touches(*other),
    {
        let is_past_left: bool = other.0 > 0 && self.1 < other.0 - 1;
        let is_past_right: bool = self.0 > 0 && other.1 < self.0 - 1;

        !(is_past_left || is_past_right)
    }

    #[must_use]
    pub fn join(&self, other: &Self) -> (r: Self)
        ensures
            r == self.sp_join(*other),
    {
        Self(
            if self.0 <= other.0 { self.0 } else { other.0 },
            if self.1 >= other.1 { self.1 } else { other.1 },
        )
    }

    #[must_use]
    pub fn join_with_opt(&self, other: &Option<Self>) -> (r: Self)
        ensures
            r == match *other {
                Some(o) => self.sp_join(o),
                None => *self,
            },
    {
        if let Some(other) = other {
            self.join(other)
        } else {
            *self
        }
    }

    pub fn join_mut(&mut self, other: &Self)
        ensures
            *final(self) == old(self).sp_join(*other),
    {
        if other.0 < self.0 {
            self.0 = other.0;
        }
        if other.1 > self.1 {
            self.1 = other.1;
        }
    }
}

} // verus!
