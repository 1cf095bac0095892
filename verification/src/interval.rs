//! Half-open character ranges over the document as it stands before an edit.

use vstd::prelude::*;

verus! {

/// The range `[start, end)`. Every value satisfies `start <= end`.
#[derive(Clone, Copy, Debug, PartialEq, Eq)]
pub struct Interval {
    start: usize,
    end: usize,
}

impl Interval {
    #[verifier::type_invariant]
    pub closed spec fn wf(&self) -> bool {
        self.start <= self.end
    }

    /// First position of the range.
    pub closed spec fn spec_start(&self) -> usize {
        self.start
    }

    /// Position just past the range.
    pub closed spec fn spec_end(&self) -> usize {
        self.end
    }

    /// Number of positions in the range.
    pub open spec fn spec_size(&self) -> usize {
        (self.spec_end() - self.spec_start()) as usize
    }

    /// The range `[start, end)`.
    pub fn new(start: usize, end: usize) -> (r: Interval)
        requires
            start <= end,
        ensures
            r.spec_start() == start,
            r.spec_end() == end,
    {
        Interval { start, end }
    }

    #[verifier::when_used_as_spec(spec_start)]
    pub fn start(&self) -> (r: usize)
        ensures
            r == self.spec_start(),
            r <= self.spec_end(),
    {
        proof {
            use_type_invariant(self);
        }
        self.start
    }

    #[verifier::when_used_as_spec(spec_end)]
    pub fn end(&self) -> (r: usize)
        ensures
            r == self.spec_end(),
            self.spec_start() <= r,
    {
        proof {
            use_type_invariant(self);
        }
        self.end
    }

    /// `end - start`.
    #[verifier::when_used_as_spec(spec_size)]
    pub fn size(&self) -> (r: usize)
        ensures
            r == self.spec_size(),
            self.spec_start() + r == self.spec_end(),
    {
        proof {
            use_type_invariant(self);
        }
        self.end - self.start
    }

    /// Whether the range holds no position.
    pub fn is_empty(&self) -> (r: bool)
        ensures
            r == (self.spec_size() == 0),
    {
        proof {
            use_type_invariant(self);
        }
        self.end == self.start
    }
}

} // verus!
