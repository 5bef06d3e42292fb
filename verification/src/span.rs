use vstd::prelude::*;

verus! {

/// A byte-offset range into the run's global source space.
///
/// Offsets are assigned by the source index: every file loaded into a run
/// occupies a disjoint range, so an offset alone identifies both a file and
/// a position inside it.
#[derive(Clone, Copy, PartialEq, Eq, Structural, Debug)]
pub struct Span {
    pub lo: usize,
    pub hi: usize,
}

impl Span {
    pub fn new(lo: usize, hi: usize) -> (s: Span)
        ensures
            s.lo == lo,
            s.hi == hi,
    {
        Span { lo, hi }
    }
}

} // verus!
