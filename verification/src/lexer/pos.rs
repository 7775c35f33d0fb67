use vstd::prelude::*;
use std::ops::Range;

verus! {

/// A half-open range of positions in the input.
#[derive(Debug)]
pub struct Pos(pub Range<usize>);

impl Pos {
    /// The range from `s` up to `e`.
    pub fn new(s: usize, e: usize) -> (pos: Self)
        ensures
            pos.0.start == s,
            pos.0.end == e,
    {
        Self(s..e)
    }

    /// The range of the one position `p`.
    pub fn new_one(p: usize) -> (pos: Self)
        requires
            p < usize::MAX,
        ensures
            pos.0.start == p,
            pos.0.end == p + 1,
    {
        Self(p..(p + 1))
    }

    /// The range from the start of `l` up to the end of `r`.
    pub fn merge(l: Self, r: Self) -> (pos: Self)
        ensures
            pos.0.start == l.0.start,
            pos.0.end == r.0.end,
    {
        Self(l.0.start..r.0.end)
    }

    pub fn start(&self) -> (s: usize)
        ensures
            s == self.0.start,
    {
        self.0.start
    }

    pub fn end(&self) -> (e: usize)
        ensures
            e == self.0.end,
    {
        self.0.end
    }
}

} // verus!
