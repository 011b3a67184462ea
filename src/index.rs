//! The running parameter counter shared by the fragments of one pass.
use vstd::prelude::*;

verus! {

/// Hands out parameter numbers, starting from a configured value.
#[derive(Debug, Clone, Copy, PartialEq, Eq, Structural)]
pub struct IndexAllocator {
    pub current: usize,
}

impl IndexAllocator {
    /// A counter whose first number is `start`.
    pub fn new(start: usize) -> (r: IndexAllocator)
        ensures
            r.current == start,
    {
        IndexAllocator { current: start }
    }

    /// Returns the current number, and moves past it when `consumes`.
    pub fn next(&mut self, consumes: bool) -> (r: usize)
        requires
            consumes ==> old(self).current < usize::MAX,
        ensures
            r == old(self).current,
            final(self).current == old(self).current + if consumes {
                1usize
            } else {
                0usize
            },
    {
        let r = self.current;
        if consumes {
            self.current = self.current + 1;
        }
        r
    }
}

} // verus!
