use vstd::prelude::*;

verus! {

/// Hands out connection ids: 1, 2, 3, ... in increasing order, never reusing one.
///
/// Ids are `u32`. Once `u32::MAX` has been handed out the allocator is exhausted and
/// `next` returns `None` from then on.
pub struct IdAllocator {
    last: u32,
}

impl View for IdAllocator {
    /// The last id handed out, or 0 before the first.
    type V = u32;

    closed spec fn view(&self) -> u32 {
        self.last
    }
}

impl IdAllocator {
    /// An allocator that has handed out nothing.
    pub fn new() -> (r: IdAllocator)
        ensures
            r@ == 0,
    {
        IdAllocator { last: 0 }
    }

    /// The next id: one above the last one handed out; `None` when the ids are exhausted.
    pub fn next(&mut self) -> (r: Option<u32>)
        ensures
            old(self)@ < u32::MAX ==> r == Some((old(self)@ + 1) as u32) && final(self)@ == old(
                self,
            )@ + 1,
            old(self)@ == u32::MAX ==> r is None && final(self)@ == old(self)@,
    {
        if self.last < u32::MAX {
            self.last = self.last + 1;
            Some(self.last)
        } else {
            None
        }
    }
}

} // verus!
