//! The places of the grid, handed out in the order in which images arrive.

use vstd::prelude::*;

verus! {

/// Counts the images that were given a place in the grid.
#[derive(Debug)]
pub struct LayoutManager {
    image_count: u32,
}

impl View for LayoutManager {
    type V = int;

    closed spec fn view(&self) -> int {
        self.image_count as int
    }
}

impl LayoutManager {
    /// No image has a place yet.
    pub fn new() -> (r: Self)
        ensures
            r@ == 0,
    {
        Self { image_count: 0 }
    }

    /// How many images have a place.
    pub fn image_count(&self) -> (n: u32)
        ensures
            n == self@,
    {
        self.image_count
    }

    /// The next free place, as long as a `u32` can count one more image.
    pub fn try_next(&mut self) -> (index: Option<u32>)
        ensures
            old(self)@ < u32::MAX ==> index == Some(old(self)@ as u32) && final(self)@ == old(self)@
                + 1,
            old(self)@ >= u32::MAX ==> index is None && final(self)@ == old(self)@,
    {
        if self.image_count < u32::MAX {
            Some(self.next())
        } else {
            None
        }
    }

    /// The next free place.
    pub fn next(&mut self) -> (index: u32)
        requires
            old(self)@ < u32::MAX,
        ensures
            index == old(self)@,
            final(self)@ == old(self)@ + 1,
    {
        let next = self.image_count;
        self.image_count += 1;
        next
    }
}

} // verus!
