//! The size of the surface that is drawn to.

use vstd::prelude::*;

verus! {

#[derive(Clone, Copy, Debug, PartialEq, Eq, Structural)]
pub struct Viewport {
    pub width: u32,
    pub height: u32,
}

impl Viewport {
    pub fn new(width: u32, height: u32) -> (v: Viewport)
        ensures
            v == (Viewport { width, height }),
    {
        Viewport { width, height }
    }

    /// Takes the new size where neither side is 0, and says whether it
    /// did. A size with an empty side is passed over.
    pub fn resize(&mut self, width: u32, height: u32) -> (taken: bool)
        ensures
            taken == (width > 0 && height > 0),
            taken ==> *final(self) == (Viewport { width, height }),
            !taken ==> *final(self) == *old(self),
    {
        if width > 0 && height > 0 {
            self.width = width;
            self.height = height;
            true
        } else {
            false
        }
    }
}

} // verus!
