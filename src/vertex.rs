//! The per-vertex attribute of stroke geometry.
use vstd::prelude::*;

verus! {

/// Numbers the vertices that one stroke tessellation emits: 1 for the first,
/// one more for each next one. A fresh counter is made for every glyph, so
/// the numbering never carries over from one glyph to the next.
pub struct StrokeCounter {
    value: u32,
}

impl StrokeCounter {
    /// The number given to the last vertex, or 0 before the first.
    pub closed spec fn count(&self) -> u32 {
        self.value
    }

    /// A counter that has numbered nothing yet.
    pub fn new() -> (r: StrokeCounter)
        ensures
            r.count() == 0,
    {
        StrokeCounter { value: 0 }
    }

    /// The number of the next vertex; it stays at `u32::MAX` once there.
    pub fn next_value(&mut self) -> (r: u32)
        ensures
            old(self).count() < u32::MAX ==> r == old(self).count() + 1,
            old(self).count() == u32::MAX ==> r == u32::MAX,
            final(self).count() == r,
    {
        if self.value < u32::MAX {
            self.value = self.value + 1;
        }
        self.value
    }
}

} // verus!
