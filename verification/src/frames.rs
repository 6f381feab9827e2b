//! The supply of physical frames that page mappings draw from.

use vstd::prelude::*;

verus! {

/// A finite stack of unused physical frames, each named by its frame number.
/// Frames leave from the top (the end of the sequence) and never come back.
pub struct FrameSupply {
    frames: Vec<u64>,
}

impl View for FrameSupply {
    type V = Seq<u64>;

    closed spec fn view(&self) -> Seq<u64> {
        self.frames@
    }
}

impl FrameSupply {
    /// A supply holding exactly `frames`; the last one is handed out first.
    pub fn new(frames: Vec<u64>) -> (supply: FrameSupply)
        ensures
            supply@ == frames@,
    {
        FrameSupply { frames }
    }

    /// Number of frames that are left.
    pub fn available(&self) -> (n: usize)
        ensures
            n == self@.len(),
    {
        self.frames.len()
    }

    /// Hands out the frame on top of the stack, or `None` when the supply is
    /// exhausted; an exhausted supply stays as it is.
    pub fn allocate_frame(&mut self) -> (frame: Option<u64>)
        ensures
            old(self)@.len() == 0 ==> frame.is_none() && final(self)@ == old(self)@,
            old(self)@.len() > 0 ==> frame == Some(old(self)@.last())
                && final(self)@ == old(self)@.drop_last(),
    {
        self.frames.pop()
    }
}

} // verus!
