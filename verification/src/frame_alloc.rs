//! The frame-allocation capability the paging engine consumes: a pool of
//! free, page-aligned physical frames handed out one at a time and
//! returned to the pool when released.

use crate::addr::PhysicalAddress;
use vstd::prelude::*;

verus! {

/// A pool of free physical frames. Frames are handed out from the end of
/// the pool and returned to it; exhaustion is reported, never a fault.
#[derive(Debug, Clone, PartialEq, Eq)]
pub struct FrameAllocator {
    /// The free frames, handed out from the end.
    pub frames: Vec<PhysicalAddress>,
}

impl View for FrameAllocator {
    type V = Seq<PhysicalAddress>;

    open spec fn view(&self) -> Seq<PhysicalAddress> {
        self.frames@
    }
}

impl FrameAllocator {
    /// Every pooled frame is 4 KiB aligned and fits the 40-bit frame
    /// field of a page table entry.
    pub open spec fn wf(self) -> bool {
        forall|i: int|
            0 <= i < self@.len() ==> (#[trigger] self@[i]).0 % 4096 == 0 && self@[i].0
                < 0x10_0000_0000_0000
    }

    /// An empty pool: every allocation from it reports exhaustion.
    pub fn new() -> (r: Self)
        ensures
            r.wf(),
            r@.len() == 0,
    {
        FrameAllocator { frames: Vec::new() }
    }

    /// Hand out a free, page-aligned physical frame, or `None` when the
    /// pool is exhausted.
    pub fn allocate_frame(&mut self) -> (r: Option<PhysicalAddress>)
        requires
            old(self).wf(),
        ensures
            final(self).wf(),
            old(self)@.len() == 0 ==> r is None && final(self)@ == old(self)@,
            old(self)@.len() > 0 ==> r == Some(old(self)@.last()) && final(self)@ == old(
                self,
            )@.drop_last(),
    {
        let r = self.frames.pop();
        r
    }

    /// Return a frame to the pool.
    pub fn deallocate_frame(&mut self, frame: PhysicalAddress)
        requires
            old(self).wf(),
            frame.0 % 4096 == 0,
            frame.0 < 0x10_0000_0000_0000,
        ensures
            final(self).wf(),
            final(self)@ == old(self)@.push(frame),
    {
        self.frames.push(frame);
    }
}

} // verus!
