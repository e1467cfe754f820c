//! One level of the hierarchy: a table of exactly 512 entries occupying
//! one 4 KiB frame, with indexed lookup and entry mutation.

use crate::entry::PageTableEntry;
use vstd::prelude::*;

verus! {

/// An array of exactly 512 page table entries.
#[derive(Debug, Clone, PartialEq, Eq)]
pub struct PageTable {
    /// The 512 entries of this table.
    pub entries: Vec<PageTableEntry>,
}

impl View for PageTable {
    type V = Seq<PageTableEntry>;

    open spec fn view(&self) -> Seq<PageTableEntry> {
        self.entries@
    }
}

impl PageTable {
    /// A table is well formed when it holds exactly 512 entries.
    pub open spec fn wf(self) -> bool {
        self@.len() == 512
    }

    /// Every entry of the table is non-present.
    pub open spec fn all_unused(self) -> bool {
        forall|i: int| 0 <= i < self@.len() ==> !(#[trigger] self@[i]).present()
    }

    /// A fresh, explicitly zero-initialized table: every entry cleared.
    pub fn new() -> (r: Self)
        ensures
            r.wf(),
            forall|i: int|
                0 <= i < 512 ==> (#[trigger] r@[i]).bits == 0 && !r@[i].present() && !r@[i].huge()
                    && r@[i].frame_key() == 0,
            r.all_unused(),
    {
        let mut entries: Vec<PageTableEntry> = Vec::new();
        let mut n: usize = 0;
        while n < 512
            invariant
                n <= 512,
                entries@.len() == n,
                forall|i: int|
                    0 <= i < n ==> (#[trigger] entries@[i]).bits == 0 && !entries@[i].present()
                        && !entries@[i].huge() && entries@[i].frame_key() == 0,
            decreases 512 - n,
        {
            entries.push(PageTableEntry::new());
            n = n + 1;
        }
        let r = PageTable { entries };
        assert(r.all_unused());
        r
    }

    /// Read the entry at `index`; out-of-range is a caller error, ruled
    /// out ahead of the call.
    pub fn entry(&self, index: usize) -> (r: PageTableEntry)
        requires
            self.wf(),
            index < 512,
        ensures
            r == self@[index as int],
    {
        self.entries[index]
    }

    /// Replace the entry at `index`, leaving every other slot as it was.
    pub fn set_entry(&mut self, index: usize, entry: PageTableEntry)
        requires
            old(self).wf(),
            index < 512,
        ensures
            final(self).wf(),
            final(self)@ == old(self)@.update(index as int, entry),
    {
        self.entries.set(index, entry);
    }

    /// Report whether every entry is non-present, so that the unmap path
    /// can decide whether this table itself could be reclaimed.
    pub fn is_unused(&self) -> (r: bool)
        requires
            self.wf(),
        ensures
            r <==> self.all_unused(),
    {
        let mut n: usize = 0;
        while n < 512
            invariant
                self.wf(),
                n <= 512,
                forall|i: int| 0 <= i < n ==> !(#[trigger] self@[i]).present(),
            decreases 512 - n,
        {
            if self.entries[n].is_present() {
                return false;
            }
            n = n + 1;
        }
        true
    }
}

} // verus!
