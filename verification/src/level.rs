//! The 4-valued ordered taxonomy of page-table levels, with each level's
//! bit shift, index mask, and the index a virtual address selects in a
//! table of that level.

use crate::addr::VirtualAddress;
use vstd::prelude::*;

verus! {

/// Page table levels for x86_64 paging, ordered PTE < PDE < PDPTE < PML4E.
#[derive(Debug, Clone, Copy, PartialEq, Eq, Structural, PartialOrd, Ord)]
pub enum PageTableLevel {
    /// Page Table Entry (Level 1)
    PTE,
    /// Page Directory Entry (Level 2)
    PDE,
    /// Page Directory Pointer Table Entry (Level 3)
    PDPTE,
    /// Page Map Level 4 Entry (Level 4)
    PML4E,
}

impl PageTableLevel {
    /// The level's ordinal, 1 at the leaf (PTE) up to 4 at the root (PML4E).
    pub open spec fn ordinal(self) -> u8 {
        match self {
            PageTableLevel::PTE => 1,
            PageTableLevel::PDE => 2,
            PageTableLevel::PDPTE => 3,
            PageTableLevel::PML4E => 4,
        }
    }

    /// How far the 9-bit index field of this level sits above bit 0
    /// of a virtual address: 12 + (ordinal - 1) * 9.
    pub open spec fn shift_spec(self) -> usize {
        (12 + (self.ordinal() - 1) * 9) as usize
    }

    /// The level one step closer to the leaf, if any.
    pub open spec fn next_lower_spec(self) -> Option<PageTableLevel> {
        match self {
            PageTableLevel::PML4E => Some(PageTableLevel::PDPTE),
            PageTableLevel::PDPTE => Some(PageTableLevel::PDE),
            PageTableLevel::PDE => Some(PageTableLevel::PTE),
            PageTableLevel::PTE => None,
        }
    }

    /// The index the virtual address `vaddr` selects in a table of this
    /// level: the 9 bits of `vaddr` starting at this level's shift.
    pub open spec fn table_index_spec(self, vaddr: usize) -> usize {
        (((vaddr as u64) >> (self.shift_spec() as u64)) & 0x1ff) as usize
    }

    /// Get the shift amount for this level
    pub fn shift(self) -> (r: usize)
        ensures
            r == self.shift_spec(),
    {
        match self {
            PageTableLevel::PTE => 12,
            PageTableLevel::PDE => 21,
            PageTableLevel::PDPTE => 30,
            PageTableLevel::PML4E => 39,
        }
    }

    /// Get the index mask for this level
    pub fn index_mask(self) -> (r: usize)
        ensures
            r == 0x1ff,
    {
        0x1ff
    }

    /// Get the next lower level
    pub fn next_lower(self) -> (r: Option<Self>)
        ensures
            r == self.next_lower_spec(),
    {
        match self {
            Self::PML4E => Some(Self::PDPTE),
            Self::PDPTE => Some(Self::PDE),
            Self::PDE => Some(Self::PTE),
            Self::PTE => None,
        }
    }

    /// Check if this is the lowest level
    pub fn is_lowest(self) -> (r: bool)
        ensures
            r <==> self is PTE,
    {
        matches!(self, Self::PTE)
    }

    /// Check if this is the highest level
    pub fn is_highest(self) -> (r: bool)
        ensures
            r <==> self is PML4E,
    {
        matches!(self, Self::PML4E)
    }

    /// The level's ordinal as a machine value.
    pub fn value(self) -> (r: u8)
        ensures
            r == self.ordinal(),
    {
        match self {
            Self::PTE => 1,
            Self::PDE => 2,
            Self::PDPTE => 3,
            Self::PML4E => 4,
        }
    }

    /// The level with the given ordinal, 1 through 4.
    pub fn from_value(value: u8) -> (r: Self)
        requires
            1 <= value <= 4,
        ensures
            r.ordinal() == value,
    {
        match value {
            1 => Self::PTE,
            2 => Self::PDE,
            3 => Self::PDPTE,
            _ => Self::PML4E,
        }
    }

    /// The index into a table of this level for the given virtual address.
    pub fn table_index(self, vaddr: VirtualAddress) -> (r: usize)
        ensures
            r == self.table_index_spec(vaddr.0),
            r < 512,
    {
        let s = self.shift();
        assert(s <= 39);
        let r = (((vaddr.0 as u64) >> (s as u64)) & 0x1ff) as usize;
        proof {
            lemma_table_index_in_range(self, vaddr.0);
        }
        r
    }
}

/// Law: the shift strictly decreases by exactly 9 from each level to the
/// next lower one, from PML4E down to PTE, and the lowest level PTE
/// shifts by exactly 12.
pub proof fn lemma_shift_decreases_by_nine(level: PageTableLevel)
    ensures
        PageTableLevel::PTE.shift_spec() == 12,
        level.next_lower_spec() matches Some(lower) ==> lower.shift_spec() == level.shift_spec()
            - 9,
        !(level is PTE) ==> level.shift_spec() > PageTableLevel::PTE.shift_spec(),
{
}

/// Law: for every virtual address and every level, the computed table
/// index lies in [0, 511].
pub proof fn lemma_table_index_in_range(level: PageTableLevel, vaddr: usize)
    ensures
        0 <= level.table_index_spec(vaddr) < 512,
{
    let s = level.shift_spec() as u64;
    assert(((((vaddr as u64) >> s) & 0x1ff) as usize) < 512) by (bit_vector);
}

} // verus!
