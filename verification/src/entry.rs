//! The 64-bit hardware page-table entry: present, writable,
//! user-accessible, huge-page and no-execute flag bits, and the 40-bit
//! physical-frame field aligned to 4 KiB.

use crate::addr::PhysicalAddress;
use vstd::prelude::*;

verus! {

/// The caller-requested attributes of a leaf mapping.
#[derive(Debug, Clone, Copy, PartialEq, Eq, Structural)]
pub struct EntryFlags {
    /// Writes through this mapping are allowed.
    pub writable: bool,
    /// The mapping is reachable from user mode.
    pub user: bool,
    /// Instruction fetches through this mapping are forbidden.
    pub no_execute: bool,
}

/// A 64-bit page table entry: bit 0 = present, bit 1 = writable,
/// bit 2 = user-accessible, bit 7 = huge page, bit 63 = no-execute,
/// bits 12-51 = physical frame address.
#[derive(Debug, Clone, Copy, PartialEq, Eq, Structural)]
pub struct PageTableEntry {
    /// The raw hardware representation.
    pub bits: u64,
}

impl PageTableEntry {
    /// The present bit of the raw entry.
    pub open spec fn present(self) -> bool {
        self.bits & 0x1 != 0
    }

    /// The writable bit of the raw entry.
    pub open spec fn writable(self) -> bool {
        self.bits & 0x2 != 0
    }

    /// The user bit of the raw entry.
    pub open spec fn user(self) -> bool {
        self.bits & 0x4 != 0
    }

    /// The huge bit of the raw entry.
    pub open spec fn huge(self) -> bool {
        self.bits & 0x80 != 0
    }

    /// The no-execute bit of the raw entry.
    pub open spec fn no_execute(self) -> bool {
        self.bits & 0x8000_0000_0000_0000 != 0
    }

    /// The physical frame field of the raw entry, in place (bits 12-51).
    pub open spec fn frame_bits(self) -> u64 {
        self.bits & 0x000F_FFFF_FFFF_F000
    }

    /// The physical frame field as a machine address.
    pub open spec fn frame_key(self) -> usize {
        (self.bits & 0x000F_FFFF_FFFF_F000) as usize
    }

    /// A cleared entry: not present, no flags, no frame.
    pub fn new() -> (r: Self)
        ensures
            r.bits == 0,
            !r.present(),
            !r.writable(),
            !r.user(),
            !r.huge(),
            !r.no_execute(),
            r.frame_bits() == 0,
            r.frame_key() == 0,
    {
        proof {
            lemma_zero_entry();
        }
        Self { bits: 0 }
    }

    /// Zero the full 64 bits; this also clears the present bit and so
    /// removes the entry from the table's point of view.
    pub fn clear(&mut self)
        ensures
            final(self).bits == 0,
            !final(self).present(),
            !final(self).writable(),
            !final(self).user(),
            !final(self).huge(),
            !final(self).no_execute(),
            final(self).frame_bits() == 0,
            final(self).frame_key() == 0,
    {
        proof {
            lemma_zero_entry();
        }
        self.bits = 0;
    }

    /// Read the present bit.
    pub fn is_present(&self) -> (r: bool)
        ensures
            r == self.present(),
    {
        self.bits & 0x1 != 0
    }

    /// Read the writable bit.
    pub fn is_writable(&self) -> (r: bool)
        ensures
            r == self.writable(),
    {
        self.bits & 0x2 != 0
    }

    /// Read the user bit.
    pub fn is_user(&self) -> (r: bool)
        ensures
            r == self.user(),
    {
        self.bits & 0x4 != 0
    }

    /// Read the huge bit.
    pub fn is_huge(&self) -> (r: bool)
        ensures
            r == self.huge(),
    {
        self.bits & 0x80 != 0
    }

    /// Read the no-execute bit.
    pub fn is_no_execute(&self) -> (r: bool)
        ensures
            r == self.no_execute(),
    {
        self.bits & 0x8000_0000_0000_0000 != 0
    }

    /// Write the present bit, leaving every other field as it was.
    pub fn set_present(&mut self, value: bool)
        ensures
            final(self).present() == value,
            final(self).writable() == old(self).writable(),
            final(self).user() == old(self).user(),
            final(self).huge() == old(self).huge(),
            final(self).no_execute() == old(self).no_execute(),
            final(self).frame_bits() == old(self).frame_bits(),
            final(self).frame_key() == old(self).frame_key(),
    {
        proof {
            lemma_flag_update_present(old(self).bits);
        }
        if value {
            self.bits = self.bits | 0x1;
        } else {
            self.bits = self.bits & !0x1;
        }
    }

    /// Write the writable bit, leaving every other field as it was.
    pub fn set_writable(&mut self, value: bool)
        ensures
            final(self).writable() == value,
            final(self).present() == old(self).present(),
            final(self).user() == old(self).user(),
            final(self).huge() == old(self).huge(),
            final(self).no_execute() == old(self).no_execute(),
            final(self).frame_bits() == old(self).frame_bits(),
            final(self).frame_key() == old(self).frame_key(),
    {
        proof {
            lemma_flag_update_writable(old(self).bits);
        }
        if value {
            self.bits = self.bits | 0x2;
        } else {
            self.bits = self.bits & !0x2;
        }
    }

    /// Write the user bit, leaving every other field as it was.
    pub fn set_user(&mut self, value: bool)
        ensures
            final(self).user() == value,
            final(self).present() == old(self).present(),
            final(self).writable() == old(self).writable(),
            final(self).huge() == old(self).huge(),
            final(self).no_execute() == old(self).no_execute(),
            final(self).frame_bits() == old(self).frame_bits(),
            final(self).frame_key() == old(self).frame_key(),
    {
        proof {
            lemma_flag_update_user(old(self).bits);
        }
        if value {
            self.bits = self.bits | 0x4;
        } else {
            self.bits = self.bits & !0x4;
        }
    }

    /// Write the huge bit, leaving every other field as it was.
    pub fn set_huge(&mut self, value: bool)
        ensures
            final(self).huge() == value,
            final(self).present() == old(self).present(),
            final(self).writable() == old(self).writable(),
            final(self).user() == old(self).user(),
            final(self).no_execute() == old(self).no_execute(),
            final(self).frame_bits() == old(self).frame_bits(),
            final(self).frame_key() == old(self).frame_key(),
    {
        proof {
            lemma_flag_update_huge(old(self).bits);
        }
        if value {
            self.bits = self.bits | 0x80;
        } else {
            self.bits = self.bits & !0x80;
        }
    }

    /// Write the no-execute bit, leaving every other field as it was.
    pub fn set_no_execute(&mut self, value: bool)
        ensures
            final(self).no_execute() == value,
            final(self).present() == old(self).present(),
            final(self).writable() == old(self).writable(),
            final(self).user() == old(self).user(),
            final(self).huge() == old(self).huge(),
            final(self).frame_bits() == old(self).frame_bits(),
            final(self).frame_key() == old(self).frame_key(),
    {
        proof {
            lemma_flag_update_no_execute(old(self).bits);
        }
        if value {
            self.bits = self.bits | 0x8000_0000_0000_0000;
        } else {
            self.bits = self.bits & !0x8000_0000_0000_0000;
        }
    }

    /// Record the physical frame this entry points at. The frame must be
    /// 4 KiB aligned and fit the 40-bit field; every flag bit is kept.
    pub fn set_frame(&mut self, frame: PhysicalAddress)
        requires
            frame.0 % 4096 == 0,
            frame.0 < 0x10_0000_0000_0000,
        ensures
            final(self).frame_bits() == frame.0 as u64,
            final(self).frame_key() == frame.0,
            final(self).present() == old(self).present(),
            final(self).writable() == old(self).writable(),
            final(self).user() == old(self).user(),
            final(self).huge() == old(self).huge(),
            final(self).no_execute() == old(self).no_execute(),
    {
        let f: u64 = frame.0 as u64;
        proof {
            lemma_frame_update(old(self).bits, frame.0 as u64, frame.0);
        }
        self.bits = (self.bits & !0x000F_FFFF_FFFF_F000) | f;
    }

    /// The physical frame this entry points at.
    pub fn frame(&self) -> (r: PhysicalAddress)
        ensures
            r.0 == self.frame_key(),
    {
        PhysicalAddress((self.bits & 0x000F_FFFF_FFFF_F000) as usize)
    }

    /// The raw 64-bit hardware representation.
    pub fn value(&self) -> (r: u64)
        ensures
            r == self.bits,
    {
        self.bits
    }
}

/// The frame field read back from any raw entry is 4 KiB aligned.
pub proof fn lemma_frame_key_aligned(b: u64)
    by (bit_vector)
    ensures
        ((b & 0x000F_FFFF_FFFF_F000u64) as usize) % 4096 == 0,
{
}

/// Merging a sub-page offset into a page-aligned base with bitwise or
/// is exactly their sum.
pub proof fn lemma_base_or_offset(base: usize, offset: usize)
    by (bit_vector)
    requires
        base % 4096 == 0,
        offset < 4096,
    ensures
        (base | offset) == base + offset,
{
}

/// Every field of the all-zero entry reads as cleared.
proof fn lemma_zero_entry()
    by (bit_vector)
    ensures

        0u64 & 0x1 == 0,
        0u64 & 0x2 == 0,
        0u64 & 0x4 == 0,
        0u64 & 0x80 == 0,
        0u64 & 0x8000_0000_0000_0000 == 0,
        0u64 & 0x000F_FFFF_FFFF_F000 == 0,
        (0u64 & 0x000F_FFFF_FFFF_F000) as usize == 0,
{
}

/// Setting or clearing bit 0x1 touches no other field of the entry.
proof fn lemma_flag_update_present(b: u64)
    by (bit_vector)
    ensures
        (b | 0x1) & 0x1 != 0,
        (b & !0x1) & 0x1 == 0,
        (b | 0x1) & 0x2 == b & 0x2,
        (b & !0x1) & 0x2 == b & 0x2,
        (b | 0x1) & 0x4 == b & 0x4,
        (b & !0x1) & 0x4 == b & 0x4,
        (b | 0x1) & 0x80 == b & 0x80,
        (b & !0x1) & 0x80 == b & 0x80,
        (b | 0x1) & 0x8000_0000_0000_0000 == b & 0x8000_0000_0000_0000,
        (b & !0x1) & 0x8000_0000_0000_0000 == b & 0x8000_0000_0000_0000,
        (b | 0x1) & 0x000F_FFFF_FFFF_F000 == b & 0x000F_FFFF_FFFF_F000,
        (b & !0x1) & 0x000F_FFFF_FFFF_F000 == b & 0x000F_FFFF_FFFF_F000,
        ((b | 0x1) & 0x000F_FFFF_FFFF_F000) as usize == (b & 0x000F_FFFF_FFFF_F000) as usize,
        ((b & !0x1) & 0x000F_FFFF_FFFF_F000) as usize == (b & 0x000F_FFFF_FFFF_F000) as usize,
{
}

/// Setting or clearing bit 0x2 touches no other field of the entry.
proof fn lemma_flag_update_writable(b: u64)
    by (bit_vector)
    ensures
        (b | 0x2) & 0x2 != 0,
        (b & !0x2) & 0x2 == 0,
        (b | 0x2) & 0x1 == b & 0x1,
        (b & !0x2) & 0x1 == b & 0x1,
        (b | 0x2) & 0x4 == b & 0x4,
        (b & !0x2) & 0x4 == b & 0x4,
        (b | 0x2) & 0x80 == b & 0x80,
        (b & !0x2) & 0x80 == b & 0x80,
        (b | 0x2) & 0x8000_0000_0000_0000 == b & 0x8000_0000_0000_0000,
        (b & !0x2) & 0x8000_0000_0000_0000 == b & 0x8000_0000_0000_0000,
        (b | 0x2) & 0x000F_FFFF_FFFF_F000 == b & 0x000F_FFFF_FFFF_F000,
        (b & !0x2) & 0x000F_FFFF_FFFF_F000 == b & 0x000F_FFFF_FFFF_F000,
        ((b | 0x2) & 0x000F_FFFF_FFFF_F000) as usize == (b & 0x000F_FFFF_FFFF_F000) as usize,
        ((b & !0x2) & 0x000F_FFFF_FFFF_F000) as usize == (b & 0x000F_FFFF_FFFF_F000) as usize,
{
}

/// Setting or clearing bit 0x4 touches no other field of the entry.
proof fn lemma_flag_update_user(b: u64)
    by (bit_vector)
    ensures
        (b | 0x4) & 0x4 != 0,
        (b & !0x4) & 0x4 == 0,
        (b | 0x4) & 0x1 == b & 0x1,
        (b & !0x4) & 0x1 == b & 0x1,
        (b | 0x4) & 0x2 == b & 0x2,
        (b & !0x4) & 0x2 == b & 0x2,
        (b | 0x4) & 0x80 == b & 0x80,
        (b & !0x4) & 0x80 == b & 0x80,
        (b | 0x4) & 0x8000_0000_0000_0000 == b & 0x8000_0000_0000_0000,
        (b & !0x4) & 0x8000_0000_0000_0000 == b & 0x8000_0000_0000_0000,
        (b | 0x4) & 0x000F_FFFF_FFFF_F000 == b & 0x000F_FFFF_FFFF_F000,
        (b & !0x4) & 0x000F_FFFF_FFFF_F000 == b & 0x000F_FFFF_FFFF_F000,
        ((b | 0x4) & 0x000F_FFFF_FFFF_F000) as usize == (b & 0x000F_FFFF_FFFF_F000) as usize,
        ((b & !0x4) & 0x000F_FFFF_FFFF_F000) as usize == (b & 0x000F_FFFF_FFFF_F000) as usize,
{
}

/// Setting or clearing bit 0x80 touches no other field of the entry.
proof fn lemma_flag_update_huge(b: u64)
    by (bit_vector)
    ensures
        (b | 0x80) & 0x80 != 0,
        (b & !0x80) & 0x80 == 0,
        (b | 0x80) & 0x1 == b & 0x1,
        (b & !0x80) & 0x1 == b & 0x1,
        (b | 0x80) & 0x2 == b & 0x2,
        (b & !0x80) & 0x2 == b & 0x2,
        (b | 0x80) & 0x4 == b & 0x4,
        (b & !0x80) & 0x4 == b & 0x4,
        (b | 0x80) & 0x8000_0000_0000_0000 == b & 0x8000_0000_0000_0000,
        (b & !0x80) & 0x8000_0000_0000_0000 == b & 0x8000_0000_0000_0000,
        (b | 0x80) & 0x000F_FFFF_FFFF_F000 == b & 0x000F_FFFF_FFFF_F000,
        (b & !0x80) & 0x000F_FFFF_FFFF_F000 == b & 0x000F_FFFF_FFFF_F000,
        ((b | 0x80) & 0x000F_FFFF_FFFF_F000) as usize == (b & 0x000F_FFFF_FFFF_F000) as usize,
        ((b & !0x80) & 0x000F_FFFF_FFFF_F000) as usize == (b & 0x000F_FFFF_FFFF_F000) as usize,
{
}

/// Setting or clearing bit 0x8000_0000_0000_0000 touches no other field of the entry.
proof fn lemma_flag_update_no_execute(b: u64)
    by (bit_vector)
    ensures
        (b | 0x8000_0000_0000_0000) & 0x8000_0000_0000_0000 != 0,
        (b & !0x8000_0000_0000_0000) & 0x8000_0000_0000_0000 == 0,
        (b | 0x8000_0000_0000_0000) & 0x1 == b & 0x1,
        (b & !0x8000_0000_0000_0000) & 0x1 == b & 0x1,
        (b | 0x8000_0000_0000_0000) & 0x2 == b & 0x2,
        (b & !0x8000_0000_0000_0000) & 0x2 == b & 0x2,
        (b | 0x8000_0000_0000_0000) & 0x4 == b & 0x4,
        (b & !0x8000_0000_0000_0000) & 0x4 == b & 0x4,
        (b | 0x8000_0000_0000_0000) & 0x80 == b & 0x80,
        (b & !0x8000_0000_0000_0000) & 0x80 == b & 0x80,
        (b | 0x8000_0000_0000_0000) & 0x000F_FFFF_FFFF_F000 == b & 0x000F_FFFF_FFFF_F000,
        (b & !0x8000_0000_0000_0000) & 0x000F_FFFF_FFFF_F000 == b & 0x000F_FFFF_FFFF_F000,
        ((b | 0x8000_0000_0000_0000) & 0x000F_FFFF_FFFF_F000) as usize == (b & 0x000F_FFFF_FFFF_F000) as usize,
        ((b & !0x8000_0000_0000_0000) & 0x000F_FFFF_FFFF_F000) as usize == (b & 0x000F_FFFF_FFFF_F000) as usize,
{
}

/// Writing an aligned 40-bit frame value into bits 12-51 stores exactly
/// that value and leaves every flag bit as it was.
proof fn lemma_frame_update(b: u64, f: u64, x: usize)
    by (bit_vector)
    requires
        f == x as u64,
        f % 4096 == 0,
        f < 0x10_0000_0000_0000,
    ensures
        ((b & !0x000F_FFFF_FFFF_F000) | f) & 0x000F_FFFF_FFFF_F000 == f,
        (((b & !0x000F_FFFF_FFFF_F000) | f) & 0x000F_FFFF_FFFF_F000) as usize == x,
        ((b & !0x000F_FFFF_FFFF_F000) | f) & 0x1 == b & 0x1,
        ((b & !0x000F_FFFF_FFFF_F000) | f) & 0x2 == b & 0x2,
        ((b & !0x000F_FFFF_FFFF_F000) | f) & 0x4 == b & 0x4,
        ((b & !0x000F_FFFF_FFFF_F000) | f) & 0x80 == b & 0x80,
        ((b & !0x000F_FFFF_FFFF_F000) | f) & 0x8000_0000_0000_0000 == b & 0x8000_0000_0000_0000,
{
}

} // verus!
