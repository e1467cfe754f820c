//! The global descriptor table: a small fixed-capacity ordered sequence
//! of segment descriptors, null first, loaded into the processor to run
//! in long mode.

use crate::error::PagingError;
use vstd::prelude::*;

verus! {

/// How many descriptors the boot-time table can hold.
pub const GDT_CAPACITY: usize = 8;

/// The fixed 64-bit long-mode kernel code descriptor: access byte 0x9A,
/// granularity and long-mode flag bits set, legacy base and limit fields
/// encoded for compatibility.
pub const CODE_SEGMENT_BITS: u64 = 0x00AF_9A00_0000_FFFF;

/// The fixed kernel data descriptor: access byte 0x92, granularity and
/// size flag bits set, legacy base and limit fields encoded for
/// compatibility.
pub const DATA_SEGMENT_BITS: u64 = 0x00CF_9200_0000_FFFF;

/// One 8-byte segment descriptor in the legacy encoding.
#[derive(Debug, Clone, Copy, PartialEq, Eq, Structural)]
pub struct GdtEntry {
    /// The raw hardware representation.
    pub bits: u64,
}

impl GdtEntry {
    /// The raw 64-bit hardware representation.
    pub fn value(&self) -> (r: u64)
        ensures
            r == self.bits,
    {
        self.bits
    }
}

/// A bounded descriptor table whose entry 0 is always the mandatory
/// null descriptor.
#[derive(Debug, Clone, PartialEq, Eq)]
pub struct GlobalDescriptorTable {
    /// The descriptors, in selector order.
    pub entries: Vec<GdtEntry>,
}

impl GlobalDescriptorTable {
    /// The table always starts with the zero null descriptor and never
    /// outgrows its fixed capacity.
    pub open spec fn wf(self) -> bool {
        1 <= self.entries@.len() <= GDT_CAPACITY && self.entries@[0].bits == 0
    }

    /// A new table whose only populated entry is the mandatory null
    /// descriptor at index 0.
    pub fn new() -> (r: Self)
        ensures
            r.wf(),
            r.entries@.len() == 1,
            r.entries@[0].bits == 0,
    {
        let mut entries: Vec<GdtEntry> = Vec::new();
        entries.push(GdtEntry { bits: 0 });
        GlobalDescriptorTable { entries }
    }

    /// How many descriptors the table holds.
    pub fn len(&self) -> (r: usize)
        ensures
            r == self.entries@.len(),
    {
        self.entries.len()
    }

    /// Read the descriptor at `index`.
    pub fn entry(&self, index: usize) -> (r: GdtEntry)
        requires
            index < self.entries@.len(),
        ensures
            r == self.entries@[index as int],
    {
        self.entries[index]
    }

    /// The byte length of the table, as loaded into the descriptor-table
    /// register alongside its base address.
    pub fn byte_size(&self) -> (r: usize)
        requires
            self.wf(),
        ensures
            r == self.entries@.len() * 8,
    {
        self.entries.len() * 8
    }

    /// Append the fixed long-mode kernel code descriptor and return its
    /// selector (byte offset, ring 0, GDT); `TableFull` when the fixed
    /// capacity is already reached.
    pub fn add_code_segment(&mut self) -> (r: Result<u16, PagingError>)
        requires
            old(self).wf(),
        ensures
            final(self).wf(),
            old(self).entries@.len() < GDT_CAPACITY ==> r == Ok::<u16, PagingError>(
                (old(self).entries@.len() * 8) as u16,
            ) && final(self).entries@ == old(self).entries@.push(
                GdtEntry { bits: CODE_SEGMENT_BITS },
            ),
            old(self).entries@.len() >= GDT_CAPACITY ==> r == Err::<u16, PagingError>(
                PagingError::TableFull,
            ) && *final(self) == *old(self),
    {
        if self.entries.len() >= GDT_CAPACITY {
            return Err(PagingError::TableFull);
        }
        let sel = self.entries.len() * 8;
        self.entries.push(GdtEntry { bits: CODE_SEGMENT_BITS });
        Ok(sel as u16)
    }

    /// Append the fixed long-mode kernel data descriptor and return its
    /// selector; `TableFull` when the fixed capacity is already reached.
    pub fn add_data_segment(&mut self) -> (r: Result<u16, PagingError>)
        requires
            old(self).wf(),
        ensures
            final(self).wf(),
            old(self).entries@.len() < GDT_CAPACITY ==> r == Ok::<u16, PagingError>(
                (old(self).entries@.len() * 8) as u16,
            ) && final(self).entries@ == old(self).entries@.push(
                GdtEntry { bits: DATA_SEGMENT_BITS },
            ),
            old(self).entries@.len() >= GDT_CAPACITY ==> r == Err::<u16, PagingError>(
                PagingError::TableFull,
            ) && *final(self) == *old(self),
    {
        if self.entries.len() >= GDT_CAPACITY {
            return Err(PagingError::TableFull);
        }
        let sel = self.entries.len() * 8;
        self.entries.push(GdtEntry { bits: DATA_SEGMENT_BITS });
        Ok(sel as u16)
    }
}

} // verus!
