//! Numbers the boot environment speaks in: BIOS interrupt vectors, disk
//! service functions, and the memory-map region classification the
//! firmware reports.

use vstd::prelude::*;

verus! {

/// BIOS interrupts number for each interrupt type used in the kernel.
#[derive(Debug, Clone, Copy, PartialEq, Eq, Structural)]
pub enum BiosInterrupts {
    Video,
    Disk,
    Memory,
}

impl BiosInterrupts {
    /// The interrupt vector this service is reached through.
    pub open spec fn number_spec(self) -> u8 {
        match self {
            BiosInterrupts::Video => 0x10,
            BiosInterrupts::Disk => 0x13,
            BiosInterrupts::Memory => 0x15,
        }
    }

    /// The interrupt vector as a machine value.
    pub fn number(self) -> (r: u8)
        ensures
            r == self.number_spec(),
    {
        match self {
            Self::Video => 0x10,
            Self::Disk => 0x13,
            Self::Memory => 0x15,
        }
    }
}

/// Disk interrupt number for each function used in the kernel.
#[derive(Debug, Clone, Copy, PartialEq, Eq, Structural)]
pub enum DiskInterrupt {
    ExtendedRead,
}

impl DiskInterrupt {
    /// The function code placed in AH for this disk service.
    pub open spec fn number_spec(self) -> u8 {
        match self {
            DiskInterrupt::ExtendedRead => 0x42,
        }
    }

    /// The function code as a machine value.
    pub fn number(self) -> (r: u8)
        ensures
            r == self.number_spec(),
    {
        match self {
            Self::ExtendedRead => 0x42,
        }
    }
}

/// Memory region types
#[derive(Debug, Clone, Copy, PartialEq, Eq, Structural)]
pub enum MemoryRegionType {
    /// Usable memory
    Usable,
    /// Reserved memory
    Reserved,
    /// ACPI reclaimable memory
    AcpiReclaimable,
    /// ACPI NVS memory
    AcpiNvs,
    /// Bad memory
    BadMemory,
}

impl MemoryRegionType {
    /// The code the firmware memory map reports for this region type.
    pub open spec fn value_spec(self) -> u8 {
        match self {
            MemoryRegionType::Usable => 1,
            MemoryRegionType::Reserved => 2,
            MemoryRegionType::AcpiReclaimable => 3,
            MemoryRegionType::AcpiNvs => 4,
            MemoryRegionType::BadMemory => 5,
        }
    }

    /// The region type code as a machine value.
    pub fn value(self) -> (r: u8)
        ensures
            r == self.value_spec(),
    {
        match self {
            Self::Usable => 1,
            Self::Reserved => 2,
            Self::AcpiReclaimable => 3,
            Self::AcpiNvs => 4,
            Self::BadMemory => 5,
        }
    }
}

} // verus!
