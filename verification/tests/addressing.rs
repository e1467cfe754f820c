use vmcore::addr::{PhysicalAddress, VirtualAddress};
use vmcore::bios::{BiosInterrupts, DiskInterrupt, MemoryRegionType};
use vmcore::error::PagingError;
use vmcore::level::PageTableLevel;
use vmcore::vga::{cell_offset, rainbow_color_index, Color, ColorCode};

#[test]
fn physical_address_basics() {
    let pa = PhysicalAddress::new(0x1234);
    assert_eq!(pa.as_usize(), 0x1234);
    assert!(PhysicalAddress::new(0x2000).is_aligned(0x1000));
    assert!(!PhysicalAddress::new(0x2001).is_aligned(0x1000));
    assert_eq!(PhysicalAddress::default().as_usize(), 0);
}

#[test]
fn virtual_address_basics() {
    let va = VirtualAddress::new(0xdead_b000);
    assert_eq!(va.as_usize(), 0xdead_b000);
    assert!(va.is_aligned(0x1000));
    assert!(!VirtualAddress::new(0xdead_beef).is_aligned(0x1000));
    assert_eq!(VirtualAddress::default().as_usize(), 0);
}

#[test]
fn align_down_never_increases() {
    let x = PhysicalAddress::new(12);
    assert_eq!(x.align_down(8).as_usize(), 8);
    assert!(x.align_down(8).as_usize() <= x.as_usize());
    assert_eq!(PhysicalAddress::new(0x1fff).align_down(0x1000).as_usize(), 0x1000);
    assert_eq!(VirtualAddress::new(0x1000).align_down(0x1000).as_usize(), 0x1000);
    assert_eq!(VirtualAddress::new(0).align_down(16).as_usize(), 0);
}

#[test]
fn align_up_never_decreases() {
    assert_eq!(PhysicalAddress::new(12).align_up(8).as_usize(), 16);
    assert_eq!(PhysicalAddress::new(16).align_up(8).as_usize(), 16);
    assert_eq!(VirtualAddress::new(0x1001).align_up(0x1000).as_usize(), 0x2000);
    assert_eq!(VirtualAddress::new(0).align_up(0x1000).as_usize(), 0);
}

#[test]
fn align_round_trip_on_aligned_values() {
    // For aligned x, align_up(align_down(x, n), n) gives back at least x.
    for x in [0usize, 0x1000, 0x3000, 0x10_0000] {
        let down = VirtualAddress::new(x).align_down(0x1000);
        let up = down.align_up(0x1000);
        assert!(down.as_usize() <= x);
        assert!(up.as_usize() >= x);
    }
}

#[test]
fn level_shifts_decrease_by_nine() {
    assert_eq!(PageTableLevel::PML4E.shift(), 39);
    assert_eq!(PageTableLevel::PDPTE.shift(), 30);
    assert_eq!(PageTableLevel::PDE.shift(), 21);
    assert_eq!(PageTableLevel::PTE.shift(), 12);
    let mut level = PageTableLevel::PML4E;
    while let Some(lower) = level.next_lower() {
        assert_eq!(lower.shift(), level.shift() - 9);
        level = lower;
    }
    assert_eq!(level.shift(), 12);
}

#[test]
fn level_taxonomy() {
    assert_eq!(PageTableLevel::PML4E.next_lower(), Some(PageTableLevel::PDPTE));
    assert_eq!(PageTableLevel::PDPTE.next_lower(), Some(PageTableLevel::PDE));
    assert_eq!(PageTableLevel::PDE.next_lower(), Some(PageTableLevel::PTE));
    assert_eq!(PageTableLevel::PTE.next_lower(), None);
    assert!(PageTableLevel::PTE.is_lowest());
    assert!(!PageTableLevel::PTE.is_highest());
    assert!(PageTableLevel::PML4E.is_highest());
    assert!(!PageTableLevel::PML4E.is_lowest());
    assert_eq!(PageTableLevel::PDE.index_mask(), 0x1ff);
    for v in 1u8..=4 {
        assert_eq!(PageTableLevel::from_value(v).value(), v);
    }
}

#[test]
fn table_index_selects_nine_bit_fields() {
    let v = VirtualAddress::new((3 << 39) | (4 << 30) | (5 << 21) | (6 << 12) | 0x7);
    assert_eq!(PageTableLevel::PML4E.table_index(v), 3);
    assert_eq!(PageTableLevel::PDPTE.table_index(v), 4);
    assert_eq!(PageTableLevel::PDE.table_index(v), 5);
    assert_eq!(PageTableLevel::PTE.table_index(v), 6);
}

#[test]
fn table_index_always_in_range() {
    let addrs = [0usize, 1, 0xfff, 0x1000, usize::MAX, 0x7fff_ffff_ffff, 0xdead_beef_f00d];
    let levels = [
        PageTableLevel::PML4E,
        PageTableLevel::PDPTE,
        PageTableLevel::PDE,
        PageTableLevel::PTE,
    ];
    for &a in addrs.iter() {
        for &l in levels.iter() {
            assert!(l.table_index(VirtualAddress::new(a)) <= 511);
        }
    }
}

#[test]
fn paging_error_messages() {
    assert_eq!(PagingError::NotRootTable.message(), "The table is not a root table");
    assert_eq!(PagingError::TableFull.message(), "The table is full");
    assert_eq!(PagingError::NoMapping.message(), "There is no mapping to this entry");
    assert_eq!(
        PagingError::NotATable.message(),
        "This entry contains memory block and not a table"
    );
    assert_eq!(PagingError::InvalidAlignment.message(), "Invalid address alignment");
    assert_eq!(PagingError::OutOfMemory.message(), "Out of memory");
}

#[test]
fn bios_numbers() {
    assert_eq!(BiosInterrupts::Video.number(), 0x10);
    assert_eq!(BiosInterrupts::Disk.number(), 0x13);
    assert_eq!(BiosInterrupts::Memory.number(), 0x15);
    assert_eq!(DiskInterrupt::ExtendedRead.number(), 0x42);
}

#[test]
fn memory_region_values() {
    assert_eq!(MemoryRegionType::Usable.value(), 1);
    assert_eq!(MemoryRegionType::Reserved.value(), 2);
    assert_eq!(MemoryRegionType::AcpiReclaimable.value(), 3);
    assert_eq!(MemoryRegionType::AcpiNvs.value(), 4);
    assert_eq!(MemoryRegionType::BadMemory.value(), 5);
}

#[test]
fn color_codes_pack_nibbles() {
    assert_eq!(ColorCode::new(Color::Yellow, Color::Blue).0, 0x1E);
    assert_eq!(ColorCode::new(Color::White, Color::Black).0, 0x0F);
    assert_eq!(ColorCode::new(Color::Black, Color::LightGreen).0, 0xA0);
    assert_eq!(ColorCode::default().0, 0x0F);
}

#[test]
fn vga_cell_offsets() {
    assert_eq!(cell_offset(0, 0), 0);
    assert_eq!(cell_offset(0, 8), 16);
    assert_eq!(cell_offset(24, 2), (24 * 80 + 2) * 2);
    assert_eq!(rainbow_color_index(0), 0);
    assert_eq!(rainbow_color_index(79), 7);
    for col in 0..80 {
        assert!(rainbow_color_index(col) < 8);
    }
}

#[test]
fn address_arithmetic_wraps_at_the_word_boundary() {
    assert_eq!(PhysicalAddress::new(0x1000).wrapping_add(0x234).as_usize(), 0x1234);
    assert_eq!(PhysicalAddress::new(usize::MAX).wrapping_add(2).as_usize(), 1);
    assert_eq!(VirtualAddress::new(0x2000).wrapping_sub(0x800).as_usize(), 0x1800);
    assert_eq!(VirtualAddress::new(0).wrapping_sub(1).as_usize(), usize::MAX);
}
