use vmcore::addr::{PhysicalAddress, VirtualAddress};
use vmcore::entry::{EntryFlags, PageTableEntry};
use vmcore::error::PagingError;
use vmcore::frame_alloc::FrameAllocator;
use vmcore::paging::AddressSpace;

fn pool(frames: &[usize]) -> FrameAllocator {
    let mut allocator = FrameAllocator::new();
    for &f in frames {
        allocator.deallocate_frame(PhysicalAddress::new(f));
    }
    allocator
}

fn rw() -> EntryFlags {
    EntryFlags { writable: true, user: false, no_execute: false }
}

#[test]
fn map_then_translate_round_trip() {
    let mut space = AddressSpace::new();
    let mut allocator = pool(&[0x10_0000, 0x11_0000, 0x12_0000]);
    let r = space.map(
        VirtualAddress::new(0x1000),
        PhysicalAddress::new(0x0020_0000),
        rw(),
        &mut allocator,
    );
    assert_eq!(r, Ok(None));
    let pa = space.translate(VirtualAddress::new(0x1000)).unwrap();
    assert_eq!(pa.as_usize(), 0x0020_0000);
    // Same page, maximum offset: the low 12 bits pass through unchanged.
    let pa = space.translate(VirtualAddress::new(0x1FFF)).unwrap();
    assert_eq!(pa.as_usize(), 0x0020_0FFF);
}

#[test]
fn translate_unmapped_is_no_mapping() {
    let space = AddressSpace::new();
    assert_eq!(
        space.translate(VirtualAddress::new(0x1000)),
        Err(PagingError::NoMapping)
    );
}

#[test]
fn unmap_without_mapping_is_no_mapping() {
    let mut space = AddressSpace::new();
    assert_eq!(space.unmap(VirtualAddress::new(0x1000)), Err(PagingError::NoMapping));
    // Still no mapping on a path whose upper levels exist but whose leaf is absent.
    let mut allocator = pool(&[0x10_0000, 0x11_0000, 0x12_0000]);
    space
        .map(VirtualAddress::new(0x1000), PhysicalAddress::new(0x0020_0000), rw(), &mut allocator)
        .unwrap();
    assert_eq!(space.unmap(VirtualAddress::new(0x2000)), Err(PagingError::NoMapping));
}

#[test]
fn double_map_overwrites_and_returns_previous_frame() {
    let mut space = AddressSpace::new();
    let mut allocator = pool(&[0x10_0000, 0x11_0000, 0x12_0000]);
    let v = VirtualAddress::new(0x4000);
    let first = space.map(v, PhysicalAddress::new(0x0030_0000), rw(), &mut allocator);
    assert_eq!(first, Ok(None));
    let second = space.map(v, PhysicalAddress::new(0x0040_0000), rw(), &mut allocator);
    assert_eq!(second, Ok(Some(PhysicalAddress::new(0x0030_0000))));
    assert_eq!(space.translate(v).unwrap().as_usize(), 0x0040_0000);
}

#[test]
fn unmap_returns_frame_and_clears_mapping() {
    let mut space = AddressSpace::new();
    let mut allocator = pool(&[0x10_0000, 0x11_0000, 0x12_0000]);
    let v = VirtualAddress::new(0x7000);
    space.map(v, PhysicalAddress::new(0x0050_0000), rw(), &mut allocator).unwrap();
    let freed = space.unmap(v).unwrap();
    assert_eq!(freed.as_usize(), 0x0050_0000);
    assert_eq!(space.translate(v), Err(PagingError::NoMapping));
    assert_eq!(space.unmap(v), Err(PagingError::NoMapping));
}

#[test]
fn exhausted_allocator_reports_out_of_memory_and_leaves_branch_absent() {
    let mut space = AddressSpace::new();
    let mut allocator = FrameAllocator::new();
    let v = VirtualAddress::new(0x1000);
    let r = space.map(v, PhysicalAddress::new(0x0020_0000), rw(), &mut allocator);
    assert_eq!(r, Err(PagingError::OutOfMemory));
    // The root entry for that branch is still absent.
    assert!(!space.root_entry(0).is_present());
    assert_eq!(space.translate(v), Err(PagingError::NoMapping));
}

#[test]
fn partially_exhausted_allocator_keeps_created_tables() {
    let mut space = AddressSpace::new();
    // Only one frame: the PDPT gets created, then the PD allocation fails.
    let mut allocator = pool(&[0x10_0000]);
    let v = VirtualAddress::new(0x1000);
    assert_eq!(
        space.map(v, PhysicalAddress::new(0x0020_0000), rw(), &mut allocator),
        Err(PagingError::OutOfMemory)
    );
    // No rollback: the intermediate table created on the way stays linked,
    // and the address still translates to nothing.
    assert!(space.root_entry(0).is_present());
    assert_eq!(space.translate(v), Err(PagingError::NoMapping));
    // A retry with enough frames reuses the kept table.
    let mut allocator = pool(&[0x11_0000, 0x12_0000]);
    assert_eq!(
        space.map(v, PhysicalAddress::new(0x0020_0000), rw(), &mut allocator),
        Ok(None)
    );
    assert_eq!(space.translate(v).unwrap().as_usize(), 0x0020_0000);
}

#[test]
fn unaligned_frame_is_rejected() {
    let mut space = AddressSpace::new();
    let mut allocator = pool(&[0x10_0000, 0x11_0000, 0x12_0000]);
    let r = space.map(
        VirtualAddress::new(0x1000),
        PhysicalAddress::new(0x0020_0001),
        rw(),
        &mut allocator,
    );
    assert_eq!(r, Err(PagingError::InvalidAlignment));
    assert_eq!(space.translate(VirtualAddress::new(0x1000)), Err(PagingError::NoMapping));
}

#[test]
fn huge_intermediate_entry_is_not_a_table() {
    let mut space = AddressSpace::new();
    // Hand-craft a huge-page leaf in the root table: present + huge.
    let mut huge = PageTableEntry::new();
    huge.set_present(true);
    huge.set_huge(true);
    space.root.set_entry(0, huge);
    let v = VirtualAddress::new(0x1000);
    assert_eq!(space.translate(v), Err(PagingError::NotATable));
    assert_eq!(space.unmap(v), Err(PagingError::NotATable));
    let mut allocator = pool(&[0x10_0000, 0x11_0000, 0x12_0000]);
    assert_eq!(
        space.map(v, PhysicalAddress::new(0x0020_0000), rw(), &mut allocator),
        Err(PagingError::NotATable)
    );
}

#[test]
fn unmapping_every_leaf_leaves_table_unused() {
    let mut space = AddressSpace::new();
    let mut allocator = pool(&[0x10_0000, 0x11_0000, 0x12_0000]);
    // Two pages under the same leaf page table.
    let v1 = VirtualAddress::new(0x1000);
    let v2 = VirtualAddress::new(0x2000);
    space.map(v1, PhysicalAddress::new(0x0020_0000), rw(), &mut allocator).unwrap();
    space.map(v2, PhysicalAddress::new(0x0030_0000), rw(), &mut allocator).unwrap();
    assert_eq!(space.leaf_table_is_unused(v1), Some(false));
    space.unmap(v1).unwrap();
    assert_eq!(space.leaf_table_is_unused(v1), Some(false));
    space.unmap(v2).unwrap();
    assert_eq!(space.leaf_table_is_unused(v1), Some(true));
    // Where the upper levels lead to no leaf table, there is nothing to report.
    assert_eq!(space.leaf_table_is_unused(VirtualAddress::new(0x80_0000_0000)), None);
}

#[test]
fn mappings_in_distinct_branches_coexist() {
    let mut space = AddressSpace::new();
    let mut allocator = pool(&[
        0x10_0000, 0x11_0000, 0x12_0000, 0x13_0000, 0x14_0000, 0x15_0000,
    ]);
    let low = VirtualAddress::new(0x1000);
    // A distinct PML4 branch: bit 39 set.
    let high = VirtualAddress::new(0x80_0000_0000);
    space.map(low, PhysicalAddress::new(0x0020_0000), rw(), &mut allocator).unwrap();
    space.map(high, PhysicalAddress::new(0x0060_0000), rw(), &mut allocator).unwrap();
    assert_eq!(space.translate(low).unwrap().as_usize(), 0x0020_0000);
    assert_eq!(space.translate(high).unwrap().as_usize(), 0x0060_0000);
    space.unmap(low).unwrap();
    assert_eq!(space.translate(high).unwrap().as_usize(), 0x0060_0000);
}

#[test]
fn allocator_hands_frames_back_in_lifo_order() {
    let mut allocator = FrameAllocator::new();
    assert_eq!(allocator.allocate_frame(), None);
    allocator.deallocate_frame(PhysicalAddress::new(0x10_0000));
    allocator.deallocate_frame(PhysicalAddress::new(0x11_0000));
    assert_eq!(allocator.allocate_frame(), Some(PhysicalAddress::new(0x11_0000)));
    assert_eq!(allocator.allocate_frame(), Some(PhysicalAddress::new(0x10_0000)));
    assert_eq!(allocator.allocate_frame(), None);
}

#[test]
fn huge_entry_below_the_root_is_not_a_table() {
    let mut space = AddressSpace::new();
    // Link root slot 0 to a hand-built PDPT whose slot 0 is a huge-page leaf.
    let mut link = PageTableEntry::new();
    link.set_present(true);
    link.set_frame(PhysicalAddress::new(0x10_0000));
    space.root.set_entry(0, link);
    let mut pdpt = vmcore::table::PageTable::new();
    let mut huge = PageTableEntry::new();
    huge.set_present(true);
    huge.set_huge(true);
    huge.set_frame(PhysicalAddress::new(0x4000_0000));
    pdpt.set_entry(0, huge);
    space.pdpts.push((0x10_0000, pdpt));
    let v = VirtualAddress::new(0x1000);
    assert_eq!(space.translate(v), Err(PagingError::NotATable));
    assert_eq!(space.unmap(v), Err(PagingError::NotATable));
}
