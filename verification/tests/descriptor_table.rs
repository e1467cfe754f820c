use vmcore::entry::PageTableEntry;
use vmcore::error::PagingError;
use vmcore::gdt::{GlobalDescriptorTable, CODE_SEGMENT_BITS, DATA_SEGMENT_BITS};

#[test]
fn gdt_null_code_data_selectors() {
    let mut gdt = GlobalDescriptorTable::new();
    assert_eq!(gdt.len(), 1);
    let code = gdt.add_code_segment().unwrap();
    let data = gdt.add_data_segment().unwrap();
    assert_eq!(gdt.len(), 3);
    // The null descriptor's 8 bytes are all zero; selectors are byte offsets.
    assert_eq!(gdt.entry(0).value(), 0);
    assert_eq!(code, 0x08);
    assert_eq!(data, 0x10);
    assert_eq!(gdt.entry(1).value(), CODE_SEGMENT_BITS);
    assert_eq!(gdt.entry(2).value(), DATA_SEGMENT_BITS);
    assert_eq!(gdt.byte_size(), 24);
}

#[test]
fn gdt_capacity_is_fixed() {
    let mut gdt = GlobalDescriptorTable::new();
    for i in 0..7 {
        let sel = gdt.add_code_segment().unwrap();
        assert_eq!(sel as usize, (i + 1) * 8);
    }
    assert_eq!(gdt.len(), 8);
    assert_eq!(gdt.add_code_segment(), Err(PagingError::TableFull));
    assert_eq!(gdt.add_data_segment(), Err(PagingError::TableFull));
    assert_eq!(gdt.len(), 8);
}

#[test]
fn page_table_entry_bit_layout() {
    let mut e = PageTableEntry::new();
    assert_eq!(e.value(), 0);
    e.set_present(true);
    assert_eq!(e.value(), 1);
    e.set_writable(true);
    assert_eq!(e.value(), 0b11);
    e.set_user(true);
    assert_eq!(e.value(), 0b111);
    e.set_huge(true);
    assert_eq!(e.value(), 0b1000_0111);
    e.set_no_execute(true);
    assert_eq!(e.value(), 0x8000_0000_0000_0087);
    e.set_frame(vmcore::addr::PhysicalAddress::new(0x0020_0000));
    assert_eq!(e.value(), 0x8000_0000_0020_0087);
    assert_eq!(e.frame().as_usize(), 0x0020_0000);
    assert!(e.is_present() && e.is_writable() && e.is_user() && e.is_huge() && e.is_no_execute());
    e.set_huge(false);
    assert!(!e.is_huge());
    assert_eq!(e.frame().as_usize(), 0x0020_0000);
    e.clear();
    assert_eq!(e.value(), 0);
    assert!(!e.is_present());
}
