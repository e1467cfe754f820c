use vmcore::entry::PageTableEntry;
use vmcore::table::PageTable;

#[test]
fn fresh_table_is_zeroed_and_unused() {
    let t = PageTable::new();
    assert!(t.is_unused());
    for i in [0usize, 1, 255, 511] {
        assert_eq!(t.entry(i).value(), 0);
    }
}

#[test]
fn setting_an_entry_marks_table_used() {
    let mut t = PageTable::new();
    let mut e = PageTableEntry::new();
    e.set_present(true);
    t.set_entry(17, e);
    assert!(!t.is_unused());
    assert!(t.entry(17).is_present());
    assert!(!t.entry(16).is_present());
    t.set_entry(17, PageTableEntry::new());
    assert!(t.is_unused());
}
