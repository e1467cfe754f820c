//! The paging engine: walks and builds the 4-level tree to establish,
//! remove or translate a virtual-to-physical mapping, allocating
//! intermediate tables on demand from the frame allocator.
//!
//! Physical memory holding the intermediate tables is modeled explicitly:
//! each level below the root keeps its tables keyed by the physical frame
//! address the parent entry points at, so the walk reads exactly what the
//! hardware would.

use crate::addr::{PhysicalAddress, VirtualAddress};
use crate::entry::{lemma_base_or_offset, lemma_frame_key_aligned, EntryFlags, PageTableEntry};
use crate::error::PagingError;
use crate::frame_alloc::FrameAllocator;
use crate::level::PageTableLevel;
use crate::table::PageTable;
use vstd::prelude::*;

verus! {

/// True when some table in `s` is keyed by frame address `key`.
pub open spec fn has_key(s: Seq<(usize, PageTable)>, key: usize) -> bool {
    exists|i: int| 0 <= i < s.len() && (#[trigger] s[i]).0 == key
}

/// The table in `s` keyed by `key` (arbitrary when the key is absent).
pub open spec fn table_for(s: Seq<(usize, PageTable)>, key: usize) -> PageTable {
    s[choose|i: int| 0 <= i < s.len() && (#[trigger] s[i]).0 == key].1
}

/// No two tables in `s` share a frame address.
pub open spec fn distinct_keys(s: Seq<(usize, PageTable)>) -> bool {
    forall|i: int, j: int|
        0 <= i < j < s.len() ==> (#[trigger] s[i]).0 != (#[trigger] s[j]).0
}

/// Every table in `s` holds exactly 512 entries.
pub open spec fn tables_wf(s: Seq<(usize, PageTable)>) -> bool {
    forall|i: int| 0 <= i < s.len() ==> (#[trigger] s[i]).1.wf()
}

/// Both addresses select the same entry at every level of the walk:
/// they lie in the same 4 KiB page.
pub open spec fn same_page(a: usize, b: usize) -> bool {
    &&& PageTableLevel::PML4E.table_index_spec(a) == PageTableLevel::PML4E.table_index_spec(b)
    &&& PageTableLevel::PDPTE.table_index_spec(a) == PageTableLevel::PDPTE.table_index_spec(b)
    &&& PageTableLevel::PDE.table_index_spec(a) == PageTableLevel::PDE.table_index_spec(b)
    &&& PageTableLevel::PTE.table_index_spec(a) == PageTableLevel::PTE.table_index_spec(b)
}

/// A keyed store that kept its keys, and the table stored under `key`,
/// answers the lookup of `key` as before.
pub proof fn lemma_lookup_preserved(
    s_old: Seq<(usize, PageTable)>,
    s_new: Seq<(usize, PageTable)>,
    key: usize,
)
    requires
        distinct_keys(s_old),
        distinct_keys(s_new),
        s_old.len() <= s_new.len(),
        forall|k: int| 0 <= k < s_old.len() ==> (#[trigger] s_new[k]).0 == s_old[k].0,
        has_key(s_old, key),
        forall|k: int| 0 <= k < s_old.len() && (#[trigger] s_old[k]).0 == key ==> s_new[k]
            == s_old[k],
    ensures
        has_key(s_new, key),
        table_for(s_new, key) == table_for(s_old, key),
{
    let a = choose|a: int| 0 <= a < s_old.len() && (#[trigger] s_old[a]).0 == key;
    lemma_table_for(s_old, key, a);
    lemma_table_for(s_new, key, a);
}

/// Two address spaces whose tables are observably identical at every
/// level.
pub open spec fn same_state(a: AddressSpace, b: AddressSpace) -> bool {
    a.root@ == b.root@ && a.pdpts@ == b.pdpts@ && a.pds@ == b.pds@ && a.pts@ == b.pts@
}

/// An entry that links to a table one level down: present and not a
/// huge-page leaf.
pub open spec fn is_link(e: PageTableEntry) -> bool {
    e.present() && !e.huge()
}

/// With distinct keys, the table looked up by the key stored at slot `i`
/// is exactly the table stored at slot `i`.
pub proof fn lemma_table_for(s: Seq<(usize, PageTable)>, key: usize, i: int)
    requires
        distinct_keys(s),
        0 <= i < s.len(),
        s[i].0 == key,
    ensures
        has_key(s, key),
        table_for(s, key) == s[i].1,
{
    assert(has_key(s, key));
    let j = choose|j: int| 0 <= j < s.len() && (#[trigger] s[j]).0 == key;
    if i != j {
        assert(s[i].0 != s[j].0);
    }
}

/// Appending a freshly keyed table keeps the keys distinct, adds exactly
/// that one key, and changes no other lookup.
pub proof fn lemma_push_table(s: Seq<(usize, PageTable)>, p: (usize, PageTable), key: usize)
    requires
        distinct_keys(s),
        !has_key(s, p.0),
    ensures
        distinct_keys(s.push(p)),
        has_key(s.push(p), p.0),
        table_for(s.push(p), p.0) == p.1,
        key != p.0 ==> (has_key(s.push(p), key) <==> has_key(s, key)),
        key != p.0 && has_key(s, key) ==> table_for(s.push(p), key) == table_for(s, key),
{
    let s2 = s.push(p);
    assert(s2[s.len() as int] == p);
    assert forall|i: int, j: int| 0 <= i < j < s2.len() implies (#[trigger] s2[i]).0 != (
    #[trigger] s2[j]).0 by {
        if j < s.len() {
            assert(s[i].0 != s[j].0);
        } else {
            assert(s2[i] == s[i]);
            assert(!has_key(s, p.0));
            assert(s[i].0 != p.0);
        }
    }
    lemma_table_for(s2, p.0, s.len() as int);
    if key != p.0 {
        if has_key(s, key) {
            let i = choose|i: int| 0 <= i < s.len() && (#[trigger] s[i]).0 == key;
            lemma_table_for(s, key, i);
            lemma_table_for(s2, key, i);
        }
        if has_key(s2, key) {
            let i = choose|i: int| 0 <= i < s2.len() && (#[trigger] s2[i]).0 == key;
            assert(i < s.len());
            assert(s[i].0 == key);
        }
    }
}

/// One address space: the root PML4 table, and the intermediate tables of
/// each lower level keyed by the physical frame that holds them.
pub struct AddressSpace {
    /// The root (PML4) table.
    pub root: PageTable,
    /// Page-directory-pointer tables, keyed by their frame address.
    pub pdpts: Vec<(usize, PageTable)>,
    /// Page directories, keyed by their frame address.
    pub pds: Vec<(usize, PageTable)>,
    /// Leaf page tables, keyed by their frame address.
    pub pts: Vec<(usize, PageTable)>,
}

impl AddressSpace {
    /// Well-formedness: every table has 512 entries, frame keys are
    /// unique per level, and every link entry points at a table that
    /// exists one level down.
    pub open spec fn wf(self) -> bool {
        &&& self.root.wf()
        &&& tables_wf(self.pdpts@)
        &&& tables_wf(self.pds@)
        &&& tables_wf(self.pts@)
        &&& distinct_keys(self.pdpts@)
        &&& distinct_keys(self.pds@)
        &&& distinct_keys(self.pts@)
        &&& forall|i: int|
            0 <= i < 512 && is_link(#[trigger] self.root@[i]) ==> has_key(
                self.pdpts@,
                self.root@[i].frame_key(),
            )
        &&& forall|j: int, i: int|
            0 <= j < self.pdpts@.len() && 0 <= i < 512 && is_link(
                #[trigger] self.pdpts@[j].1@[i],
            ) ==> has_key(self.pds@, self.pdpts@[j].1@[i].frame_key())
        &&& forall|j: int, i: int|
            0 <= j < self.pds@.len() && 0 <= i < 512 && is_link(
                #[trigger] self.pds@[j].1@[i],
            ) ==> has_key(self.pts@, self.pds@[j].1@[i].frame_key())
        &&& forall|i: int, i2: int|
            0 <= i < 512 && 0 <= i2 < 512 && i != i2 && is_link(#[trigger] self.root@[i])
                && is_link(#[trigger] self.root@[i2]) ==> self.root@[i].frame_key()
                != self.root@[i2].frame_key()
        &&& forall|j: int, i: int, j2: int, i2: int|
            0 <= j < self.pdpts@.len() && 0 <= i < 512 && 0 <= j2 < self.pdpts@.len() && 0 <= i2
                < 512 && (j != j2 || i != i2) && is_link(#[trigger] self.pdpts@[j].1@[i])
                && is_link(#[trigger] self.pdpts@[j2].1@[i2])
                ==> self.pdpts@[j].1@[i].frame_key() != self.pdpts@[j2].1@[i2].frame_key()
        &&& forall|j: int, i: int, j2: int, i2: int|
            0 <= j < self.pds@.len() && 0 <= i < 512 && 0 <= j2 < self.pds@.len() && 0 <= i2 < 512
                && (j != j2 || i != i2) && is_link(#[trigger] self.pds@[j].1@[i]) && is_link(
                #[trigger] self.pds@[j2].1@[i2],
            ) ==> self.pds@[j].1@[i].frame_key() != self.pds@[j2].1@[i2].frame_key()
    }

    /// `key` names no table of any level.
    pub open spec fn fresh_key(self, key: usize) -> bool {
        !has_key(self.pdpts@, key) && !has_key(self.pds@, key) && !has_key(self.pts@, key)
    }

    /// Every frame still in the allocator pool is unused by this address
    /// space, and no frame sits in the pool twice.
    pub open spec fn frames_fresh(self, allocator: FrameAllocator) -> bool {
        &&& forall|i: int|
            0 <= i < allocator@.len() ==> self.fresh_key((#[trigger] allocator@[i]).0)
        &&& forall|i: int, j: int|
            0 <= i < j < allocator@.len() ==> (#[trigger] allocator@[i]).0 != (
            #[trigger] allocator@[j]).0
    }

    /// What a hardware walk of this address space returns for `vaddr`:
    /// the 4 KiB frame base of the leaf mapping, `NoMapping` where an
    /// entry on the path is absent, or `NotATable` where an intermediate
    /// entry is a huge-page leaf instead of a table link.
    pub open spec fn translate_spec(self, vaddr: usize) -> Result<usize, PagingError> {
        let e4 = self.root@[PageTableLevel::PML4E.table_index_spec(vaddr) as int];
        if !e4.present() {
            Err(PagingError::NoMapping)
        } else if e4.huge() {
            Err(PagingError::NotATable)
        } else {
            let t3 = table_for(self.pdpts@, e4.frame_key());
            let e3 = t3@[PageTableLevel::PDPTE.table_index_spec(vaddr) as int];
            if !e3.present() {
                Err(PagingError::NoMapping)
            } else if e3.huge() {
                Err(PagingError::NotATable)
            } else {
                let t2 = table_for(self.pds@, e3.frame_key());
                let e2 = t2@[PageTableLevel::PDE.table_index_spec(vaddr) as int];
                if !e2.present() {
                    Err(PagingError::NoMapping)
                } else if e2.huge() {
                    Err(PagingError::NotATable)
                } else {
                    let t1 = table_for(self.pts@, e2.frame_key());
                    let e1 = t1@[PageTableLevel::PTE.table_index_spec(vaddr) as int];
                    if !e1.present() {
                        Err(PagingError::NoMapping)
                    } else {
                        Ok(e1.frame_key())
                    }
                }
            }
        }
    }

    /// The frame key of the leaf page table on `vaddr`'s path, when the
    /// three upper levels all link down to one.
    pub open spec fn leaf_table_key(self, vaddr: usize) -> Option<usize> {
        let e4 = self.root@[PageTableLevel::PML4E.table_index_spec(vaddr) as int];
        if !is_link(e4) {
            None
        } else {
            let e3 = table_for(
                self.pdpts@,
                e4.frame_key(),
            )@[PageTableLevel::PDPTE.table_index_spec(vaddr) as int];
            if !is_link(e3) {
                None
            } else {
                let e2 = table_for(
                    self.pds@,
                    e3.frame_key(),
                )@[PageTableLevel::PDE.table_index_spec(vaddr) as int];
                if !is_link(e2) {
                    None
                } else {
                    Some(e2.frame_key())
                }
            }
        }
    }

    /// How many intermediate tables a 4 KiB map of `vaddr` would have to
    /// allocate (meaningful only where no huge-page leaf blocks the path).
    pub open spec fn tables_needed(self, vaddr: usize) -> int {
        let e4 = self.root@[PageTableLevel::PML4E.table_index_spec(vaddr) as int];
        if !e4.present() {
            3
        } else {
            let e3 = table_for(
                self.pdpts@,
                e4.frame_key(),
            )@[PageTableLevel::PDPTE.table_index_spec(vaddr) as int];
            if !e3.present() {
                2
            } else {
                let e2 = table_for(
                    self.pds@,
                    e3.frame_key(),
                )@[PageTableLevel::PDE.table_index_spec(vaddr) as int];
                if !e2.present() {
                    1
                } else {
                    0
                }
            }
        }
    }

    /// A fresh address space: a zeroed root table and no intermediate
    /// tables; nothing is mapped.
    pub fn new() -> (r: Self)
        ensures
            r.wf(),
            r.pdpts@.len() == 0 && r.pds@.len() == 0 && r.pts@.len() == 0,
            forall|i: int|
                0 <= i < 512 ==> (#[trigger] r.root@[i]).bits == 0 && !r.root@[i].present(),
            forall|v: usize| r.translate_spec(v) == Err::<usize, PagingError>(
                PagingError::NoMapping,
            ),
    {
        let r = AddressSpace {
            root: PageTable::new(),
            pdpts: Vec::new(),
            pds: Vec::new(),
            pts: Vec::new(),
        };
        proof {
            assert forall|v: usize| r.translate_spec(v) == Err::<usize, PagingError>(
                PagingError::NoMapping,
            ) by {
                crate::level::lemma_table_index_in_range(PageTableLevel::PML4E, v);
            }
        }
        r
    }

    /// Read the root (PML4) entry at `index`.
    pub fn root_entry(&self, index: usize) -> (r: PageTableEntry)
        requires
            self.wf(),
            index < 512,
        ensures
            r == self.root@[index as int],
    {
        self.root.entry(index)
    }
}

/// Linear search of a keyed table store for the given frame address.
fn find_index(store: &Vec<(usize, PageTable)>, key: usize) -> (r: Option<usize>)
    ensures
        match r {
            Some(j) => j < store@.len() && store@[j as int].0 == key,
            None => !has_key(store@, key),
        },
{
    let mut n: usize = 0;
    while n < store.len()
        invariant
            n <= store@.len(),
            forall|i: int| 0 <= i < n ==> (#[trigger] store@[i]).0 != key,
        decreases store@.len() - n,
    {
        if store[n].0 == key {
            return Some(n);
        }
        n = n + 1;
    }
    None
}

impl AddressSpace {
    /// Translate `vaddr` through the live tables: the mapped frame
    /// combined with the untouched low 12 offset bits of `vaddr`, or the
    /// exact error the walk stops with.
    pub fn translate(&self, vaddr: VirtualAddress) -> (r: Result<PhysicalAddress, PagingError>)
        requires
            self.wf(),
        ensures
            match self.translate_spec(vaddr.0) {
                Ok(f) => r matches Ok(pa) && pa.0 == f + vaddr.0 % 4096,
                Err(e) => r == Err::<PhysicalAddress, PagingError>(e),
            },
    {
        let i4 = PageTableLevel::PML4E.table_index(vaddr);
        let i3 = PageTableLevel::PDPTE.table_index(vaddr);
        let i2 = PageTableLevel::PDE.table_index(vaddr);
        let i1 = PageTableLevel::PTE.table_index(vaddr);
        let e4 = self.root.entry(i4);
        if !e4.is_present() {
            return Err(PagingError::NoMapping);
        }
        if e4.is_huge() {
            return Err(PagingError::NotATable);
        }
        let j3 = match find_index(&self.pdpts, e4.frame().as_usize()) {
            Some(j) => j,
            None => {
                // Unreachable: well-formedness says every link entry has
                // its table one level down.
                proof {
                    assert(false);
                }
                return Err(PagingError::NoMapping);
            },
        };
        proof {
            lemma_table_for(self.pdpts@, e4.frame_key(), j3 as int);
        }
        let e3 = self.pdpts[j3].1.entry(i3);
        if !e3.is_present() {
            return Err(PagingError::NoMapping);
        }
        if e3.is_huge() {
            return Err(PagingError::NotATable);
        }
        let j2 = match find_index(&self.pds, e3.frame().as_usize()) {
            Some(j) => j,
            None => {
                // Unreachable: well-formedness says every link entry has
                // its table one level down.
                proof {
                    assert(false);
                }
                return Err(PagingError::NoMapping);
            },
        };
        proof {
            lemma_table_for(self.pds@, e3.frame_key(), j2 as int);
        }
        let e2 = self.pds[j2].1.entry(i2);
        if !e2.is_present() {
            return Err(PagingError::NoMapping);
        }
        if e2.is_huge() {
            return Err(PagingError::NotATable);
        }
        let j1 = match find_index(&self.pts, e2.frame().as_usize()) {
            Some(j) => j,
            None => {
                // Unreachable: well-formedness says every link entry has
                // its table one level down.
                proof {
                    assert(false);
                }
                return Err(PagingError::NoMapping);
            },
        };
        proof {
            lemma_table_for(self.pts@, e2.frame_key(), j1 as int);
        }
        let e1 = self.pts[j1].1.entry(i1);
        if !e1.is_present() {
            return Err(PagingError::NoMapping);
        }
        let base = e1.frame().as_usize();
        let v = vaddr.0;
        let offset = v & 0xfff;
        proof {
            lemma_frame_key_aligned(e1.bits);
            assert(v & 0xfff == v % 4096) by (bit_vector);
            lemma_base_or_offset(base, offset);
        }
        Ok(PhysicalAddress(base | offset))
    }
}

/// Write one entry of the table stored at slot `j`, leaving its key and
/// every other slot untouched.
fn store_table_entry(store: &mut Vec<(usize, PageTable)>, j: usize, i: usize, e: PageTableEntry)
    requires
        (j as int) < old(store)@.len(),
        old(store)@[j as int].1.wf(),
        i < 512,
    ensures
        final(store)@.len() == old(store)@.len(),
        final(store)@[j as int].0 == old(store)@[j as int].0,
        final(store)@[j as int].1.wf(),
        final(store)@[j as int].1@ == old(store)@[j as int].1@.update(i as int, e),
        forall|k: int|
            0 <= k < old(store)@.len() && k != j ==> (#[trigger] final(store)@[k]) == old(
                store,
            )@[k],
{
    let elem = &mut store[j];
    elem.1.set_entry(i, e);
}

impl AddressSpace {
    /// Have the root entry at `i4` link to a page-directory-pointer
    /// table, allocating and zeroing a fresh one when the entry is
    /// absent; return the slot of that table in the store.
    #[verifier::rlimit(60)]
    fn ensure_pdpt(&mut self, i4: usize, allocator: &mut FrameAllocator) -> (r: Result<
        usize,
        PagingError,
    >)
        requires
            old(self).wf(),
            old(allocator).wf(),
            old(self).frames_fresh(*old(allocator)),
            i4 < 512,
        ensures
            final(self).wf(),
            final(allocator).wf(),
            final(self).frames_fresh(*final(allocator)),
            final(self).pds@ == old(self).pds@,
            final(self).pts@ == old(self).pts@,
            match r {
                Ok(j) => {
                    &&& (j as int) < final(self).pdpts@.len()
                    &&& is_link(final(self).root@[i4 as int])
                    &&& final(self).pdpts@[j as int].0 == final(self).root@[i4 as int].frame_key()
                    &&& final(self).pdpts@[j as int].1.wf()
                    &&& forall|k: int|
                        0 <= k < 512 && k != i4 ==> (#[trigger] final(self).root@[k]) == old(
                            self,
                        ).root@[k]
                    &&& if old(self).root@[i4 as int].present() {
                        &&& final(self).root@ == old(self).root@
                        &&& final(self).pdpts@ == old(self).pdpts@
                        &&& *final(allocator) == *old(allocator)
                    } else {
                        &&& (j as int) == old(self).pdpts@.len()
                        &&& final(self).pdpts@ == old(self).pdpts@.push(
                            (
                                final(self).root@[i4 as int].frame_key(),
                                final(self).pdpts@[j as int].1,
                            ),
                        )
                        &&& forall|n: int|
                            0 <= n < 512 ==> !(#[trigger] final(self).pdpts@[j as int].1@[n]).present()
                                && !final(self).pdpts@[j as int].1@[n].huge()
                        &&& old(allocator)@.len() > 0
                        &&& final(allocator)@ == old(allocator)@.drop_last()
                    }
                },
                Err(e) => {
                    &&& *final(self) == *old(self)
                    &&& final(allocator)@ == old(allocator)@
                    &&& (e == PagingError::NotATable <==> old(self).root@[i4 as int].present()
                        && old(self).root@[i4 as int].huge())
                    &&& (e == PagingError::OutOfMemory ==> !old(self).root@[i4 as int].present()
                        && old(allocator)@.len() == 0)
                    &&& (e == PagingError::NotATable || e == PagingError::OutOfMemory)
                },
            },
    {
        let e4 = self.root.entry(i4);
        if e4.is_present() {
            if e4.is_huge() {
                return Err(PagingError::NotATable);
            }
            let j = match find_index(&self.pdpts, e4.frame().as_usize()) {
                Some(j) => j,
                None => {
                    // Unreachable: well-formedness says every link entry
                    // has its table one level down.
                    proof {
                        assert(false);
                    }
                    return Err(PagingError::OutOfMemory);
                },
            };
            proof {
                lemma_table_for(self.pdpts@, e4.frame_key(), j as int);
            }
            Ok(j)
        } else {
            let f = match allocator.allocate_frame() {
                Some(f) => f,
                None => {
                    return Err(PagingError::OutOfMemory);
                },
            };
            let t = PageTable::new();
            let j = self.pdpts.len();
            let ghost pre = *self;
            let ghost prepool = old(allocator)@;
            proof {
                assert(pre.fresh_key(f.0));
            }
            self.pdpts.push((f.as_usize(), t));
            let mut ne = PageTableEntry::new();
            ne.set_present(true);
            ne.set_writable(true);
            ne.set_frame(f);
            self.root.set_entry(i4, ne);
            proof {
                let s2 = self.pdpts@;
                lemma_push_table(pre.pdpts@, (f.0, t), f.0);
                assert forall|i: int| 0 <= i < 512 && is_link(#[trigger] self.root@[i]) implies
                    has_key(self.pdpts@, self.root@[i].frame_key()) by {
                    if i != i4 {
                        lemma_push_table(pre.pdpts@, (f.0, t), pre.root@[i].frame_key());
                    }
                }
                assert forall|jj: int, i: int|
                    0 <= jj < self.pdpts@.len() && 0 <= i < 512 && is_link(
                        #[trigger] self.pdpts@[jj].1@[i],
                    ) implies has_key(self.pds@, self.pdpts@[jj].1@[i].frame_key()) by {
                    if jj < pre.pdpts@.len() {
                        assert(self.pdpts@[jj] == pre.pdpts@[jj]);
                    } else {
                        assert(self.pdpts@[jj].1 == t);
                        assert(!t@[i].present());
                    }
                }
                assert forall|i: int| 0 <= i < allocator@.len() implies self.fresh_key(
                    (#[trigger] allocator@[i]).0,
                ) by {
                    assert(allocator@[i] == prepool[i]);
                    assert(prepool[i].0 != f.0);
                    lemma_push_table(pre.pdpts@, (f.0, t), prepool[i].0);
                }
                assert(self.wf());
            }
            Ok(j)
        }
    }
}


impl AddressSpace {
    /// Have the page-directory-pointer entry at table slot `j3`, index
    /// `i3` link to a page directory, allocating and zeroing a fresh one
    /// when the entry is absent; return that directory's slot.
    #[verifier::rlimit(100)]
    fn ensure_pd(&mut self, j3: usize, i3: usize, allocator: &mut FrameAllocator) -> (r: Result<
        usize,
        PagingError,
    >)
        requires
            old(self).wf(),
            old(allocator).wf(),
            old(self).frames_fresh(*old(allocator)),
            (j3 as int) < old(self).pdpts@.len(),
            i3 < 512,
        ensures
            final(self).wf(),
            final(allocator).wf(),
            final(self).frames_fresh(*final(allocator)),
            final(self).root@ == old(self).root@,
            final(self).pts@ == old(self).pts@,
            final(self).pdpts@.len() == old(self).pdpts@.len(),
            forall|k: int|
                0 <= k < old(self).pdpts@.len() ==> (#[trigger] final(self).pdpts@[k]).0 == old(
                    self,
                ).pdpts@[k].0,
            forall|k: int|
                0 <= k < old(self).pdpts@.len() && k != j3 ==> (#[trigger] final(self).pdpts@[k])
                    == old(self).pdpts@[k],
            final(self).pdpts@[j3 as int].1.wf(),
            forall|n: int|
                0 <= n < 512 && n != i3 ==> (#[trigger] final(self).pdpts@[j3 as int].1@[n]) == old(
                    self,
                ).pdpts@[j3 as int].1@[n],
            match r {
                Ok(j) => {
                    &&& (j as int) < final(self).pds@.len()
                    &&& is_link(final(self).pdpts@[j3 as int].1@[i3 as int])
                    &&& final(self).pds@[j as int].0 == final(self).pdpts@[j3 as int].1@[i3 as int].frame_key()
                    &&& final(self).pds@[j as int].1.wf()
                    &&& if old(self).pdpts@[j3 as int].1@[i3 as int].present() {
                        &&& *final(self) == *old(self)
                        &&& *final(allocator) == *old(allocator)
                    } else {
                        &&& (j as int) == old(self).pds@.len()
                        &&& final(self).pds@ == old(self).pds@.push(
                            (
                                final(self).pdpts@[j3 as int].1@[i3 as int].frame_key(),
                                final(self).pds@[j as int].1,
                            ),
                        )
                        &&& forall|n: int|
                            0 <= n < 512 ==> !(#[trigger] final(self).pds@[j as int].1@[n]).present()
                                && !final(self).pds@[j as int].1@[n].huge()
                        &&& old(allocator)@.len() > 0
                        &&& final(allocator)@ == old(allocator)@.drop_last()
                    }
                },
                Err(e) => {
                    &&& *final(self) == *old(self)
                    &&& final(allocator)@ == old(allocator)@
                    &&& (e == PagingError::NotATable <==> old(self).pdpts@[j3 as int].1@[i3 as int].present()
                        && old(self).pdpts@[j3 as int].1@[i3 as int].huge())
                    &&& (e == PagingError::OutOfMemory ==> !old(self).pdpts@[j3 as int].1@[i3 as int].present()
                        && old(allocator)@.len() == 0)
                    &&& (e == PagingError::NotATable || e == PagingError::OutOfMemory)
                },
            },
    {
        proof {
            assert(self.pdpts@[j3 as int].1.wf());
        }
        let e3 = self.pdpts[j3].1.entry(i3);
        if e3.is_present() {
            if e3.is_huge() {
                return Err(PagingError::NotATable);
            }
            let j = match find_index(&self.pds, e3.frame().as_usize()) {
                Some(j) => j,
                None => {
                    // Unreachable: well-formedness says every link entry
                    // has its table one level down.
                    proof {
                        assert(is_link(self.pdpts@[j3 as int].1@[i3 as int]));
                        assert(false);
                    }
                    return Err(PagingError::OutOfMemory);
                },
            };
            proof {
                lemma_table_for(self.pds@, e3.frame_key(), j as int);
            }
            Ok(j)
        } else {
            let f = match allocator.allocate_frame() {
                Some(f) => f,
                None => {
                    return Err(PagingError::OutOfMemory);
                },
            };
            let t = PageTable::new();
            let j = self.pds.len();
            let ghost pre = *self;
            let ghost prepool = allocator@;
            proof {
                assert(pre.fresh_key(f.0));
            }
            self.pds.push((f.as_usize(), t));
            let mut ne = PageTableEntry::new();
            ne.set_present(true);
            ne.set_writable(true);
            ne.set_frame(f);
            store_table_entry(&mut self.pdpts, j3, i3, ne);
            proof {
                lemma_push_table(pre.pds@, (f.0, t), f.0);
                assert forall|i: int| 0 <= i < 512 && is_link(#[trigger] self.root@[i]) implies
                    has_key(self.pdpts@, self.root@[i].frame_key()) by {
                    let key = pre.root@[i].frame_key();
                    let a = choose|a: int| 0 <= a < pre.pdpts@.len() && (#[trigger] pre.pdpts@[a]).0
                        == key;
                    assert(self.pdpts@[a].0 == key);
                }
                assert forall|jj: int, i: int|
                    0 <= jj < self.pdpts@.len() && 0 <= i < 512 && is_link(
                        #[trigger] self.pdpts@[jj].1@[i],
                    ) implies has_key(self.pds@, self.pdpts@[jj].1@[i].frame_key()) by {
                    if jj == j3 && i == i3 {
                        assert(self.pdpts@[jj].1@[i] == ne);
                    } else {
                        assert(self.pdpts@[jj].1@[i] == pre.pdpts@[jj].1@[i]);
                        lemma_push_table(pre.pds@, (f.0, t), pre.pdpts@[jj].1@[i].frame_key());
                    }
                }
                assert forall|jj: int, i: int|
                    0 <= jj < self.pds@.len() && 0 <= i < 512 && is_link(
                        #[trigger] self.pds@[jj].1@[i],
                    ) implies has_key(self.pts@, self.pds@[jj].1@[i].frame_key()) by {
                    if jj < pre.pds@.len() {
                        assert(self.pds@[jj] == pre.pds@[jj]);
                    } else {
                        assert(self.pds@[jj].1 == t);
                        assert(!t@[i].present());
                    }
                }
                assert(distinct_keys(self.pdpts@));
                assert forall|i: int| 0 <= i < allocator@.len() implies self.fresh_key(
                    (#[trigger] allocator@[i]).0,
                ) by {
                    assert(allocator@[i] == prepool[i]);
                    assert(prepool[i].0 != f.0);
                    lemma_push_table(pre.pds@, (f.0, t), prepool[i].0);
                    assert(!has_key(pre.pdpts@, prepool[i].0));
                    if has_key(self.pdpts@, prepool[i].0) {
                        let a = choose|a: int|
                            0 <= a < self.pdpts@.len() && (#[trigger] self.pdpts@[a]).0
                                == prepool[i].0;
                        assert(pre.pdpts@[a].0 == prepool[i].0);
                    }
                }
                assert(self.wf());
            }
            Ok(j)
        }
    }

    /// Have the page-directory entry at table slot `j2`, index `i2` link
    /// to a leaf page table, allocating and zeroing a fresh one when the
    /// entry is absent; return that leaf table's slot.
    #[verifier::rlimit(100)]
    fn ensure_pt(&mut self, j2: usize, i2: usize, allocator: &mut FrameAllocator) -> (r: Result<
        usize,
        PagingError,
    >)
        requires
            old(self).wf(),
            old(allocator).wf(),
            old(self).frames_fresh(*old(allocator)),
            (j2 as int) < old(self).pds@.len(),
            i2 < 512,
        ensures
            final(self).wf(),
            final(allocator).wf(),
            final(self).frames_fresh(*final(allocator)),
            final(self).root@ == old(self).root@,
            final(self).pdpts@ == old(self).pdpts@,
            final(self).pds@.len() == old(self).pds@.len(),
            forall|k: int|
                0 <= k < old(self).pds@.len() ==> (#[trigger] final(self).pds@[k]).0 == old(
                    self,
                ).pds@[k].0,
            forall|k: int|
                0 <= k < old(self).pds@.len() && k != j2 ==> (#[trigger] final(self).pds@[k]) == old(
                    self,
                ).pds@[k],
            final(self).pds@[j2 as int].1.wf(),
            forall|n: int|
                0 <= n < 512 && n != i2 ==> (#[trigger] final(self).pds@[j2 as int].1@[n]) == old(
                    self,
                ).pds@[j2 as int].1@[n],
            match r {
                Ok(j) => {
                    &&& (j as int) < final(self).pts@.len()
                    &&& is_link(final(self).pds@[j2 as int].1@[i2 as int])
                    &&& final(self).pts@[j as int].0 == final(self).pds@[j2 as int].1@[i2 as int].frame_key()
                    &&& final(self).pts@[j as int].1.wf()
                    &&& if old(self).pds@[j2 as int].1@[i2 as int].present() {
                        &&& *final(self) == *old(self)
                        &&& *final(allocator) == *old(allocator)
                    } else {
                        &&& (j as int) == old(self).pts@.len()
                        &&& final(self).pts@ == old(self).pts@.push(
                            (
                                final(self).pds@[j2 as int].1@[i2 as int].frame_key(),
                                final(self).pts@[j as int].1,
                            ),
                        )
                        &&& forall|n: int|
                            0 <= n < 512 ==> !(#[trigger] final(self).pts@[j as int].1@[n]).present()
                                && !final(self).pts@[j as int].1@[n].huge()
                        &&& old(allocator)@.len() > 0
                        &&& final(allocator)@ == old(allocator)@.drop_last()
                    }
                },
                Err(e) => {
                    &&& *final(self) == *old(self)
                    &&& final(allocator)@ == old(allocator)@
                    &&& (e == PagingError::NotATable <==> old(self).pds@[j2 as int].1@[i2 as int].present()
                        && old(self).pds@[j2 as int].1@[i2 as int].huge())
                    &&& (e == PagingError::OutOfMemory ==> !old(self).pds@[j2 as int].1@[i2 as int].present()
                        && old(allocator)@.len() == 0)
                    &&& (e == PagingError::NotATable || e == PagingError::OutOfMemory)
                },
            },
    {
        proof {
            assert(self.pds@[j2 as int].1.wf());
        }
        let e2 = self.pds[j2].1.entry(i2);
        if e2.is_present() {
            if e2.is_huge() {
                return Err(PagingError::NotATable);
            }
            let j = match find_index(&self.pts, e2.frame().as_usize()) {
                Some(j) => j,
                None => {
                    // Unreachable: well-formedness says every link entry
                    // has its table one level down.
                    proof {
                        assert(is_link(self.pds@[j2 as int].1@[i2 as int]));
                        assert(false);
                    }
                    return Err(PagingError::OutOfMemory);
                },
            };
            proof {
                lemma_table_for(self.pts@, e2.frame_key(), j as int);
            }
            Ok(j)
        } else {
            let f = match allocator.allocate_frame() {
                Some(f) => f,
                None => {
                    return Err(PagingError::OutOfMemory);
                },
            };
            let t = PageTable::new();
            let j = self.pts.len();
            let ghost pre = *self;
            let ghost prepool = allocator@;
            proof {
                assert(pre.fresh_key(f.0));
            }
            self.pts.push((f.as_usize(), t));
            let mut ne = PageTableEntry::new();
            ne.set_present(true);
            ne.set_writable(true);
            ne.set_frame(f);
            store_table_entry(&mut self.pds, j2, i2, ne);
            proof {
                lemma_push_table(pre.pts@, (f.0, t), f.0);
                assert forall|i: int| 0 <= i < 512 && is_link(#[trigger] self.root@[i]) implies
                    has_key(self.pdpts@, self.root@[i].frame_key()) by {
                    assert(is_link(pre.root@[i]));
                }
                assert forall|jj: int, i: int|
                    0 <= jj < self.pdpts@.len() && 0 <= i < 512 && is_link(
                        #[trigger] self.pdpts@[jj].1@[i],
                    ) implies has_key(self.pds@, self.pdpts@[jj].1@[i].frame_key()) by {
                    let key = pre.pdpts@[jj].1@[i].frame_key();
                    let a = choose|a: int| 0 <= a < pre.pds@.len() && (#[trigger] pre.pds@[a]).0
                        == key;
                    assert(self.pds@[a].0 == key);
                }
                assert forall|jj: int, i: int|
                    0 <= jj < self.pds@.len() && 0 <= i < 512 && is_link(
                        #[trigger] self.pds@[jj].1@[i],
                    ) implies has_key(self.pts@, self.pds@[jj].1@[i].frame_key()) by {
                    if jj == j2 && i == i2 {
                        assert(self.pds@[jj].1@[i] == ne);
                    } else {
                        assert(self.pds@[jj].1@[i] == pre.pds@[jj].1@[i]);
                        lemma_push_table(pre.pts@, (f.0, t), pre.pds@[jj].1@[i].frame_key());
                    }
                }
                assert(distinct_keys(self.pds@));
                assert forall|i: int| 0 <= i < allocator@.len() implies self.fresh_key(
                    (#[trigger] allocator@[i]).0,
                ) by {
                    assert(allocator@[i] == prepool[i]);
                    assert(prepool[i].0 != f.0);
                    lemma_push_table(pre.pts@, (f.0, t), prepool[i].0);
                    assert(!has_key(pre.pds@, prepool[i].0));
                    if has_key(self.pds@, prepool[i].0) {
                        let a = choose|a: int|
                            0 <= a < self.pds@.len() && (#[trigger] self.pds@[a]).0 == prepool[i].0;
                        assert(pre.pds@[a].0 == prepool[i].0);
                    }
                }
                assert(self.wf());
            }
            Ok(j)
        }
    }
}


impl AddressSpace {
    /// Establish a 4 KiB mapping from `vaddr`'s page to the physical
    /// frame `frame`, allocating missing intermediate tables from
    /// `allocator` and zeroing each before linking it in. An existing
    /// mapping of the same page is overwritten deterministically and the
    /// previous frame is returned; every other page keeps translating
    /// exactly as before. No partial work is rolled back on
    /// `OutOfMemory`: tables already created stay linked, and the address
    /// still translates to nothing.
    #[verifier::rlimit(100)]
    pub fn map(
        &mut self,
        vaddr: VirtualAddress,
        frame: PhysicalAddress,
        flags: EntryFlags,
        allocator: &mut FrameAllocator,
    ) -> (r: Result<Option<PhysicalAddress>, PagingError>)
        requires
            old(self).wf(),
            old(allocator).wf(),
            old(self).frames_fresh(*old(allocator)),
            frame.0 < 0x10_0000_0000_0000,
        ensures
            final(self).wf(),
            final(allocator).wf(),
            final(self).frames_fresh(*final(allocator)),
            r == Err::<Option<PhysicalAddress>, PagingError>(PagingError::InvalidAlignment)
                <==> frame.0 % 4096 != 0,
            frame.0 % 4096 == 0 ==> ((r == Err::<Option<PhysicalAddress>, PagingError>(
                PagingError::NotATable,
            )) <==> old(self).translate_spec(vaddr.0) == Err::<usize, PagingError>(
                PagingError::NotATable,
            )),
            frame.0 % 4096 == 0 && old(self).translate_spec(vaddr.0) != Err::<usize, PagingError>(
                PagingError::NotATable,
            ) ==> ((r matches Ok(_)) <==> old(allocator)@.len() >= old(self).tables_needed(
                vaddr.0,
            )),
            r == Err::<Option<PhysicalAddress>, PagingError>(PagingError::OutOfMemory)
                ==> final(allocator)@.len() == 0 && final(self).translate_spec(vaddr.0)
                == Err::<usize, PagingError>(PagingError::NoMapping),
            r matches Ok(prev) ==> final(self).translate_spec(vaddr.0) == Ok::<usize, PagingError>(
                frame.0,
            ) && (match old(self).translate_spec(vaddr.0) {
                Ok(f) => prev == Some(PhysicalAddress(f)),
                Err(_) => prev == None::<PhysicalAddress>,
            }) && final(allocator)@.len() == old(allocator)@.len() - old(self).tables_needed(
                vaddr.0,
            ),
            r matches Err(e) ==> final(self).translate_spec(vaddr.0) == old(self).translate_spec(
                vaddr.0,
            ),
            forall|k: int|
                0 <= k < 512 && k != PageTableLevel::PML4E.table_index_spec(vaddr.0) ==> (
                #[trigger] final(self).root@[k]) == old(self).root@[k],
            forall|w: usize|
                !same_page(w, vaddr.0) ==> final(self).translate_spec(w) == old(
                    self,
                ).translate_spec(w),
            (r matches Err(e) && e != PagingError::OutOfMemory) ==> same_state(
                *final(self),
                *old(self),
            ) && final(allocator)@ == old(allocator)@,
            (r == Err::<Option<PhysicalAddress>, PagingError>(PagingError::OutOfMemory) && old(
                allocator,
            )@.len() == 0) ==> same_state(*final(self), *old(self)),
    {
        if !frame.is_aligned(4096) {
            return Err(PagingError::InvalidAlignment);
        }
        let i4 = PageTableLevel::PML4E.table_index(vaddr);
        let i3 = PageTableLevel::PDPTE.table_index(vaddr);
        let i2 = PageTableLevel::PDE.table_index(vaddr);
        let i1 = PageTableLevel::PTE.table_index(vaddr);
        let ghost s0 = *self;
        let ghost a0 = *allocator;
        let j3 = match self.ensure_pdpt(i4, allocator) {
            Ok(j) => j,
            Err(e) => {
                return Err(e);
            },
        };
        let ghost s1 = *self;
        let j2 = match self.ensure_pd(j3, i3, allocator) {
            Ok(j) => j,
            Err(e) => {
                proof {
                    if s0.root@[i4 as int].present() {
                        lemma_table_for(s0.pdpts@, s0.root@[i4 as int].frame_key(), j3 as int);
                    }
                    lemma_table_for(self.pdpts@, self.root@[i4 as int].frame_key(), j3 as int);
                    assert forall|w: usize| !same_page(w, vaddr.0) implies self.translate_spec(w)
                        == s0.translate_spec(w) by {
                        crate::level::lemma_table_index_in_range(PageTableLevel::PML4E, w);
                        crate::level::lemma_table_index_in_range(PageTableLevel::PDPTE, w);
                        let wi4 = PageTableLevel::PML4E.table_index_spec(w) as int;
                        if !s0.root@[i4 as int].present() && wi4 != i4 as int && is_link(
                            s0.root@[wi4],
                        ) {
                            let key4w = s0.root@[wi4].frame_key();
                            let aw = choose|k: int|
                                0 <= k < s0.pdpts@.len() && (#[trigger] s0.pdpts@[k]).0 == key4w;
                            lemma_table_for(s0.pdpts@, key4w, aw);
                            lemma_lookup_preserved(s0.pdpts@, self.pdpts@, key4w);
                        }
                    }
                }
                return Err(e);
            },
        };
        let ghost s2 = *self;
        let j1 = match self.ensure_pt(j2, i2, allocator) {
            Ok(j) => j,
            Err(e) => {
                proof {
                    if s0.root@[i4 as int].present() {
                        lemma_table_for(s0.pdpts@, s0.root@[i4 as int].frame_key(), j3 as int);
                        if s0.pdpts@[j3 as int].1@[i3 as int].present() {
                            lemma_table_for(
                                s0.pds@,
                                s0.pdpts@[j3 as int].1@[i3 as int].frame_key(),
                                j2 as int,
                            );
                        }
                    }
                    lemma_table_for(self.pdpts@, self.root@[i4 as int].frame_key(), j3 as int);
                    lemma_table_for(
                        self.pds@,
                        self.pdpts@[j3 as int].1@[i3 as int].frame_key(),
                        j2 as int,
                    );
                    assert forall|w: usize| !same_page(w, vaddr.0) implies self.translate_spec(w)
                        == s0.translate_spec(w) by {
                        crate::level::lemma_table_index_in_range(PageTableLevel::PML4E, w);
                        crate::level::lemma_table_index_in_range(PageTableLevel::PDPTE, w);
                        crate::level::lemma_table_index_in_range(PageTableLevel::PDE, w);
                        let wi4 = PageTableLevel::PML4E.table_index_spec(w) as int;
                        let wi3 = PageTableLevel::PDPTE.table_index_spec(w) as int;
                        if wi4 != i4 as int {
                            if is_link(s0.root@[wi4]) {
                                let key4w = s0.root@[wi4].frame_key();
                                let aw = choose|k: int|
                                    0 <= k < s0.pdpts@.len() && (#[trigger] s0.pdpts@[k]).0
                                        == key4w;
                                lemma_table_for(s0.pdpts@, key4w, aw);
                                lemma_lookup_preserved(s0.pdpts@, self.pdpts@, key4w);
                                if is_link(s0.pdpts@[aw].1@[wi3]) {
                                    let key3w = s0.pdpts@[aw].1@[wi3].frame_key();
                                    let bw = choose|k: int|
                                        0 <= k < s0.pds@.len() && (#[trigger] s0.pds@[k]).0
                                            == key3w;
                                    lemma_table_for(s0.pds@, key3w, bw);
                                    lemma_lookup_preserved(s0.pds@, self.pds@, key3w);
                                }
                            }
                        } else if s0.root@[i4 as int].present() && wi3 != i3 as int {
                            if is_link(s0.pdpts@[j3 as int].1@[wi3]) {
                                let key3w = s0.pdpts@[j3 as int].1@[wi3].frame_key();
                                let bw = choose|k: int|
                                    0 <= k < s0.pds@.len() && (#[trigger] s0.pds@[k]).0 == key3w;
                                lemma_table_for(s0.pds@, key3w, bw);
                                lemma_lookup_preserved(s0.pds@, self.pds@, key3w);
                            }
                        }
                    }
                }
                return Err(e);
            },
        };
        let ghost s3 = *self;
        proof {
            assert(self.pts@[j1 as int].1.wf());
        }
        let olde = self.pts[j1].1.entry(i1);
        let prev = if olde.is_present() {
            Some(olde.frame())
        } else {
            None
        };
        let mut ne = PageTableEntry::new();
        ne.set_present(true);
        ne.set_writable(flags.writable);
        ne.set_user(flags.user);
        ne.set_no_execute(flags.no_execute);
        ne.set_frame(frame);
        store_table_entry(&mut self.pts, j1, i1, ne);
        proof {
            // keys of every level are unchanged by the leaf write
            assert forall|a: int, b: int| 0 <= a < b < self.pts@.len() implies (
            #[trigger] self.pts@[a]).0 != (#[trigger] self.pts@[b]).0 by {
                assert(self.pts@[a].0 == s3.pts@[a].0 && self.pts@[b].0 == s3.pts@[b].0);
            }
            assert forall|jj: int, i: int|
                0 <= jj < self.pds@.len() && 0 <= i < 512 && is_link(
                    #[trigger] self.pds@[jj].1@[i],
                ) implies has_key(self.pts@, self.pds@[jj].1@[i].frame_key()) by {
                let key = s3.pds@[jj].1@[i].frame_key();
                let a = choose|a: int| 0 <= a < s3.pts@.len() && (#[trigger] s3.pts@[a]).0 == key;
                assert(self.pts@[a].0 == key);
            }
            assert forall|i: int| 0 <= i < allocator@.len() implies self.fresh_key(
                (#[trigger] allocator@[i]).0,
            ) by {
                assert(s3.fresh_key(allocator@[i].0));
                if has_key(self.pts@, allocator@[i].0) {
                    let a = choose|a: int|
                        0 <= a < self.pts@.len() && (#[trigger] self.pts@[a]).0 == allocator@[i].0;
                    assert(s3.pts@[a].0 == allocator@[i].0);
                }
            }
            assert(self.wf());
            // identify the walk of the final state
            lemma_table_for(self.pdpts@, self.root@[i4 as int].frame_key(), j3 as int);
            lemma_table_for(
                self.pds@,
                self.pdpts@[j3 as int].1@[i3 as int].frame_key(),
                j2 as int,
            );
            lemma_table_for(
                self.pts@,
                self.pds@[j2 as int].1@[i2 as int].frame_key(),
                j1 as int,
            );
            assert(self.translate_spec(vaddr.0) == Ok::<usize, PagingError>(frame.0));
            // identify the walk of the initial state
            if s0.root@[i4 as int].present() {
                lemma_table_for(s0.pdpts@, s0.root@[i4 as int].frame_key(), j3 as int);
                if s0.pdpts@[j3 as int].1@[i3 as int].present() {
                    lemma_table_for(
                        s0.pds@,
                        s0.pdpts@[j3 as int].1@[i3 as int].frame_key(),
                        j2 as int,
                    );
                    if s0.pds@[j2 as int].1@[i2 as int].present() {
                        lemma_table_for(
                            s0.pts@,
                            s0.pds@[j2 as int].1@[i2 as int].frame_key(),
                            j1 as int,
                        );
                    }
                }
            }
            // every other page translates as before
            assert forall|w: usize| !same_page(w, vaddr.0) implies self.translate_spec(w)
                == s0.translate_spec(w) by {
                crate::level::lemma_table_index_in_range(PageTableLevel::PML4E, w);
                crate::level::lemma_table_index_in_range(PageTableLevel::PDPTE, w);
                crate::level::lemma_table_index_in_range(PageTableLevel::PDE, w);
                crate::level::lemma_table_index_in_range(PageTableLevel::PTE, w);
                let wi4 = PageTableLevel::PML4E.table_index_spec(w) as int;
                let wi3 = PageTableLevel::PDPTE.table_index_spec(w) as int;
                let wi2 = PageTableLevel::PDE.table_index_spec(w) as int;
                if wi4 != i4 as int {
                    if is_link(s0.root@[wi4]) {
                        let key4w = s0.root@[wi4].frame_key();
                        let aw = choose|k: int|
                            0 <= k < s0.pdpts@.len() && (#[trigger] s0.pdpts@[k]).0 == key4w;
                        lemma_table_for(s0.pdpts@, key4w, aw);
                        lemma_lookup_preserved(s0.pdpts@, self.pdpts@, key4w);
                        if is_link(s0.pdpts@[aw].1@[wi3]) {
                            let key3w = s0.pdpts@[aw].1@[wi3].frame_key();
                            let bw = choose|k: int|
                                0 <= k < s0.pds@.len() && (#[trigger] s0.pds@[k]).0 == key3w;
                            lemma_table_for(s0.pds@, key3w, bw);
                            lemma_lookup_preserved(s0.pds@, self.pds@, key3w);
                            if is_link(s0.pds@[bw].1@[wi2]) {
                                let key2w = s0.pds@[bw].1@[wi2].frame_key();
                                let cw = choose|k: int|
                                    0 <= k < s0.pts@.len() && (#[trigger] s0.pts@[k]).0 == key2w;
                                lemma_table_for(s0.pts@, key2w, cw);
                                lemma_lookup_preserved(s0.pts@, self.pts@, key2w);
                            }
                        }
                    }
                } else if s0.root@[i4 as int].present() {
                    if wi3 != i3 as int {
                        if is_link(s0.pdpts@[j3 as int].1@[wi3]) {
                            let key3w = s0.pdpts@[j3 as int].1@[wi3].frame_key();
                            let bw = choose|k: int|
                                0 <= k < s0.pds@.len() && (#[trigger] s0.pds@[k]).0 == key3w;
                            lemma_table_for(s0.pds@, key3w, bw);
                            lemma_lookup_preserved(s0.pds@, self.pds@, key3w);
                            if is_link(s0.pds@[bw].1@[wi2]) {
                                let key2w = s0.pds@[bw].1@[wi2].frame_key();
                                let cw = choose|k: int|
                                    0 <= k < s0.pts@.len() && (#[trigger] s0.pts@[k]).0 == key2w;
                                lemma_table_for(s0.pts@, key2w, cw);
                                lemma_lookup_preserved(s0.pts@, self.pts@, key2w);
                            }
                        }
                    } else if s0.pdpts@[j3 as int].1@[i3 as int].present() {
                        if wi2 != i2 as int {
                            if is_link(s0.pds@[j2 as int].1@[wi2]) {
                                let key2w = s0.pds@[j2 as int].1@[wi2].frame_key();
                                let cw = choose|k: int|
                                    0 <= k < s0.pts@.len() && (#[trigger] s0.pts@[k]).0 == key2w;
                                lemma_table_for(s0.pts@, key2w, cw);
                                lemma_lookup_preserved(s0.pts@, self.pts@, key2w);
                            }
                        }
                    }
                }
            }
        }
        Ok(prev)
    }
}


impl AddressSpace {
    /// Remove the 4 KiB mapping of `vaddr`'s page: clear the leaf entry
    /// and return the frame it pointed at, leaving every other page
    /// translating exactly as before. An address with no present leaf
    /// entry reports `NoMapping`; a huge-page leaf on the path reports
    /// `NotATable`. Intermediate tables are not reclaimed.
    #[verifier::rlimit(100)]
    pub fn unmap(&mut self, vaddr: VirtualAddress) -> (r: Result<PhysicalAddress, PagingError>)
        requires
            old(self).wf(),
        ensures
            final(self).wf(),
            match r {
                Ok(pa) => {
                    &&& old(self).translate_spec(vaddr.0) == Ok::<usize, PagingError>(pa.0)
                    &&& final(self).translate_spec(vaddr.0) == Err::<usize, PagingError>(
                        PagingError::NoMapping,
                    )
                    &&& final(self).root@ == old(self).root@
                    &&& final(self).pdpts@ == old(self).pdpts@
                    &&& final(self).pds@ == old(self).pds@
                    &&& final(self).pts@.len() == old(self).pts@.len()
                    &&& old(self).leaf_table_key(vaddr.0) matches Some(key) && exists|j: int|
                        {
                            &&& 0 <= j < old(self).pts@.len()
                            &&& (#[trigger] old(self).pts@[j]).0 == key
                            &&& final(self).pts@[j].0 == key
                            &&& final(self).pts@[j].1@ == old(self).pts@[j].1@.update(
                                PageTableLevel::PTE.table_index_spec(vaddr.0) as int,
                                PageTableEntry { bits: 0 },
                            )
                            &&& forall|k: int|
                                0 <= k < old(self).pts@.len() && k != j ==> final(self).pts@[k]
                                    == old(self).pts@[k]
                        }
                },
                Err(e) => {
                    &&& *final(self) == *old(self)
                    &&& old(self).translate_spec(vaddr.0) == Err::<usize, PagingError>(e)
                },
            },
            forall|w: usize|
                !same_page(w, vaddr.0) ==> final(self).translate_spec(w) == old(
                    self,
                ).translate_spec(w),
    {
        let i4 = PageTableLevel::PML4E.table_index(vaddr);
        let i3 = PageTableLevel::PDPTE.table_index(vaddr);
        let i2 = PageTableLevel::PDE.table_index(vaddr);
        let i1 = PageTableLevel::PTE.table_index(vaddr);
        let ghost s0 = *self;
        let e4 = self.root.entry(i4);
        if !e4.is_present() {
            return Err(PagingError::NoMapping);
        }
        if e4.is_huge() {
            return Err(PagingError::NotATable);
        }
        let j3 = match find_index(&self.pdpts, e4.frame().as_usize()) {
            Some(j) => j,
            None => {
                // Unreachable: well-formedness says every link entry has
                // its table one level down.
                proof {
                    assert(false);
                }
                return Err(PagingError::NoMapping);
            },
        };
        proof {
            lemma_table_for(self.pdpts@, e4.frame_key(), j3 as int);
        }
        let e3 = self.pdpts[j3].1.entry(i3);
        if !e3.is_present() {
            return Err(PagingError::NoMapping);
        }
        if e3.is_huge() {
            return Err(PagingError::NotATable);
        }
        let j2 = match find_index(&self.pds, e3.frame().as_usize()) {
            Some(j) => j,
            None => {
                // Unreachable: well-formedness says every link entry has
                // its table one level down.
                proof {
                    assert(false);
                }
                return Err(PagingError::NoMapping);
            },
        };
        proof {
            lemma_table_for(self.pds@, e3.frame_key(), j2 as int);
        }
        let e2 = self.pds[j2].1.entry(i2);
        if !e2.is_present() {
            return Err(PagingError::NoMapping);
        }
        if e2.is_huge() {
            return Err(PagingError::NotATable);
        }
        let j1 = match find_index(&self.pts, e2.frame().as_usize()) {
            Some(j) => j,
            None => {
                // Unreachable: well-formedness says every link entry has
                // its table one level down.
                proof {
                    assert(false);
                }
                return Err(PagingError::NoMapping);
            },
        };
        proof {
            lemma_table_for(self.pts@, e2.frame_key(), j1 as int);
        }
        let e1 = self.pts[j1].1.entry(i1);
        if !e1.is_present() {
            return Err(PagingError::NoMapping);
        }
        let cleared = PageTableEntry::new();
        store_table_entry(&mut self.pts, j1, i1, cleared);
        proof {
            assert forall|a: int, b: int| 0 <= a < b < self.pts@.len() implies (
            #[trigger] self.pts@[a]).0 != (#[trigger] self.pts@[b]).0 by {
                assert(self.pts@[a].0 == s0.pts@[a].0 && self.pts@[b].0 == s0.pts@[b].0);
            }
            assert forall|jj: int, i: int|
                0 <= jj < self.pds@.len() && 0 <= i < 512 && is_link(
                    #[trigger] self.pds@[jj].1@[i],
                ) implies has_key(self.pts@, self.pds@[jj].1@[i].frame_key()) by {
                let key = s0.pds@[jj].1@[i].frame_key();
                let a = choose|a: int| 0 <= a < s0.pts@.len() && (#[trigger] s0.pts@[a]).0 == key;
                assert(self.pts@[a].0 == key);
            }
            assert(self.wf());
            lemma_table_for(self.pdpts@, e4.frame_key(), j3 as int);
            lemma_table_for(self.pds@, e3.frame_key(), j2 as int);
            lemma_table_for(self.pts@, e2.frame_key(), j1 as int);
            assert(self.translate_spec(vaddr.0) == Err::<usize, PagingError>(
                PagingError::NoMapping,
            ));
            // every other page translates as before: only one leaf entry
            // changed, and no other walk reaches it
            assert forall|w: usize| !same_page(w, vaddr.0) implies self.translate_spec(w)
                == s0.translate_spec(w) by {
                crate::level::lemma_table_index_in_range(PageTableLevel::PML4E, w);
                crate::level::lemma_table_index_in_range(PageTableLevel::PDPTE, w);
                crate::level::lemma_table_index_in_range(PageTableLevel::PDE, w);
                crate::level::lemma_table_index_in_range(PageTableLevel::PTE, w);
                let wi4 = PageTableLevel::PML4E.table_index_spec(w) as int;
                let wi3 = PageTableLevel::PDPTE.table_index_spec(w) as int;
                let wi2 = PageTableLevel::PDE.table_index_spec(w) as int;
                if is_link(s0.root@[wi4]) {
                    let key4w = s0.root@[wi4].frame_key();
                    let aw = choose|k: int|
                        0 <= k < s0.pdpts@.len() && (#[trigger] s0.pdpts@[k]).0 == key4w;
                    lemma_table_for(s0.pdpts@, key4w, aw);
                    if is_link(s0.pdpts@[aw].1@[wi3]) {
                        let key3w = s0.pdpts@[aw].1@[wi3].frame_key();
                        let bw = choose|k: int|
                            0 <= k < s0.pds@.len() && (#[trigger] s0.pds@[k]).0 == key3w;
                        lemma_table_for(s0.pds@, key3w, bw);
                        if is_link(s0.pds@[bw].1@[wi2]) {
                            let key2w = s0.pds@[bw].1@[wi2].frame_key();
                            if key2w != s0.pts@[j1 as int].0 {
                                lemma_lookup_preserved(s0.pts@, self.pts@, key2w);
                            } else {
                                lemma_table_for(s0.pts@, key2w, j1 as int);
                                lemma_table_for(self.pts@, key2w, j1 as int);
                            }
                        }
                    }
                }
            }
        }
        Ok(e1.frame())
    }

    /// Report whether the leaf page table on `vaddr`'s path holds no
    /// present entry at all, or `None` when the upper levels do not lead
    /// to a leaf table.
    pub fn leaf_table_is_unused(&self, vaddr: VirtualAddress) -> (r: Option<bool>)
        requires
            self.wf(),
        ensures
            match self.leaf_table_key(vaddr.0) {
                Some(key) => r == Some(table_for(self.pts@, key).all_unused()),
                None => r is None,
            },
    {
        let i4 = PageTableLevel::PML4E.table_index(vaddr);
        let i3 = PageTableLevel::PDPTE.table_index(vaddr);
        let i2 = PageTableLevel::PDE.table_index(vaddr);
        let e4 = self.root.entry(i4);
        if !e4.is_present() || e4.is_huge() {
            return None;
        }
        let j3 = match find_index(&self.pdpts, e4.frame().as_usize()) {
            Some(j) => j,
            None => {
                // Unreachable: well-formedness says every link entry has
                // its table one level down.
                proof {
                    assert(false);
                }
                return None;
            },
        };
        proof {
            lemma_table_for(self.pdpts@, e4.frame_key(), j3 as int);
        }
        let e3 = self.pdpts[j3].1.entry(i3);
        if !e3.is_present() || e3.is_huge() {
            return None;
        }
        let j2 = match find_index(&self.pds, e3.frame().as_usize()) {
            Some(j) => j,
            None => {
                // Unreachable: well-formedness says every link entry has
                // its table one level down.
                proof {
                    assert(false);
                }
                return None;
            },
        };
        proof {
            lemma_table_for(self.pds@, e3.frame_key(), j2 as int);
        }
        let e2 = self.pds[j2].1.entry(i2);
        if !e2.is_present() || e2.is_huge() {
            return None;
        }
        let j1 = match find_index(&self.pts, e2.frame().as_usize()) {
            Some(j) => j,
            None => {
                // Unreachable: well-formedness says every link entry has
                // its table one level down.
                proof {
                    assert(false);
                }
                return None;
            },
        };
        proof {
            lemma_table_for(self.pts@, e2.frame_key(), j1 as int);
        }
        Some(self.pts[j1].1.is_unused())
    }
}


} // verus!
