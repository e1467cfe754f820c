//! Typed wrappers distinguishing physical from virtual addresses, with
//! power-of-two alignment arithmetic shared by both.

use vstd::arithmetic::div_mod::{
    lemma_fundamental_div_mod, lemma_mod_bound, lemma_mod_decreases, lemma_mod_multiples_basic,
};
use vstd::arithmetic::mul::lemma_mul_is_commutative;
use vstd::prelude::*;

verus! {

/// True when `n` is a positive power of two.
pub open spec fn is_power_of_two(n: int) -> bool
    decreases n,
{
    if n <= 0 {
        false
    } else if n == 1 {
        true
    } else {
        n % 2 == 0 && is_power_of_two(n / 2)
    }
}

/// The greatest multiple of `align` that is at most `addr`.
pub open spec fn align_down_spec(addr: int, align: int) -> int {
    addr - addr % align
}

/// The least multiple of `align` that is at least `addr`.
pub open spec fn align_up_spec(addr: int, align: int) -> int {
    (addr + align - 1) - (addr + align - 1) % align
}

/// A positive power of two is at least one.
pub proof fn lemma_pow2_positive(n: int)
    requires
        is_power_of_two(n),
    ensures
        n >= 1,
    decreases n,
{
    if n > 1 {
        lemma_pow2_positive(n / 2);
    }
}

/// Rounding down to a multiple of `align` yields a multiple of `align`
/// that is no greater than the original value and less than `align` below it.
pub proof fn lemma_align_down_props(addr: int, align: int)
    requires
        addr >= 0,
        align > 0,
    ensures
        align_down_spec(addr, align) % align == 0,
        align_down_spec(addr, align) <= addr,
        align_down_spec(addr, align) > addr - align,
        align_down_spec(addr, align) >= 0,
{
    lemma_fundamental_div_mod(addr, align);
    lemma_mod_multiples_basic(addr / align, align);
    lemma_mod_bound(addr, align);
    lemma_mod_decreases(addr as nat, align as nat);
    lemma_mul_is_commutative(addr / align, align);
    assert(addr - addr % align == (addr / align) * align);
}

/// Rounding up to a multiple of `align` yields a multiple of `align`
/// that is no less than the original value and less than `align` above it.
pub proof fn lemma_align_up_props(addr: int, align: int)
    requires
        addr >= 0,
        align > 0,
    ensures
        align_up_spec(addr, align) % align == 0,
        align_up_spec(addr, align) >= addr,
        align_up_spec(addr, align) < addr + align,
{
    lemma_align_down_props(addr + align - 1, align);
    assert(align_up_spec(addr, align) == align_down_spec(addr + align - 1, align));
}

/// Alignment law: rounding down never increases an address, and for an
/// address already aligned, rounding the result back up returns at least
/// the original address (here, exactly it).
pub proof fn lemma_align_round_trip(addr: int, align: int)
    requires
        addr >= 0,
        align > 0,
        addr % align == 0,
    ensures
        align_down_spec(addr, align) <= addr,
        align_up_spec(align_down_spec(addr, align), align) >= addr,
{
    lemma_align_down_props(addr, align);
    assert(align_down_spec(addr, align) == addr);
    lemma_align_up_props(addr, align);
}

/// Physical memory address wrapper
#[derive(Clone, Copy, Debug, PartialEq, Eq, Structural, PartialOrd, Ord)]
pub struct PhysicalAddress(pub usize);

impl PhysicalAddress {
    /// Create a new physical address
    pub fn new(addr: usize) -> (r: Self)
        ensures
            r.0 == addr,
    {
        Self(addr)
    }

    /// Get the inner address value
    pub fn as_usize(self) -> (r: usize)
        ensures
            r == self.0,
    {
        self.0
    }

    /// Check if address is aligned to given alignment
    pub fn is_aligned(self, align: usize) -> (r: bool)
        requires
            align > 0,
        ensures
            r <==> self.0 % align == 0,
    {
        self.0 % align == 0
    }

    /// Align down to the given alignment
    pub fn align_down(self, align: usize) -> (r: Self)
        requires
            is_power_of_two(align as int),
        ensures
            r.0 == align_down_spec(self.0 as int, align as int),
            r.0 % align == 0,
            r.0 <= self.0,
    {
        proof {
            lemma_pow2_positive(align as int);
            lemma_align_down_props(self.0 as int, align as int);
        }
        Self(self.0 - (self.0 % align))
    }

    /// Align up to the given alignment
    pub fn align_up(self, align: usize) -> (r: Self)
        requires
            is_power_of_two(align as int),
            self.0 + align - 1 <= usize::MAX,
        ensures
            r.0 == align_up_spec(self.0 as int, align as int),
            r.0 % align == 0,
            r.0 >= self.0,
            r.0 < self.0 + align,
    {
        proof {
            lemma_pow2_positive(align as int);
            lemma_align_up_props(self.0 as int, align as int);
        }
        let t: usize = self.0 + (align - 1);
        Self(t - (t % align))
    }

    /// Advance the address by `offset`, wrapping at the machine word's
    /// ceiling as native address arithmetic does; callers operating near
    /// the address-space ceiling must guard themselves.
    pub fn wrapping_add(self, offset: usize) -> (r: Self)
        ensures
            self.0 + offset <= usize::MAX ==> r.0 == self.0 + offset,
            self.0 + offset > usize::MAX ==> r.0 == self.0 + offset - (usize::MAX + 1),
    {
        Self(self.0.wrapping_add(offset))
    }

    /// Step the address back by `offset`, wrapping at zero as native
    /// address arithmetic does.
    pub fn wrapping_sub(self, offset: usize) -> (r: Self)
        ensures
            offset <= self.0 ==> r.0 == self.0 - offset,
            offset > self.0 ==> r.0 == self.0 - offset + usize::MAX + 1,
    {
        Self(self.0.wrapping_sub(offset))
    }
}

impl Default for PhysicalAddress {
    /// The zero physical address
    fn default() -> (r: Self)
        ensures
            r.0 == 0,
    {
        Self(0)
    }
}

/// Virtual memory address wrapper
#[derive(Clone, Copy, Debug, PartialEq, Eq, Structural, PartialOrd, Ord)]
pub struct VirtualAddress(pub usize);

impl VirtualAddress {
    /// Create a new virtual address
    pub fn new(addr: usize) -> (r: Self)
        ensures
            r.0 == addr,
    {
        Self(addr)
    }

    /// Get the inner address value
    pub fn as_usize(self) -> (r: usize)
        ensures
            r == self.0,
    {
        self.0
    }

    /// Check if address is aligned to given alignment
    pub fn is_aligned(self, align: usize) -> (r: bool)
        requires
            align > 0,
        ensures
            r <==> self.0 % align == 0,
    {
        self.0 % align == 0
    }

    /// Align down to the given alignment
    pub fn align_down(self, align: usize) -> (r: Self)
        requires
            is_power_of_two(align as int),
        ensures
            r.0 == align_down_spec(self.0 as int, align as int),
            r.0 % align == 0,
            r.0 <= self.0,
    {
        proof {
            lemma_pow2_positive(align as int);
            lemma_align_down_props(self.0 as int, align as int);
        }
        Self(self.0 - (self.0 % align))
    }

    /// Align up to the given alignment
    pub fn align_up(self, align: usize) -> (r: Self)
        requires
            is_power_of_two(align as int),
            self.0 + align - 1 <= usize::MAX,
        ensures
            r.0 == align_up_spec(self.0 as int, align as int),
            r.0 % align == 0,
            r.0 >= self.0,
            r.0 < self.0 + align,
    {
        proof {
            lemma_pow2_positive(align as int);
            lemma_align_up_props(self.0 as int, align as int);
        }
        let t: usize = self.0 + (align - 1);
        Self(t - (t % align))
    }

    /// Advance the address by `offset`, wrapping at the machine word's
    /// ceiling as native address arithmetic does; callers operating near
    /// the address-space ceiling must guard themselves.
    pub fn wrapping_add(self, offset: usize) -> (r: Self)
        ensures
            self.0 + offset <= usize::MAX ==> r.0 == self.0 + offset,
            self.0 + offset > usize::MAX ==> r.0 == self.0 + offset - (usize::MAX + 1),
    {
        Self(self.0.wrapping_add(offset))
    }

    /// Step the address back by `offset`, wrapping at zero as native
    /// address arithmetic does.
    pub fn wrapping_sub(self, offset: usize) -> (r: Self)
        ensures
            offset <= self.0 ==> r.0 == self.0 - offset,
            offset > self.0 ==> r.0 == self.0 - offset + usize::MAX + 1,
    {
        Self(self.0.wrapping_sub(offset))
    }
}

impl Default for VirtualAddress {
    /// The zero virtual address
    fn default() -> (r: Self)
        ensures
            r.0 == 0,
    {
        Self(0)
    }
}

} // verus!
