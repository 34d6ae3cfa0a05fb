//! Rounding addresses to alignment boundaries.

use vstd::prelude::*;
use vstd::arithmetic::power2::{
    is_pow2, is_pow2_equiv, lemma2_to64, lemma_pow2_pos, lemma_pow2_strictly_increases, pow2,
};
use vstd::arithmetic::power::pow;
use vstd::bits::{lemma_usize_low_bits_mask_is_mod, low_bits_mask};

verus! {

/// `addr` with the bits under the mask `align - 1` cleared.
pub open spec fn align_down_spec(addr: usize, align: usize) -> usize {
    addr & !((align - 1) as usize)
}

/// `addr + align - 1` with the bits under the mask `align - 1` cleared.
pub open spec fn align_up_spec(addr: usize, align: usize) -> usize {
    ((addr + align - 1) as usize) & !((align - 1) as usize)
}

/// A power of two is `pow2(n)` for some `n` below the width of the type it
/// fits in.
pub proof fn lemma_pow2_exponent(align: usize) -> (n: nat)
    requires
        is_pow2(align as int),
    ensures
        n < usize::BITS,
        align == pow2(n),
        align - 1 == low_bits_mask(n),
        align >= 1,
{
    is_pow2_equiv(align as int);
    let n = choose|i: nat| pow(2, i) == align as int;
    lemma_pow2_pos(n);
    if n >= usize::BITS {
        lemma2_to64();
        if n > usize::BITS {
            lemma_pow2_strictly_increases(usize::BITS as nat, n);
        }
        assert(false);
    }
    n
}

/// For a power of two, clearing the low bits is rounding down to a multiple.
pub proof fn lemma_align_down_pow2(addr: usize, align: usize)
    requires
        is_pow2(align as int),
    ensures
        align_down_spec(addr, align) == addr - addr % align,
        align_down_spec(addr, align) % align == 0,
{
    let n = lemma_pow2_exponent(align);
    let mask = (align - 1) as usize;
    lemma_usize_low_bits_mask_is_mod(addr, n);
    assert(addr & mask == addr % align);
    assert(addr & !mask == addr - (addr & mask)) by (bit_vector);
    vstd::arithmetic::div_mod::lemma_fundamental_div_mod(addr as int, align as int);
    vstd::arithmetic::div_mod::lemma_mod_multiples_basic(addr as int / align as int, align as int);
}

/// For a power of two, rounding up gives the least multiple that is not
/// below the address.
pub proof fn lemma_align_up_pow2(addr: usize, align: usize)
    requires
        is_pow2(align as int),
        addr + align - 1 <= usize::MAX,
    ensures
        align_up_spec(addr, align) % align == 0,
        addr <= align_up_spec(addr, align) < addr + align,
        addr % align == 0 ==> align_up_spec(addr, align) == addr,
{
    let n = lemma_pow2_exponent(align);
    let top = (addr + align - 1) as usize;
    lemma_align_down_pow2(top, align);
    assert(align_up_spec(addr, align) == align_down_spec(top, align));
    let a = align as int;
    vstd::arithmetic::div_mod::lemma_mod_bound(top as int, a);
    if addr % align == 0 {
        // top = addr + (a - 1), and addr is a multiple of a
        vstd::arithmetic::div_mod::lemma_fundamental_div_mod(addr as int, a);
        vstd::arithmetic::mul::lemma_mul_is_commutative(a, addr as int / a);
        vstd::arithmetic::div_mod::lemma_fundamental_div_mod_converse(
            top as int,
            a,
            addr as int / a,
            a - 1,
        );
    }
}

/// Rounds `addr` down to a multiple of `align`, which is meant to be a
/// power of two. For any other `align` the low bits under `align - 1` are
/// cleared all the same.
pub fn align_down(addr: usize, align: usize) -> (r: usize)
    requires
        align >= 1,
    ensures
        r == align_down_spec(addr, align),
        r <= addr,
        addr - r <= align - 1,
        is_pow2(align as int) ==> r == addr - addr % align,
{
    let mask: usize = align - 1;
    assert(addr & !mask <= addr) by (bit_vector);
    assert(addr - (addr & !mask) <= mask) by (bit_vector);
    proof {
        if is_pow2(align as int) {
            lemma_align_down_pow2(addr, align);
        }
    }
    addr & !mask
}

/// Rounds `addr` up to a multiple of `align`, which is meant to be a power
/// of two. For any other `align` the low bits of `addr + align - 1` under
/// `align - 1` are cleared all the same.
pub fn align_up(addr: usize, align: usize) -> (r: usize)
    requires
        align >= 1,
        addr + align - 1 <= usize::MAX,
    ensures
        r == align_up_spec(addr, align),
        addr <= r <= addr + align - 1,
        is_pow2(align as int) ==> r % align == 0,
        is_pow2(align as int) && addr % align == 0 ==> r == addr,
{
    let mask: usize = align - 1;
    let top: usize = addr + mask;
    assert(top & !mask <= top) by (bit_vector);
    assert(top - (top & !mask) <= mask) by (bit_vector);
    proof {
        if is_pow2(align as int) {
            lemma_align_up_pow2(addr, align);
        }
    }
    top & !mask
}

} // verus!
