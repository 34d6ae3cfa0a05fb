//! Arming second-stage (guest-physical to host-physical) address
//! translation: the control value to program, and the order in which the
//! privileged steps are taken.

use vstd::prelude::*;

verus! {

/// Translation mode Sv39x4, as the mode field of `hgatp` encodes it.
pub const HGATP_MODE_SV39X4: u64 = 8;

/// Bit position of the mode field of `hgatp`.
pub const HGATP_MODE_SHIFT: u64 = 60;

/// Width of a page offset: the root's page number is its address shifted
/// right by this.
pub const PAGE_SHIFT: u64 = 12;

/// The bits of `hgatp` that hold the root's physical page number.
pub const HGATP_PPN: u64 = 0xfff_ffff_ffff;

/// The largest physical address plus one that the page number field can name.
pub const PHYS_ADDR_LIMIT: u64 = 0x100_0000_0000_0000;

/// The `hgatp` value that selects Sv39x4 translation through the table
/// rooted at `root`.
pub open spec fn hgatp_for_root_spec(root: u64) -> u64 {
    (HGATP_MODE_SV39X4 << HGATP_MODE_SHIFT) | (root >> PAGE_SHIFT)
}

/// Computes the value to write to `hgatp` so that guest-physical addresses
/// are translated through the page table rooted at physical address `root`.
/// The value depends on `root` alone, so installing it again is harmless.
/// For a root below 2^56 the mode field reads Sv39x4, the address-space
/// identifier is zero, and the page number is that of `root`.
pub fn hgatp_for_root(root: u64) -> (hgatp: u64)
    ensures
        hgatp == hgatp_for_root_spec(root),
        root < PHYS_ADDR_LIMIT ==> hgatp >> HGATP_MODE_SHIFT == HGATP_MODE_SV39X4,
        root < PHYS_ADDR_LIMIT ==> hgatp & HGATP_PPN == root >> PAGE_SHIFT,
        root < PHYS_ADDR_LIMIT ==> hgatp & !((HGATP_MODE_SV39X4 << HGATP_MODE_SHIFT) | HGATP_PPN)
            == 0,
{
    assert(root < 0x100_0000_0000_0000u64 ==> ((8u64 << 60u64) | (root >> 12u64)) >> 60u64 == 8u64)
        by (bit_vector);
    assert(root < 0x100_0000_0000_0000u64 ==> ((8u64 << 60u64) | (root >> 12u64))
        & 0xfff_ffff_ffffu64 == root >> 12u64) by (bit_vector);
    assert(root < 0x100_0000_0000_0000u64 ==> ((8u64 << 60u64) | (root >> 12u64)) & !((8u64
        << 60u64) | 0xfff_ffff_ffffu64) == 0) by (bit_vector);
    (HGATP_MODE_SV39X4 << HGATP_MODE_SHIFT) | (root >> PAGE_SHIFT)
}

/// One privileged step of arming second-stage translation.
#[derive(Clone, Copy, Debug, PartialEq, Eq)]
pub enum Stage2Op {
    /// Write this value to `hgatp`.
    WriteRoot(u64),
    /// Drop every cached second-stage translation, of every guest.
    InvalidateAll,
}

/// The steps that install the page table rooted at physical address `root`
/// as the second translation stage, in the order in which they are to be
/// taken: first the root is programmed, then every translation cached under
/// an earlier root is dropped. The steps depend on `root` alone, so taking
/// them again installs the same translation again.
pub fn install(root: u64) -> (ops: [Stage2Op; 2])
    ensures
        ops@ == seq![Stage2Op::WriteRoot(hgatp_for_root_spec(root)), Stage2Op::InvalidateAll],
{
    let ops = [Stage2Op::WriteRoot(hgatp_for_root(root)), Stage2Op::InvalidateAll];
    assert(ops@ =~= seq![
        Stage2Op::WriteRoot(hgatp_for_root_spec(root)),
        Stage2Op::InvalidateAll,
    ]);
    ops
}

} // verus!
