//! Bit-level layout of the privileged registers that the hypervisor reads
//! and prepares, and the calls that decode or modify a register value.

use vstd::prelude::*;

verus! {

/// `hstatus.SPV`: the hart was in a virtualized mode before the trap, so a
/// trap return resumes the guest.
pub const HSTATUS_SPV: u64 = 0x80;

/// `hstatus.SPVP`: hypervisor loads and stores into guest memory act with
/// supervisor privilege.
pub const HSTATUS_SPVP: u64 = 0x100;

/// Bit position of `hstatus.SPV`.
pub const HSTATUS_SPV_SHIFT: usize = 7;

/// Bit position of `hstatus.SPVP`.
pub const HSTATUS_SPVP_SHIFT: usize = 8;

/// `sstatus.SPP`: a trap return resumes in supervisor mode.
pub const SSTATUS_SPP: u64 = 0x100;

/// The bits of `sstatus` that belong to a defined field on a 64-bit hart.
pub const SSTATUS_FIELDS: u64 = 0x8000_0003_000d_e762;

/// The bit of `scause` that tells an interrupt from an exception.
pub const SCAUSE_INTERRUPT_SHIFT: u64 = 63;

/// The bits of `scause` that hold the cause code.
pub const SCAUSE_CODE: u64 = 0x7fff_ffff_ffff_ffff;

/// What a trap cause register says: the kind of the trap and its code.
#[derive(Clone, Copy, Debug, PartialEq, Eq)]
pub enum TrapCause {
    Interrupt(u64),
    Exception(u64),
}

/// The trap that the raw value `bits` of `scause` stands for.
pub open spec fn trap_cause_of(bits: u64) -> TrapCause {
    if (bits >> SCAUSE_INTERRUPT_SHIFT) & 1 != 0 {
        TrapCause::Interrupt(bits & SCAUSE_CODE)
    } else {
        TrapCause::Exception(bits & SCAUSE_CODE)
    }
}

/// `bits` with the field of width mask `mask` at position `shift` replaced
/// by `value`.
pub open spec fn with_field(bits: u64, mask: u64, shift: u64, value: u64) -> u64 {
    (bits & !(mask << shift)) | ((value & mask) << shift)
}

/// `bits` reduced to the defined fields of `sstatus`, with the previous
/// privilege set to supervisor.
pub open spec fn with_supervisor_spp(bits: u64) -> u64 {
    (bits & SSTATUS_FIELDS) | SSTATUS_SPP
}

/// Decodes a raw `scause` value with `riscv::register::scause::Scause::cause`.
///
/// Trusted: the top bit selects interrupt or exception and the remaining 63
/// bits are the code, as the register type extracts them on a 64-bit target.
#[verifier::external_body]
pub(crate) fn scause_trap(bits: u64) -> (r: TrapCause)
    ensures
        r == trap_cause_of(bits),
{
    match riscv::register::scause::Scause::from_bits(bits as usize).cause() {
        riscv::interrupt::Trap::Interrupt(code) => TrapCause::Interrupt(code as u64),
        riscv::interrupt::Trap::Exception(code) => TrapCause::Exception(code as u64),
    }
}

/// Sets the previous privilege of a raw `sstatus` value to supervisor with
/// `riscv::register::sstatus::Sstatus::set_spp`.
///
/// Trusted: the register type keeps only the defined fields of the value it
/// is built from, and the setter raises bit 8 of that in-memory copy.
#[verifier::external_body]
pub(crate) fn sstatus_set_supervisor_spp(bits: u64) -> (r: u64)
    ensures
        r == with_supervisor_spp(bits),
{
    let mut sstatus = riscv::register::sstatus::Sstatus::from_bits(bits as usize);
    sstatus.set_spp(riscv::register::sstatus::SPP::Supervisor);
    sstatus.bits() as u64
}

/// Replaces one field of a register value with
/// `tock_registers::LocalRegisterCopy::modify`.
///
/// Trusted: the field value is built from `mask`, `shift` and `value` as
/// `(mask << shift, (value & mask) << shift)`, and `modify` clears the masked
/// bits of the copy and ors the field value in.
#[verifier::external_body]
pub(crate) fn modify_field(bits: u64, mask: u64, shift: usize, value: u64) -> (r: u64)
    requires
        shift < 64,
    ensures
        r == with_field(bits, mask, shift as u64, value),
{
    let mut reg = tock_registers::LocalRegisterCopy::<u64, ()>::new(bits);
    reg.modify(tock_registers::fields::FieldValue::<u64, ()>::new(mask, shift, value));
    reg.get()
}

} // verus!
