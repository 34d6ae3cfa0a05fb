//! The register state of one virtual CPU.

use vstd::prelude::*;
use crate::csr::{
    modify_field, sstatus_set_supervisor_spp, with_field, with_supervisor_spp, HSTATUS_SPV,
    HSTATUS_SPVP, HSTATUS_SPVP_SHIFT, HSTATUS_SPV_SHIFT, SSTATUS_SPP,
};
use crate::regs::{GeneralPurposeRegisters, GPR_COUNT};

verus! {

/// One saved register set: the general-purpose registers, the program
/// counter that a trap return resumes at, and the two status registers that
/// decide which privilege level it resumes into.
#[derive(Clone, Copy, Debug)]
pub struct CpuRegisters {
    pub gprs: GeneralPurposeRegisters,
    pub sepc: u64,
    pub hstatus: u64,
    pub sstatus: u64,
}

/// Width in bytes of the instruction that a skipped trap is assumed to have
/// been taken on.
pub const INSTRUCTION_WIDTH: u64 = 4;

/// A trap return with this `hstatus` enters the guest.
pub open spec fn guest_mode_enabled(hstatus: u64) -> bool {
    hstatus & HSTATUS_SPV != 0
}

/// With this `hstatus` the hypervisor reaches guest memory with supervisor
/// privilege.
pub open spec fn guest_memory_access_enabled(hstatus: u64) -> bool {
    hstatus & HSTATUS_SPVP != 0
}

/// A trap return with this `sstatus` resumes at the supervisor level.
pub open spec fn resumes_as_supervisor(sstatus: u64) -> bool {
    sstatus & SSTATUS_SPP != 0
}

/// The `hstatus` value that a guest is entered with, given the host's.
pub open spec fn guest_hstatus(host_hstatus: u64) -> u64 {
    host_hstatus | HSTATUS_SPV | HSTATUS_SPVP
}

/// The state of a virtual CPU: the guest's registers, and the host's as the
/// world switch saved them. There is no way to make one but `initialize`,
/// and no way to copy one.
#[derive(Debug)]
pub struct GuestContext {
    guest_regs: CpuRegisters,
    host_regs: CpuRegisters,
}

impl GuestContext {
    /// The guest's register set.
    pub closed spec fn guest(&self) -> CpuRegisters {
        self.guest_regs
    }

    /// The host's register set.
    pub closed spec fn host(&self) -> CpuRegisters {
        self.host_regs
    }

    /// Builds the context that a guest is first entered with: it resumes at
    /// `entry_address`, in the guest's supervisor mode, with guest memory
    /// open to the hypervisor. `host_hstatus` and `host_sstatus` are the
    /// host's current values of the two status registers, whose other fields
    /// the guest inherits.
    pub fn initialize(entry_address: u64, host_hstatus: u64, host_sstatus: u64) -> (ctx: Self)
        ensures
            ctx.guest().sepc == entry_address,
            ctx.guest().hstatus == guest_hstatus(host_hstatus),
            ctx.guest().sstatus == with_supervisor_spp(host_sstatus),
            guest_mode_enabled(ctx.guest().hstatus),
            guest_memory_access_enabled(ctx.guest().hstatus),
            resumes_as_supervisor(ctx.guest().sstatus),
            ctx.guest().gprs@ == Seq::new(GPR_COUNT as nat, |i: int| 0u64),
            ctx.host().gprs@ == Seq::new(GPR_COUNT as nat, |i: int| 0u64),
            ctx.host().sepc == 0,
            ctx.host().hstatus == 0,
            ctx.host().sstatus == 0,
    {
        let with_spv = modify_field(host_hstatus, 1, HSTATUS_SPV_SHIFT, 1);
        let hstatus = modify_field(with_spv, 1, HSTATUS_SPVP_SHIFT, 1);
        let sstatus = sstatus_set_supervisor_spp(host_sstatus);
        proof {
            lemma_guest_status_bits(host_hstatus, host_sstatus);
        }
        GuestContext {
            guest_regs: CpuRegisters {
                gprs: GeneralPurposeRegisters::new(),
                sepc: entry_address,
                hstatus,
                sstatus,
            },
            host_regs: CpuRegisters {
                gprs: GeneralPurposeRegisters::new(),
                sepc: 0,
                hstatus: 0,
                sstatus: 0,
            },
        }
    }

    /// The guest's register set.
    pub fn guest_regs(&self) -> (r: &CpuRegisters)
        ensures
            *r == self.guest(),
    {
        &self.guest_regs
    }

    /// The host's register set.
    pub fn host_regs(&self) -> (r: &CpuRegisters)
        ensures
            *r == self.host(),
    {
        &self.host_regs
    }

    /// Replaces the guest's register set, as the world switch does when the
    /// guest traps.
    pub fn set_guest_regs(&mut self, regs: CpuRegisters)
        ensures
            final(self).guest() == regs,
            final(self).host() == old(self).host(),
    {
        self.guest_regs = regs;
    }

    /// Replaces the host's register set, as the world switch does when the
    /// guest is entered.
    pub fn set_host_regs(&mut self, regs: CpuRegisters)
        ensures
            final(self).host() == regs,
            final(self).guest() == old(self).guest(),
    {
        self.host_regs = regs;
    }

    /// Moves the guest's resume address past one instruction.
    pub fn skip_instruction(&mut self)
        requires
            old(self).guest().sepc + INSTRUCTION_WIDTH <= u64::MAX,
        ensures
            final(self).guest() == (CpuRegisters {
                sepc: (old(self).guest().sepc + INSTRUCTION_WIDTH) as u64,
                ..old(self).guest()
            }),
            final(self).host() == old(self).host(),
    {
        self.guest_regs.sepc = self.guest_regs.sepc + INSTRUCTION_WIDTH;
    }
}

/// Setting the two one-bit fields of `hstatus` ors both bits in, and the
/// prepared status values decode as a guest entry at supervisor level.
pub proof fn lemma_guest_status_bits(host_hstatus: u64, host_sstatus: u64)
    ensures
        with_field(with_field(host_hstatus, 1, 7, 1), 1, 8, 1) == guest_hstatus(host_hstatus),
        guest_mode_enabled(guest_hstatus(host_hstatus)),
        guest_memory_access_enabled(guest_hstatus(host_hstatus)),
        resumes_as_supervisor(with_supervisor_spp(host_sstatus)),
{
    assert(((((host_hstatus & !(1u64 << 7u64)) | ((1u64 & 1u64) << 7u64)) & !(1u64 << 8u64)) | ((1u64
        & 1u64) << 8u64)) == host_hstatus | 0x80u64 | 0x100u64) by (bit_vector);
    assert((host_hstatus | 0x80u64 | 0x100u64) & 0x80u64 != 0) by (bit_vector);
    assert((host_hstatus | 0x80u64 | 0x100u64) & 0x100u64 != 0) by (bit_vector);
    assert(((host_sstatus & 0x8000_0003_000d_e762u64) | 0x100u64) & 0x100u64 != 0)
        by (bit_vector);
}

} // verus!
