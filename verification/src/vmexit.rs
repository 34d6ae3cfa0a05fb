//! Classifying a return from guest mode and deciding what to do about it.

use vstd::prelude::*;
use crate::context::{CpuRegisters, GuestContext, INSTRUCTION_WIDTH};
use crate::csr::{scause_trap, trap_cause_of, TrapCause};
use crate::regs::{ARG_REG_COUNT, FIRST_ARG_SLOT};
use crate::sbi::{
    decode_spec, DecodeError, HypervisorCall, EXTENSION_SLOT, EXT_SYSTEM_RESET, FN_SYSTEM_RESET,
    FUNCTION_SLOT,
};

verus! {

/// Exception code: illegal instruction.
pub const EXC_ILLEGAL_INSTRUCTION: u64 = 2;

/// Exception code: environment call from the guest's supervisor mode.
pub const EXC_VIRTUAL_SUPERVISOR_ENV_CALL: u64 = 10;

/// Exception code: guest page fault on a load.
pub const EXC_LOAD_GUEST_PAGE_FAULT: u64 = 21;

/// First code that a shutdown call must carry.
pub const SHUTDOWN_CODE0: u64 = 0x6688;

/// Second code that a shutdown call must carry.
pub const SHUTDOWN_CODE1: u64 = 0x1234;

/// Why control came back from the guest.
#[derive(Clone, Copy, Debug, PartialEq, Eq)]
pub enum VmExitCause {
    /// The guest made a hypervisor call.
    HypervisorCall,
    /// The guest ran an instruction that trapped as illegal.
    IllegalInstruction,
    /// The guest touched a guest-physical address that is not mapped;
    /// carries the faulting address.
    GuestPageFault(u64),
    /// Any other trap; carries the raw cause register.
    Unhandled(u64),
}

/// The access rights that a repaired mapping is asked to grant.
#[derive(Clone, Copy, Debug, PartialEq, Eq)]
pub struct AccessPermissions {
    pub read: bool,
    pub write: bool,
    pub execute: bool,
}

/// What the run loop has to do after an exit that is not fatal.
#[derive(Clone, Copy, Debug, PartialEq, Eq)]
pub enum VmExitAction {
    /// The guest shut down in good order: leave the run loop.
    Terminate,
    /// Enter the guest again.
    Resume,
    /// Map the page around `address` with `permissions`, then enter the
    /// guest again.
    RepairFault { address: u64, permissions: AccessPermissions },
    /// Report the exit, then enter the guest again.
    ReportUnhandled { cause: u64, sepc: u64, stval: u64 },
}

/// An exit that the hypervisor cannot go on from.
#[derive(Clone, Copy, Debug, PartialEq, Eq)]
pub enum VmExitError {
    /// The hypervisor call could not be decoded.
    MalformedCall(DecodeError),
    /// The hypervisor call is into an extension that is not implemented;
    /// carries the extension identifier.
    UnsupportedCall(u64),
    /// A shutdown call carried other codes than the agreed ones; carries
    /// the codes it did carry.
    ShutdownMismatch(u64, u64),
}

/// Full access: read, write and execute.
pub open spec fn full_access() -> AccessPermissions {
    AccessPermissions { read: true, write: true, execute: true }
}

/// The exit cause that the cause register `scause` and the trap value
/// register `stval` stand for.
pub open spec fn classify_spec(scause: u64, stval: u64) -> VmExitCause {
    match trap_cause_of(scause) {
        TrapCause::Exception(code) => {
            if code == EXC_VIRTUAL_SUPERVISOR_ENV_CALL {
                VmExitCause::HypervisorCall
            } else if code == EXC_ILLEGAL_INSTRUCTION {
                VmExitCause::IllegalInstruction
            } else if code == EXC_LOAD_GUEST_PAGE_FAULT {
                VmExitCause::GuestPageFault(stval)
            } else {
                VmExitCause::Unhandled(scause)
            }
        },
        TrapCause::Interrupt(_) => VmExitCause::Unhandled(scause),
    }
}

/// The argument registers `a0` through `a7` of a register set.
pub open spec fn argument_registers(regs: CpuRegisters) -> Seq<u64> {
    regs.gprs@.subrange(FIRST_ARG_SLOT as int, FIRST_ARG_SLOT + ARG_REG_COUNT)
}

/// What a shutdown call with the codes `code0` and `code1` leads to.
pub open spec fn shutdown_outcome(code0: u64, code1: u64) -> Result<VmExitAction, VmExitError> {
    if code0 == SHUTDOWN_CODE0 && code1 == SHUTDOWN_CODE1 {
        Ok(VmExitAction::Terminate)
    } else {
        Err(VmExitError::ShutdownMismatch(code0, code1))
    }
}

/// What the hypervisor call held in the argument registers `args` leads to.
pub open spec fn call_outcome(args: Seq<u64>) -> Result<VmExitAction, VmExitError> {
    match decode_spec(args) {
        Ok(HypervisorCall::Shutdown(code0, code1)) => shutdown_outcome(code0, code1),
        Ok(HypervisorCall::Unsupported(extension)) => Err(VmExitError::UnsupportedCall(extension)),
        Err(e) => Err(VmExitError::MalformedCall(e)),
    }
}

/// What an exit leads to, given the guest's registers at the trap.
pub open spec fn exit_outcome(guest: CpuRegisters, scause: u64, stval: u64) -> Result<
    VmExitAction,
    VmExitError,
> {
    match classify_spec(scause, stval) {
        VmExitCause::HypervisorCall => call_outcome(argument_registers(guest)),
        VmExitCause::IllegalInstruction => Ok(VmExitAction::Resume),
        VmExitCause::GuestPageFault(address) => Ok(
            VmExitAction::RepairFault { address, permissions: full_access() },
        ),
        VmExitCause::Unhandled(cause) => Ok(
            VmExitAction::ReportUnhandled { cause, sepc: guest.sepc, stval },
        ),
    }
}

/// Whether the exit is one after which the guest resumes past the
/// instruction that trapped.
pub open spec fn skips_instruction(cause: VmExitCause) -> bool {
    cause is IllegalInstruction || cause is GuestPageFault
}

/// The guest's registers after the exit has been handled.
pub open spec fn guest_after_exit(guest: CpuRegisters, scause: u64, stval: u64) -> CpuRegisters {
    if skips_instruction(classify_spec(scause, stval)) {
        CpuRegisters { sepc: (guest.sepc + INSTRUCTION_WIDTH) as u64, ..guest }
    } else {
        guest
    }
}

impl VmExitCause {
    /// Classifies an exit from the raw cause register and the trap value
    /// register, both read right after the guest trapped.
    pub fn classify(scause: u64, stval: u64) -> (cause: VmExitCause)
        ensures
            cause == classify_spec(scause, stval),
    {
        match scause_trap(scause) {
            TrapCause::Exception(code) => {
                if code == EXC_VIRTUAL_SUPERVISOR_ENV_CALL {
                    VmExitCause::HypervisorCall
                } else if code == EXC_ILLEGAL_INSTRUCTION {
                    VmExitCause::IllegalInstruction
                } else if code == EXC_LOAD_GUEST_PAGE_FAULT {
                    VmExitCause::GuestPageFault(stval)
                } else {
                    VmExitCause::Unhandled(scause)
                }
            },
            TrapCause::Interrupt(_) => VmExitCause::Unhandled(scause),
        }
    }
}

impl VmExitAction {
    /// Whether the run loop ends with this action.
    pub open spec fn terminates_spec(self) -> bool {
        self is Terminate
    }

    /// Whether the run loop ends with this action: `true` only for
    /// `Terminate`.
    #[verifier::when_used_as_spec(terminates_spec)]
    pub fn terminates(self) -> (r: bool)
        ensures
            r == self.terminates_spec(),
    {
        match self {
            VmExitAction::Terminate => true,
            _ => false,
        }
    }
}

/// Handles a hypervisor call: decodes it from the argument registers and
/// checks a shutdown against the agreed codes.
pub fn handle_call(args: &[u64; 8]) -> (r: Result<VmExitAction, VmExitError>)
    ensures
        r == call_outcome(args@),
{
    match HypervisorCall::decode(args) {
        Ok(HypervisorCall::Shutdown(code0, code1)) => {
            if code0 == SHUTDOWN_CODE0 && code1 == SHUTDOWN_CODE1 {
                Ok(VmExitAction::Terminate)
            } else {
                Err(VmExitError::ShutdownMismatch(code0, code1))
            }
        },
        Ok(HypervisorCall::Unsupported(extension)) => Err(VmExitError::UnsupportedCall(extension)),
        Err(e) => Err(VmExitError::MalformedCall(e)),
    }
}

/// Decides what follows a return from guest mode. `ctx` holds the guest's
/// registers as they were at the trap; `scause` and `stval` are the cause
/// and trap value registers read right after it.
///
/// A hypervisor call ends the run loop if it is a shutdown with the agreed
/// codes and is fatal otherwise. An illegal instruction is skipped. A guest
/// page fault asks for a mapping with full access at the faulting address
/// and skips the faulting instruction. Anything else is reported and the
/// guest resumes unchanged.
pub fn vmexit_handler(ctx: &mut GuestContext, scause: u64, stval: u64) -> (r: Result<
    VmExitAction,
    VmExitError,
>)
    requires
        skips_instruction(classify_spec(scause, stval)) ==> old(ctx).guest().sepc
            + INSTRUCTION_WIDTH <= u64::MAX,
    ensures
        r == exit_outcome(old(ctx).guest(), scause, stval),
        final(ctx).guest() == guest_after_exit(old(ctx).guest(), scause, stval),
        final(ctx).host() == old(ctx).host(),
{
    match VmExitCause::classify(scause, stval) {
        VmExitCause::HypervisorCall => {
            let args = ctx.guest_regs().gprs.a_regs();
            handle_call(&args)
        },
        VmExitCause::IllegalInstruction => {
            ctx.skip_instruction();
            Ok(VmExitAction::Resume)
        },
        VmExitCause::GuestPageFault(address) => {
            ctx.skip_instruction();
            Ok(
                VmExitAction::RepairFault {
                    address,
                    permissions: AccessPermissions { read: true, write: true, execute: true },
                },
            )
        },
        VmExitCause::Unhandled(cause) => {
            let sepc = ctx.guest_regs().sepc;
            Ok(VmExitAction::ReportUnhandled { cause, sepc, stval })
        },
    }
}

/// One turn of the run loop after the world switch has come back: records
/// the registers that the guest trapped with, then handles the exit.
pub fn run_guest(ctx: &mut GuestContext, trapped: CpuRegisters, scause: u64, stval: u64) -> (r:
    Result<VmExitAction, VmExitError>)
    requires
        skips_instruction(classify_spec(scause, stval)) ==> trapped.sepc + INSTRUCTION_WIDTH
            <= u64::MAX,
    ensures
        r == exit_outcome(trapped, scause, stval),
        final(ctx).guest() == guest_after_exit(trapped, scause, stval),
        final(ctx).host() == old(ctx).host(),
{
    ctx.set_guest_regs(trapped);
    vmexit_handler(ctx, scause, stval)
}

/// The run loop ends exactly on a hypervisor call that decodes to a shutdown
/// with the agreed codes. An illegal instruction, a guest page fault and an
/// unhandled trap never end it, and no fatal exit does.
pub proof fn lemma_terminates_iff_agreed_shutdown(guest: CpuRegisters, scause: u64, stval: u64)
    ensures
        exit_outcome(guest, scause, stval) == Ok::<VmExitAction, VmExitError>(
            VmExitAction::Terminate,
        ) <==> classify_spec(scause, stval) is HypervisorCall && decode_spec(
            argument_registers(guest),
        ) == Ok::<HypervisorCall, DecodeError>(
            HypervisorCall::Shutdown(SHUTDOWN_CODE0, SHUTDOWN_CODE1),
        ),
        !(classify_spec(scause, stval) is HypervisorCall) ==> exit_outcome(guest, scause, stval)
            is Ok && !exit_outcome(guest, scause, stval)->Ok_0.terminates(),
{
}

/// A call whose extension and function identifiers are those of the reset
/// call ends the run loop in good order if its two payload values are the
/// agreed codes. With any other pair it is a fatal mismatch that reports the
/// pair, and never a success.
pub proof fn lemma_shutdown_call_outcome(args: Seq<u64>)
    requires
        args.len() == ARG_REG_COUNT,
        args[EXTENSION_SLOT as int] == EXT_SYSTEM_RESET,
        args[FUNCTION_SLOT as int] == FN_SYSTEM_RESET,
    ensures
        args[0] == SHUTDOWN_CODE0 && args[1] == SHUTDOWN_CODE1 ==> call_outcome(args) == Ok::<
            VmExitAction,
            VmExitError,
        >(VmExitAction::Terminate),
        !(args[0] == SHUTDOWN_CODE0 && args[1] == SHUTDOWN_CODE1) ==> call_outcome(args) == Err::<
            VmExitAction,
            VmExitError,
        >(VmExitError::ShutdownMismatch(args[0], args[1])),
{
}

} // verus!
