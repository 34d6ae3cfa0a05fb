use simple_hv::context::{CpuRegisters, GuestContext};
use simple_hv::csr::{HSTATUS_SPV, HSTATUS_SPVP, SSTATUS_FIELDS, SSTATUS_SPP};
use simple_hv::regs::{GeneralPurposeRegisters, GprIndex};
use simple_hv::sbi::{DecodeError, HypervisorCall, EXT_SYSTEM_RESET};
use simple_hv::stage2::{hgatp_for_root, install, Stage2Op};
use simple_hv::vmexit::{
    handle_call, run_guest, vmexit_handler, AccessPermissions, VmExitAction, VmExitCause,
    VmExitError,
};

const ENTRY: u64 = 0x8020_0000;
const ECALL: u64 = 10;
const ILLEGAL: u64 = 2;
const LOAD_GUEST_FAULT: u64 = 21;

/// One trap of a scripted guest: the argument registers it had set by then,
/// and the cause and trap value that the hardware reported.
struct Trap {
    a0: u64,
    a1: u64,
    a6: u64,
    a7: u64,
    scause: u64,
    stval: u64,
}

struct Run {
    switches: usize,
    repairs: Vec<u64>,
    pcs: Vec<u64>,
    ended: Result<bool, VmExitError>,
}

fn shutdown(a0: u64, a1: u64) -> Trap {
    Trap { a0, a1, a6: 0, a7: EXT_SYSTEM_RESET, scause: ECALL, stval: 0 }
}

fn trap(scause: u64, stval: u64) -> Trap {
    Trap { a0: 0, a1: 0, a6: 0, a7: 0, scause, stval }
}

/// Runs the loop of the hypervisor against a guest that traps as scripted.
fn run(script: &[Trap]) -> Run {
    let mut ctx = GuestContext::initialize(ENTRY, 0, 0);
    let mut out = Run { switches: 0, repairs: Vec::new(), pcs: Vec::new(), ended: Ok(false) };
    for t in script {
        out.switches += 1;
        let mut trapped: CpuRegisters = *ctx.guest_regs();
        trapped.gprs.set_reg(GprIndex::A0, t.a0);
        trapped.gprs.set_reg(GprIndex::A1, t.a1);
        trapped.gprs.set_reg(GprIndex::A6, t.a6);
        trapped.gprs.set_reg(GprIndex::A7, t.a7);
        let r = run_guest(&mut ctx, trapped, t.scause, t.stval);
        out.pcs.push(ctx.guest_regs().sepc);
        match r {
            Ok(action) => {
                if let VmExitAction::RepairFault { address, permissions } = action {
                    assert_eq!(
                        permissions,
                        AccessPermissions { read: true, write: true, execute: true }
                    );
                    out.repairs.push(address);
                }
                if action.terminates() {
                    out.ended = Ok(true);
                    return out;
                }
            }
            Err(e) => {
                out.ended = Err(e);
                return out;
            }
        }
    }
    out
}

#[test]
fn initialize_sets_entry_and_guest_status() {
    let ctx = GuestContext::initialize(ENTRY, 0, 0);
    let g = ctx.guest_regs();
    assert_eq!(g.sepc, ENTRY);
    assert_eq!(g.hstatus, 0x180);
    assert_eq!(g.sstatus, 0x100);
    assert_ne!(g.hstatus & HSTATUS_SPV, 0);
    assert_ne!(g.hstatus & HSTATUS_SPVP, 0);
    assert_ne!(g.sstatus & SSTATUS_SPP, 0);
    for raw in 0..32 {
        assert_eq!(g.gprs.reg(GprIndex::from_raw(raw).unwrap()), 0);
    }
}

#[test]
fn initialize_keeps_the_other_host_status_bits() {
    let ctx = GuestContext::initialize(0, 0x0000_0002_0000_0040, u64::MAX);
    let g = ctx.guest_regs();
    assert_eq!(g.sepc, 0);
    assert_eq!(g.hstatus, 0x0000_0002_0000_01c0);
    assert_eq!(g.sstatus, SSTATUS_FIELDS);
    assert_eq!(g.sstatus, 0x8000_0003_000d_e762);
}

#[test]
fn initialize_accepts_the_highest_address() {
    let ctx = GuestContext::initialize(u64::MAX, 0x180, 0x100);
    assert_eq!(ctx.guest_regs().sepc, u64::MAX);
    assert_eq!(ctx.guest_regs().hstatus, 0x180);
    assert_eq!(ctx.guest_regs().sstatus, 0x100);
    assert_eq!(ctx.host_regs().sepc, 0);
}

#[test]
fn hgatp_selects_sv39x4_and_the_root_page() {
    assert_eq!(hgatp_for_root(0x8000_0000), 0x8000_0000_0008_0000);
    assert_eq!(hgatp_for_root(0), 0x8000_0000_0000_0000);
    assert_eq!(hgatp_for_root(0xfff), 0x8000_0000_0000_0000);
    assert_eq!(hgatp_for_root(0x1000), 0x8000_0000_0000_0001);
    assert_eq!(hgatp_for_root(0x8000_0000), hgatp_for_root(0x8000_0000));
}

#[test]
fn register_file_reads_back_what_was_written() {
    let mut regs = GeneralPurposeRegisters::new();
    regs.set_reg(GprIndex::A0, 0x6688);
    regs.set_reg(GprIndex::T6, 7);
    regs.set_reg(GprIndex::Zero, 99);
    assert_eq!(regs.reg(GprIndex::A0), 0x6688);
    assert_eq!(regs.reg(GprIndex::T6), 7);
    assert_eq!(regs.reg(GprIndex::Zero), 0);
    assert_eq!(regs.reg(GprIndex::A1), 0);
}

#[test]
fn register_names_follow_slot_order() {
    assert_eq!(GprIndex::Zero.index(), 0);
    assert_eq!(GprIndex::A0.index(), 10);
    assert_eq!(GprIndex::A7.index(), 17);
    assert_eq!(GprIndex::T6.index(), 31);
    assert_eq!(GprIndex::from_raw(10), Some(GprIndex::A0));
    assert_eq!(GprIndex::from_raw(31), Some(GprIndex::T6));
    assert_eq!(GprIndex::from_raw(32), None);
    for raw in 0..32u32 {
        assert_eq!(GprIndex::from_raw(raw).unwrap().index(), raw as usize);
    }
}

#[test]
fn argument_registers_are_a0_to_a7() {
    let mut regs = GeneralPurposeRegisters::new();
    let names = [
        GprIndex::A0,
        GprIndex::A1,
        GprIndex::A2,
        GprIndex::A3,
        GprIndex::A4,
        GprIndex::A5,
        GprIndex::A6,
        GprIndex::A7,
    ];
    for (i, name) in names.iter().enumerate() {
        regs.set_reg(*name, 100 + i as u64);
    }
    regs.set_reg(GprIndex::S1, 1);
    regs.set_reg(GprIndex::S2, 2);
    assert_eq!(regs.a_regs(), [100, 101, 102, 103, 104, 105, 106, 107]);
}

#[test]
fn decode_shutdown_carries_the_payload() {
    let args = [0x6688, 0x1234, 0, 0, 0, 0, 0, EXT_SYSTEM_RESET];
    assert_eq!(HypervisorCall::decode(&args), Ok(HypervisorCall::Shutdown(0x6688, 0x1234)));
    let other = [0x1111, 0x1234, 9, 9, 9, 9, 0, EXT_SYSTEM_RESET];
    assert_eq!(HypervisorCall::decode(&other), Ok(HypervisorCall::Shutdown(0x1111, 0x1234)));
}

#[test]
fn decode_unknown_extension_is_unsupported() {
    for ext in [0u64, 1, 8, 0x10, 0x5352_5353, 0x5352_5355, u64::MAX] {
        for function in [0u64, 1, u64::MAX] {
            let args = [0x6688, 0x1234, 3, 4, 5, 6, function, ext];
            assert_eq!(HypervisorCall::decode(&args), Ok(HypervisorCall::Unsupported(ext)));
        }
    }
}

#[test]
fn decode_unknown_function_is_an_error() {
    let args = [0x6688, 0x1234, 0, 0, 0, 0, 1, EXT_SYSTEM_RESET];
    assert_eq!(
        HypervisorCall::decode(&args),
        Err(DecodeError::UnknownFunction { extension: EXT_SYSTEM_RESET, function: 1 })
    );
}

#[test]
fn handle_call_checks_the_codes() {
    let good = [0x6688, 0x1234, 0, 0, 0, 0, 0, EXT_SYSTEM_RESET];
    assert_eq!(handle_call(&good), Ok(VmExitAction::Terminate));
    let swapped = [0x1234, 0x6688, 0, 0, 0, 0, 0, EXT_SYSTEM_RESET];
    assert_eq!(handle_call(&swapped), Err(VmExitError::ShutdownMismatch(0x1234, 0x6688)));
    let second_wrong = [0x6688, 0x1235, 0, 0, 0, 0, 0, EXT_SYSTEM_RESET];
    assert_eq!(handle_call(&second_wrong), Err(VmExitError::ShutdownMismatch(0x6688, 0x1235)));
    let unknown = [0x6688, 0x1234, 0, 0, 0, 0, 0, 1];
    assert_eq!(handle_call(&unknown), Err(VmExitError::UnsupportedCall(1)));
    let malformed = [0x6688, 0x1234, 0, 0, 0, 0, 5, EXT_SYSTEM_RESET];
    assert_eq!(
        handle_call(&malformed),
        Err(VmExitError::MalformedCall(DecodeError::UnknownFunction {
            extension: EXT_SYSTEM_RESET,
            function: 5
        }))
    );
}

#[test]
fn classify_reads_the_cause_code() {
    assert_eq!(VmExitCause::classify(10, 77), VmExitCause::HypervisorCall);
    assert_eq!(VmExitCause::classify(2, 77), VmExitCause::IllegalInstruction);
    assert_eq!(VmExitCause::classify(21, 0x4000), VmExitCause::GuestPageFault(0x4000));
    assert_eq!(VmExitCause::classify(20, 0x4000), VmExitCause::Unhandled(20));
    assert_eq!(VmExitCause::classify(23, 0x4000), VmExitCause::Unhandled(23));
    assert_eq!(VmExitCause::classify(0, 0), VmExitCause::Unhandled(0));
}

#[test]
fn classify_tells_interrupts_from_exceptions() {
    let interrupt = 1u64 << 63;
    assert_eq!(VmExitCause::classify(interrupt | 10, 0), VmExitCause::Unhandled(interrupt | 10));
    assert_eq!(VmExitCause::classify(interrupt | 2, 0), VmExitCause::Unhandled(interrupt | 2));
    assert_eq!(VmExitCause::classify(interrupt | 21, 5), VmExitCause::Unhandled(interrupt | 21));
    assert_eq!(VmExitCause::classify(interrupt | 5, 0), VmExitCause::Unhandled(interrupt | 5));
}

#[test]
fn illegal_instruction_is_skipped() {
    let mut ctx = GuestContext::initialize(ENTRY, 0, 0);
    let before = *ctx.guest_regs();
    let r = vmexit_handler(&mut ctx, ILLEGAL, 0x3020_2573);
    assert_eq!(r, Ok(VmExitAction::Resume));
    assert_eq!(ctx.guest_regs().sepc, ENTRY + 4);
    assert_eq!(ctx.guest_regs().hstatus, before.hstatus);
    assert_eq!(ctx.guest_regs().sstatus, before.sstatus);
}

#[test]
fn guest_page_fault_asks_for_a_mapping_and_skips() {
    let mut ctx = GuestContext::initialize(ENTRY, 0, 0);
    let r = vmexit_handler(&mut ctx, LOAD_GUEST_FAULT, 0x40);
    assert_eq!(
        r,
        Ok(VmExitAction::RepairFault {
            address: 0x40,
            permissions: AccessPermissions { read: true, write: true, execute: true }
        })
    );
    assert_eq!(ctx.guest_regs().sepc, ENTRY + 4);
}

#[test]
fn the_same_fault_asks_for_the_same_mapping_again() {
    let mut ctx = GuestContext::initialize(ENTRY, 0, 0);
    let first = vmexit_handler(&mut ctx, LOAD_GUEST_FAULT, 0x9000_0000);
    let second = vmexit_handler(&mut ctx, LOAD_GUEST_FAULT, 0x9000_0000);
    assert_eq!(first, second);
    assert_eq!(ctx.guest_regs().sepc, ENTRY + 8);
}

#[test]
fn unhandled_exit_is_reported_and_changes_nothing() {
    let mut ctx = GuestContext::initialize(ENTRY, 0, 0);
    let r = vmexit_handler(&mut ctx, 13, 0xdead);
    assert_eq!(r, Ok(VmExitAction::ReportUnhandled { cause: 13, sepc: ENTRY, stval: 0xdead }));
    assert_eq!(ctx.guest_regs().sepc, ENTRY);
    let again = vmexit_handler(&mut ctx, 13, 0xdead);
    assert_eq!(again, r);
}

#[test]
fn only_terminate_ends_the_loop() {
    assert!(VmExitAction::Terminate.terminates());
    assert!(!VmExitAction::Resume.terminates());
    assert!(!VmExitAction::RepairFault {
        address: 0,
        permissions: AccessPermissions { read: true, write: true, execute: true }
    }
    .terminates());
    assert!(!VmExitAction::ReportUnhandled { cause: 0, sepc: 0, stval: 0 }.terminates());
}

#[test]
fn run_guest_takes_over_the_trapped_registers() {
    let mut ctx = GuestContext::initialize(ENTRY, 0, 0);
    let mut trapped = *ctx.guest_regs();
    trapped.sepc = 0x9000;
    trapped.gprs.set_reg(GprIndex::S3, 42);
    let r = run_guest(&mut ctx, trapped, ILLEGAL, 0);
    assert_eq!(r, Ok(VmExitAction::Resume));
    assert_eq!(ctx.guest_regs().sepc, 0x9004);
    assert_eq!(ctx.guest_regs().gprs.reg(GprIndex::S3), 42);
}

#[test]
fn context_setters_replace_one_side_only() {
    let mut ctx = GuestContext::initialize(ENTRY, 0, 0);
    let mut host = *ctx.host_regs();
    host.sepc = 0x1234;
    host.gprs.set_reg(GprIndex::SP, 0x8000);
    ctx.set_host_regs(host);
    assert_eq!(ctx.host_regs().sepc, 0x1234);
    assert_eq!(ctx.host_regs().gprs.reg(GprIndex::SP), 0x8000);
    assert_eq!(ctx.guest_regs().sepc, ENTRY);
    let mut guest = *ctx.guest_regs();
    guest.sepc = 0x42;
    ctx.set_guest_regs(guest);
    assert_eq!(ctx.guest_regs().sepc, 0x42);
    assert_eq!(ctx.host_regs().sepc, 0x1234);
    ctx.skip_instruction();
    assert_eq!(ctx.guest_regs().sepc, 0x46);
}

#[test]
fn scenario_single_shutdown_call() {
    let out = run(&[shutdown(0x6688, 0x1234)]);
    assert_eq!(out.ended, Ok(true));
    assert_eq!(out.switches, 1);
    assert!(out.repairs.is_empty());
}

#[test]
fn scenario_illegal_instruction_then_shutdown() {
    let out = run(&[trap(ILLEGAL, 0), shutdown(0x6688, 0x1234)]);
    assert_eq!(out.ended, Ok(true));
    assert_eq!(out.switches, 2);
    assert_eq!(out.pcs[0], ENTRY + 4);
}

#[test]
fn scenario_page_fault_then_shutdown() {
    let out = run(&[trap(LOAD_GUEST_FAULT, 0x40), shutdown(0x6688, 0x1234)]);
    assert_eq!(out.ended, Ok(true));
    assert_eq!(out.switches, 2);
    assert_eq!(out.repairs, vec![0x40]);
    assert_eq!(out.pcs[0], ENTRY + 4);
}

#[test]
fn scenario_shutdown_with_wrong_code_is_fatal() {
    let out = run(&[shutdown(0x1111, 0x1234)]);
    assert_eq!(out.ended, Err(VmExitError::ShutdownMismatch(0x1111, 0x1234)));
    assert_eq!(out.switches, 1);
}

#[test]
fn scenario_traps_without_shutdown_never_end_the_loop() {
    let out = run(&[
        trap(ILLEGAL, 0),
        trap(LOAD_GUEST_FAULT, 0x1000),
        trap(13, 0),
        trap((1 << 63) | 5, 0),
        trap(ILLEGAL, 0),
    ]);
    assert_eq!(out.ended, Ok(false));
    assert_eq!(out.switches, 5);
    assert_eq!(out.pcs, vec![ENTRY + 4, ENTRY + 8, ENTRY + 8, ENTRY + 8, ENTRY + 12]);
    assert_eq!(out.repairs, vec![0x1000]);
}

#[test]
fn scenario_unsupported_call_is_fatal() {
    let out = run(&[Trap { a0: 0x41, a1: 0, a6: 0, a7: 1, scause: ECALL, stval: 0 }]);
    assert_eq!(out.ended, Err(VmExitError::UnsupportedCall(1)));
}

#[test]
fn install_programs_the_root_then_invalidates() {
    assert_eq!(
        install(0x8000_0000),
        [Stage2Op::WriteRoot(0x8000_0000_0008_0000), Stage2Op::InvalidateAll]
    );
    assert_eq!(install(0x8000_0000), install(0x8000_0000));
    assert_eq!(install(0x1234_5000)[0], Stage2Op::WriteRoot(0x8000_0000_0001_2345));
}
