//! The general-purpose register file of a virtual CPU.

use vstd::prelude::*;

verus! {

/// Number of general-purpose registers.
pub const GPR_COUNT: usize = 32;

/// Number of argument registers (`a0` through `a7`).
pub const ARG_REG_COUNT: usize = 8;

/// Slot of the first argument register, `a0`.
pub const FIRST_ARG_SLOT: usize = 10;

/// Symbolic name of a general-purpose register, in slot order.
#[derive(Clone, Copy, Debug, PartialEq, Eq)]
pub enum GprIndex {
    Zero,
    RA,
    SP,
    GP,
    TP,
    T0,
    T1,
    T2,
    S0,
    S1,
    A0,
    A1,
    A2,
    A3,
    A4,
    A5,
    A6,
    A7,
    S2,
    S3,
    S4,
    S5,
    S6,
    S7,
    S8,
    S9,
    S10,
    S11,
    T3,
    T4,
    T5,
    T6,
}

impl GprIndex {
    /// The slot of the register file that this name stands for.
    pub open spec fn slot(self) -> int {
        match self {
            GprIndex::Zero => 0,
            GprIndex::RA => 1,
            GprIndex::SP => 2,
            GprIndex::GP => 3,
            GprIndex::TP => 4,
            GprIndex::T0 => 5,
            GprIndex::T1 => 6,
            GprIndex::T2 => 7,
            GprIndex::S0 => 8,
            GprIndex::S1 => 9,
            GprIndex::A0 => 10,
            GprIndex::A1 => 11,
            GprIndex::A2 => 12,
            GprIndex::A3 => 13,
            GprIndex::A4 => 14,
            GprIndex::A5 => 15,
            GprIndex::A6 => 16,
            GprIndex::A7 => 17,
            GprIndex::S2 => 18,
            GprIndex::S3 => 19,
            GprIndex::S4 => 20,
            GprIndex::S5 => 21,
            GprIndex::S6 => 22,
            GprIndex::S7 => 23,
            GprIndex::S8 => 24,
            GprIndex::S9 => 25,
            GprIndex::S10 => 26,
            GprIndex::S11 => 27,
            GprIndex::T3 => 28,
            GprIndex::T4 => 29,
            GprIndex::T5 => 30,
            GprIndex::T6 => 31,
        }
    }

    /// Returns the slot of the register file that this name stands for.
    pub fn index(self) -> (r: usize)
        ensures
            r == self.slot(),
            r < GPR_COUNT,
    {
        match self {
            GprIndex::Zero => 0,
            GprIndex::RA => 1,
            GprIndex::SP => 2,
            GprIndex::GP => 3,
            GprIndex::TP => 4,
            GprIndex::T0 => 5,
            GprIndex::T1 => 6,
            GprIndex::T2 => 7,
            GprIndex::S0 => 8,
            GprIndex::S1 => 9,
            GprIndex::A0 => 10,
            GprIndex::A1 => 11,
            GprIndex::A2 => 12,
            GprIndex::A3 => 13,
            GprIndex::A4 => 14,
            GprIndex::A5 => 15,
            GprIndex::A6 => 16,
            GprIndex::A7 => 17,
            GprIndex::S2 => 18,
            GprIndex::S3 => 19,
            GprIndex::S4 => 20,
            GprIndex::S5 => 21,
            GprIndex::S6 => 22,
            GprIndex::S7 => 23,
            GprIndex::S8 => 24,
            GprIndex::S9 => 25,
            GprIndex::S10 => 26,
            GprIndex::S11 => 27,
            GprIndex::T3 => 28,
            GprIndex::T4 => 29,
            GprIndex::T5 => 30,
            GprIndex::T6 => 31,
        }
    }

    /// Names the register that occupies slot `raw`, if there is one.
    pub fn from_raw(raw: u32) -> (r: Option<GprIndex>)
        ensures
            r is Some <==> raw < GPR_COUNT,
            r matches Some(idx) ==> idx.slot() == raw,
    {
        match raw {
            0 => Some(GprIndex::Zero),
            1 => Some(GprIndex::RA),
            2 => Some(GprIndex::SP),
            3 => Some(GprIndex::GP),
            4 => Some(GprIndex::TP),
            5 => Some(GprIndex::T0),
            6 => Some(GprIndex::T1),
            7 => Some(GprIndex::T2),
            8 => Some(GprIndex::S0),
            9 => Some(GprIndex::S1),
            10 => Some(GprIndex::A0),
            11 => Some(GprIndex::A1),
            12 => Some(GprIndex::A2),
            13 => Some(GprIndex::A3),
            14 => Some(GprIndex::A4),
            15 => Some(GprIndex::A5),
            16 => Some(GprIndex::A6),
            17 => Some(GprIndex::A7),
            18 => Some(GprIndex::S2),
            19 => Some(GprIndex::S3),
            20 => Some(GprIndex::S4),
            21 => Some(GprIndex::S5),
            22 => Some(GprIndex::S6),
            23 => Some(GprIndex::S7),
            24 => Some(GprIndex::S8),
            25 => Some(GprIndex::S9),
            26 => Some(GprIndex::S10),
            27 => Some(GprIndex::S11),
            28 => Some(GprIndex::T3),
            29 => Some(GprIndex::T4),
            30 => Some(GprIndex::T5),
            31 => Some(GprIndex::T6),
            _ => None,
        }
    }
}

/// The 32 general-purpose registers of one hart. Slot 0 is the hard-wired
/// zero register: writes to it are dropped.
#[derive(Clone, Copy, Debug)]
pub struct GeneralPurposeRegisters {
    regs: [u64; 32],
}

impl View for GeneralPurposeRegisters {
    type V = Seq<u64>;

    closed spec fn view(&self) -> Seq<u64> {
        self.regs@
    }
}

impl GeneralPurposeRegisters {
    /// A register file whose every slot holds zero.
    pub fn new() -> (r: Self)
        ensures
            r@ == Seq::new(GPR_COUNT as nat, |i: int| 0u64),
    {
        let r = GeneralPurposeRegisters { regs: [0u64; 32] };
        assert(r.regs@ =~= Seq::new(GPR_COUNT as nat, |i: int| 0u64));
        r
    }

    /// Every register file has exactly 32 slots.
    pub proof fn lemma_len(&self)
        ensures
            self@.len() == GPR_COUNT,
    {
    }

    /// Reads the register named `idx`.
    pub fn reg(&self, idx: GprIndex) -> (r: u64)
        ensures
            r == self@[idx.slot()],
    {
        self.regs[idx.index()]
    }

    /// Writes `val` to the register named `idx`; a write to the zero register
    /// changes nothing.
    pub fn set_reg(&mut self, idx: GprIndex, val: u64)
        ensures
            idx is Zero ==> final(self)@ == old(self)@,
            !(idx is Zero) ==> final(self)@ == old(self)@.update(idx.slot(), val),
    {
        match idx {
            GprIndex::Zero => {},
            _ => {
                let slot = idx.index();
                self.regs[slot] = val;
            },
        }
    }

    /// The eight argument registers `a0` through `a7`, in order.
    pub fn a_regs(&self) -> (r: [u64; 8])
        ensures
            r@ == self@.subrange(FIRST_ARG_SLOT as int, FIRST_ARG_SLOT + ARG_REG_COUNT),
    {
        let r = [
            self.regs[10],
            self.regs[11],
            self.regs[12],
            self.regs[13],
            self.regs[14],
            self.regs[15],
            self.regs[16],
            self.regs[17],
        ];
        assert(r@ =~= self@.subrange(FIRST_ARG_SLOT as int, FIRST_ARG_SLOT + ARG_REG_COUNT));
        r
    }
}

} // verus!
