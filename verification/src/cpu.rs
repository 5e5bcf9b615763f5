//! Architectural state and the execution engine.
//!
//! The CPU owns 32 general-purpose word registers (register 0 always reads
//! as zero), the HI/LO accumulators, the program counter and the
//! delay-slot bookkeeping. Control transfers do not redirect the program
//! counter at once: they record a pending target, the instruction in the
//! delay slot still executes, and only then does the counter move.

use vstd::prelude::*;
use vstd::wrapping::u32_specs;

use crate::isa::Instr;
use crate::word::{as_signed, tdiv, to_u32, trem};
use crate::word;

verus! {

/// Why a register access failed.
#[derive(Clone, Copy, PartialEq, Eq, Structural, Debug)]
pub enum RegError {
    /// The register index is 32 or more.
    OutOfBounds,
    /// An attempt to write register 0, which is permanently zero.
    ZeroRegisterWrite,
}

/// Why one instruction failed to execute.
#[derive(Clone, Copy, PartialEq, Eq, Structural, Debug)]
pub enum ExecErrorKind {
    /// A register operand was 32 or more.
    OutOfBoundsRegister,
    /// The instruction tried to write register 0.
    ZeroRegisterWrite,
    /// Signed overflow on a trapping operation, or division by zero.
    ArithmeticError,
    /// A memory access that is not word-aligned.
    AlignmentError,
    /// The program counter, a transfer target or a memory address left the
    /// valid range.
    AddressError,
}

/// A fault surfaced by `step`: the index of the failing instruction and
/// the kind of failure. Once reported, the CPU is `Faulted` and no further
/// steps are taken.
#[derive(Clone, Copy, PartialEq, Eq, Structural, Debug)]
pub struct ExecutionError {
    pub index: usize,
    pub kind: ExecErrorKind,
}

/// The life-cycle state of the CPU.
#[derive(Clone, Copy, PartialEq, Eq, Structural, Debug)]
pub enum CpuState {
    /// Steps may be taken.
    Running,
    /// The program counter advanced past the last instruction with no
    /// transfer pending; terminal.
    Halted,
    /// An execution error occurred; terminal.
    Faulted,
}

/// The mathematical shape of the CPU state.
pub ghost struct CpuView {
    pub pc: int,
    pub hi: u32,
    pub lo: u32,
    pub regs: Seq<u32>,
    pub delay_slot_ready: bool,
    pub pending_target: int,
    pub state: CpuState,
}

/// The architectural state: program counter, HI/LO accumulators, the 32
/// general-purpose registers, and the delay-slot bookkeeping. A control
/// transfer sets `delay_slot_ready` and records its target in
/// `pending_target`; the target is applied after one more instruction.
pub struct CPU {
    pub pc: usize,
    pub hi: u32,
    pub lo: u32,
    pub reg: Vec<u32>,
    pub delay_slot_ready: bool,
    pub pending_target: i64,
    pub state: CpuState,
}

impl View for CPU {
    type V = CpuView;

    open spec fn view(&self) -> CpuView {
        CpuView {
            pc: self.pc as int,
            hi: self.hi,
            lo: self.lo,
            regs: self.reg@,
            delay_slot_ready: self.delay_slot_ready,
            pending_target: self.pending_target as int,
            state: self.state,
        }
    }
}

impl CPU {
    /// There are exactly 32 registers, register 0 holds zero, and the
    /// program counter has not left the 32-bit address space. Constructors
    /// establish this and every step preserves it.
    pub open spec fn wf(&self) -> bool {
        &&& self.reg@.len() == 32
        &&& self.reg@[0] == 0
        &&& self.pc <= 0xFFFF_FFFFusize
    }

    /// A fresh CPU: all registers zero, HI/LO zero, program counter at 0,
    /// no transfer pending, running.
    pub fn new() -> (c: CPU)
        ensures
            c.wf(),
            c@.pc == 0,
            c@.hi == 0,
            c@.lo == 0,
            c@.regs.len() == 32,
            forall|i: int| 0 <= i < 32 ==> c@.regs[i] == 0,
            !c@.delay_slot_ready,
            c@.pending_target == 0,
            c@.state == CpuState::Running,
    {
        let mut reg: Vec<u32> = Vec::new();
        let mut i: usize = 0;
        while i < 32
            invariant
                i <= 32,
                reg@.len() == i,
                forall|j: int| 0 <= j < i ==> reg@[j] == 0,
            decreases 32 - i,
        {
            reg.push(0);
            i = i + 1;
        }
        CPU {
            pc: 0,
            hi: 0,
            lo: 0,
            reg,
            delay_slot_ready: false,
            pending_target: 0,
            state: CpuState::Running,
        }
    }

    /// Read register `index`: its current value for a valid index, and
    /// `OutOfBounds` for an index of 32 or more.
    pub fn get_reg(&self, index: u32) -> (r: Result<u32, RegError>)
        requires
            self.wf(),
        ensures
            index < 32 ==> r == Ok::<u32, RegError>(self@.regs[index as int]),
            index >= 32 ==> r == Err::<u32, RegError>(RegError::OutOfBounds),
    {
        if index < 32 {
            Ok(self.reg[index as usize])
        } else {
            Err(RegError::OutOfBounds)
        }
    }

    /// Write `value` to register `index`. Succeeds exactly for indices 1
    /// to 31 and changes only that register; writing register 0 fails with
    /// `ZeroRegisterWrite`, an index of 32 or more with `OutOfBounds`, and
    /// a failed write leaves the CPU untouched.
    pub fn set_reg(&mut self, index: u32, value: u32) -> (r: Result<(), RegError>)
        requires
            old(self).wf(),
        ensures
            final(self).wf(),
            1 <= index < 32 ==> r == Ok::<(), RegError>(())
                && final(self)@ == (CpuView { regs: old(self)@.regs.update(index as int, value), ..old(self)@ }),
            index == 0 ==> r == Err::<(), RegError>(RegError::ZeroRegisterWrite) && *final(self) == *old(self),
            index >= 32 ==> r == Err::<(), RegError>(RegError::OutOfBounds) && *final(self) == *old(self),
    {
        if index < 32 {
            if index == 0 {
                return Err(RegError::ZeroRegisterWrite);
            }
            self.reg[index as usize] = value;
            Ok(())
        } else {
            Err(RegError::OutOfBounds)
        }
    }
}

/// A flat word-addressed store for `lw`/`sw`. Addresses are in bytes and
/// must be word-aligned; the backing array holds one word per four bytes.
pub struct Memory {
    pub words: Vec<u32>,
}

/// What a load from byte address `addr` yields: the word at `addr / 4`,
/// `AlignmentError` for a misaligned address, `AddressError` past the end.
pub open spec fn mem_read(m: Seq<u32>, addr: u32) -> Result<u32, ExecErrorKind> {
    if addr % 4 != 0 {
        Err(ExecErrorKind::AlignmentError)
    } else if addr / 4 >= m.len() {
        Err(ExecErrorKind::AddressError)
    } else {
        Ok(m[addr as int / 4])
    }
}

/// What a store to byte address `addr` yields: the store updated at
/// `addr / 4`, or the same errors as a load.
pub open spec fn mem_write(m: Seq<u32>, addr: u32, v: u32) -> Result<Seq<u32>, ExecErrorKind> {
    if addr % 4 != 0 {
        Err(ExecErrorKind::AlignmentError)
    } else if addr / 4 >= m.len() {
        Err(ExecErrorKind::AddressError)
    } else {
        Ok(m.update(addr as int / 4, v))
    }
}

impl View for Memory {
    type V = Seq<u32>;

    open spec fn view(&self) -> Seq<u32> {
        self.words@
    }
}

impl Memory {
    /// A zero-filled store of `n_words` words.
    pub fn new(n_words: usize) -> (m: Memory)
        ensures
            m@.len() == n_words,
            forall|i: int| 0 <= i < n_words ==> m@[i] == 0,
    {
        let mut words: Vec<u32> = Vec::new();
        let mut i: usize = 0;
        while i < n_words
            invariant
                i <= n_words,
                words@.len() == i,
                forall|j: int| 0 <= j < i ==> words@[j] == 0,
            decreases n_words - i,
        {
            words.push(0);
            i = i + 1;
        }
        Memory { words }
    }

    /// Load the word at byte address `addr`.
    pub fn read_word(&self, addr: u32) -> (r: Result<u32, ExecErrorKind>)
        ensures
            r == mem_read(self@, addr),
    {
        if addr % 4 != 0 {
            Err(ExecErrorKind::AlignmentError)
        } else {
            let idx = (addr / 4) as usize;
            if idx >= self.words.len() {
                Err(ExecErrorKind::AddressError)
            } else {
                Ok(self.words[idx])
            }
        }
    }

    /// Store `v` at byte address `addr`; the store is unchanged on error.
    pub fn write_word(&mut self, addr: u32, v: u32) -> (r: Result<(), ExecErrorKind>)
        ensures
            match mem_write(old(self)@, addr, v) {
                Ok(m2) => r == Ok::<(), ExecErrorKind>(()) && final(self)@ == m2,
                Err(k) => r == Err::<(), ExecErrorKind>(k) && final(self)@ == old(self)@,
            },
    {
        if addr % 4 != 0 {
            Err(ExecErrorKind::AlignmentError)
        } else {
            let idx = (addr / 4) as usize;
            if idx >= self.words.len() {
                Err(ExecErrorKind::AddressError)
            } else {
                self.words[idx] = v;
                Ok(())
            }
        }
    }
}

/// The value of register `r`, or `OutOfBoundsRegister`.
pub open spec fn spec_read(c: CpuView, r: u32) -> Result<u32, ExecErrorKind> {
    if r < 32 {
        Ok(c.regs[r as int])
    } else {
        Err(ExecErrorKind::OutOfBoundsRegister)
    }
}

/// The CPU after writing `v` to register `r`, or the error the write
/// raises: register 0 is immutable and 32 and above do not exist.
pub open spec fn spec_write(c: CpuView, r: u32, v: u32) -> Result<CpuView, ExecErrorKind> {
    if r >= 32 {
        Err(ExecErrorKind::OutOfBoundsRegister)
    } else if r == 0 {
        Err(ExecErrorKind::ZeroRegisterWrite)
    } else {
        Ok(CpuView { regs: c.regs.update(r as int, v), ..c })
    }
}

/// One instruction's whole effect: the CPU and memory afterwards, and the
/// error if it failed. On an error nothing is changed.
pub type Effect = (CpuView, Seq<u32>, Option<ExecErrorKind>);

/// Write `v` to register `rd` as an instruction's final act.
pub open spec fn eff_write(c: CpuView, m: Seq<u32>, rd: u32, v: u32) -> Effect {
    match spec_write(c, rd, v) {
        Ok(c2) => (c2, m, None),
        Err(k) => (c, m, Some(k)),
    }
}

/// Three-register form: read `a` then `b`, combine, write `rd`.
pub open spec fn eff_alu3(
    c: CpuView,
    m: Seq<u32>,
    rd: u32,
    a: u32,
    b: u32,
    f: spec_fn(u32, u32) -> u32,
) -> Effect {
    match spec_read(c, a) {
        Err(k) => (c, m, Some(k)),
        Ok(va) => match spec_read(c, b) {
            Err(k) => (c, m, Some(k)),
            Ok(vb) => eff_write(c, m, rd, f(va, vb)),
        },
    }
}

/// Immediate form: read `rs`, combine with the immediate, write `rt`.
pub open spec fn eff_imm(
    c: CpuView,
    m: Seq<u32>,
    rt: u32,
    rs: u32,
    immd: u32,
    f: spec_fn(u32, u32) -> u32,
) -> Effect {
    match spec_read(c, rs) {
        Err(k) => (c, m, Some(k)),
        Ok(v) => eff_write(c, m, rt, f(v, immd)),
    }
}

/// A taken control transfer: record the target and mark the delay slot;
/// the program counter itself does not move until one more instruction
/// has executed.
pub open spec fn eff_transfer(c: CpuView, m: Seq<u32>, target: int) -> Effect {
    (CpuView { delay_slot_ready: true, pending_target: target, ..c }, m, None)
}

/// Branch form: read the first operand `rt`, then `rs`; on a true
/// condition enter the delay-slot protocol with target `pc + 1 + rel`,
/// measured from the instruction after the branch; on a false condition
/// change nothing.
pub open spec fn eff_branch(
    c: CpuView,
    m: Seq<u32>,
    rt: u32,
    rs: u32,
    rel: i32,
    cond: spec_fn(u32, u32) -> bool,
) -> Effect {
    match spec_read(c, rt) {
        Err(k) => (c, m, Some(k)),
        Ok(v1) => match spec_read(c, rs) {
            Err(k) => (c, m, Some(k)),
            Ok(v2) => if cond(v1, v2) {
                eff_transfer(c, m, c.pc + 1 + rel)
            } else {
                (c, m, None)
            },
        },
    }
}

/// The semantics of every instruction, as a total function from CPU,
/// memory and instruction to the state afterwards. This is what
/// `CPU::execute` is proved against, clause by clause.
pub open spec fn instr_effect(c: CpuView, m: Seq<u32>, i: Instr) -> Effect {
    match i {
        // Trapping signed addition and subtraction
        Instr::Add { rd, rs, rt } => match spec_read(c, rs) {
            Err(k) => (c, m, Some(k)),
            Ok(va) => match spec_read(c, rt) {
                Err(k) => (c, m, Some(k)),
                Ok(vb) => if -0x8000_0000 <= as_signed(va) + as_signed(vb) <= 0x7FFF_FFFF {
                    eff_write(c, m, rd, to_u32(as_signed(va) + as_signed(vb)))
                } else {
                    (c, m, Some(ExecErrorKind::ArithmeticError))
                },
            },
        },
        Instr::Sub { rd, rs, rt } => match spec_read(c, rs) {
            Err(k) => (c, m, Some(k)),
            Ok(va) => match spec_read(c, rt) {
                Err(k) => (c, m, Some(k)),
                Ok(vb) => if -0x8000_0000 <= as_signed(va) - as_signed(vb) <= 0x7FFF_FFFF {
                    eff_write(c, m, rd, to_u32(as_signed(va) - as_signed(vb)))
                } else {
                    (c, m, Some(ExecErrorKind::ArithmeticError))
                },
            },
        },
        // Non-trapping arithmetic and logic
        Instr::Addu { rd, rs, rt } => eff_alu3(c, m, rd, rs, rt,
            |x: u32, y: u32| u32_specs::wrapping_add(x, y)),
        Instr::Subu { rd, rs, rt } => eff_alu3(c, m, rd, rs, rt,
            |x: u32, y: u32| u32_specs::wrapping_sub(x, y)),
        Instr::Mul { rd, rs, rt } => eff_alu3(c, m, rd, rs, rt,
            |x: u32, y: u32| u32_specs::wrapping_mul(x, y)),
        Instr::And { rd, rs, rt } => eff_alu3(c, m, rd, rs, rt, |x: u32, y: u32| x & y),
        Instr::Or { rd, rs, rt } => eff_alu3(c, m, rd, rs, rt, |x: u32, y: u32| x | y),
        Instr::Slt { rd, rs, rt } => eff_alu3(c, m, rd, rs, rt,
            |x: u32, y: u32| if as_signed(x) < as_signed(y) { 1u32 } else { 0u32 }),
        Instr::Addi { rt, rs, immd } => eff_imm(c, m, rt, rs, immd,
            |x: u32, y: u32| u32_specs::wrapping_add(x, y)),
        Instr::Addiu { rt, rs, immd } => eff_imm(c, m, rt, rs, immd,
            |x: u32, y: u32| u32_specs::wrapping_add(x, y)),
        Instr::Andi { rt, rs, immd } => eff_imm(c, m, rt, rs, immd, |x: u32, y: u32| x & y),
        Instr::Ori { rt, rs, immd } => eff_imm(c, m, rt, rs, immd, |x: u32, y: u32| x | y),
        Instr::Slti { rt, rs, immd } => eff_imm(c, m, rt, rs, immd,
            |x: u32, y: u32| if as_signed(x) < as_signed(y) { 1u32 } else { 0u32 }),
        Instr::Sltiu { rt, rs, immd } => eff_imm(c, m, rt, rs, immd,
            |x: u32, y: u32| if x < y { 1u32 } else { 0u32 }),
        // Shifts use the low five bits of the shift amount; the decoder
        // only produces amounts below 32.
        Instr::Sll { rd, rs, shamt } => match spec_read(c, rs) {
            Err(k) => (c, m, Some(k)),
            Ok(v) => eff_write(c, m, rd, v << (shamt % 32)),
        },
        Instr::Srl { rd, rs, shamt } => match spec_read(c, rs) {
            Err(k) => (c, m, Some(k)),
            Ok(v) => eff_write(c, m, rd, v >> (shamt % 32)),
        },
        // HI/LO producers and consumers
        Instr::Mult { rs, rt } => match spec_read(c, rs) {
            Err(k) => (c, m, Some(k)),
            Ok(va) => match spec_read(c, rt) {
                Err(k) => (c, m, Some(k)),
                Ok(vb) => (
                    CpuView {
                        hi: to_u32(as_signed(va) * as_signed(vb) / 0x1_0000_0000),
                        lo: to_u32(as_signed(va) * as_signed(vb)),
                        ..c
                    },
                    m,
                    None,
                ),
            },
        },
        Instr::Div { rs, rt } => match spec_read(c, rs) {
            Err(k) => (c, m, Some(k)),
            Ok(va) => match spec_read(c, rt) {
                Err(k) => (c, m, Some(k)),
                Ok(vb) => if vb == 0 {
                    (c, m, Some(ExecErrorKind::ArithmeticError))
                } else {
                    (
                        CpuView {
                            hi: to_u32(trem(as_signed(va), as_signed(vb))),
                            lo: to_u32(tdiv(as_signed(va), as_signed(vb))),
                            ..c
                        },
                        m,
                        None,
                    )
                },
            },
        },
        Instr::Mfhi { rd } => eff_write(c, m, rd, c.hi),
        Instr::Mflo { rd } => eff_write(c, m, rd, c.lo),
        // Data transfer
        Instr::Lw { rt, rs, immd } => match spec_read(c, rs) {
            Err(k) => (c, m, Some(k)),
            Ok(base) => match mem_read(m, u32_specs::wrapping_add(base, immd)) {
                Err(k) => (c, m, Some(k)),
                Ok(w) => eff_write(c, m, rt, w),
            },
        },
        Instr::Sw { rt, rs, immd } => match spec_read(c, rs) {
            Err(k) => (c, m, Some(k)),
            Ok(base) => match spec_read(c, rt) {
                Err(k) => (c, m, Some(k)),
                Ok(v) => match mem_write(m, u32_specs::wrapping_add(base, immd), v) {
                    Err(k) => (c, m, Some(k)),
                    Ok(m2) => (c, m2, None),
                },
            },
        },
        Instr::Lui { rt, immd } => eff_write(c, m, rt, immd << 16u32),
        Instr::La { rt, addr } => eff_write(c, m, rt, addr),
        Instr::Li { rt, immd } => eff_write(c, m, rt, immd),
        Instr::Move { rs, rt } => match spec_read(c, rt) {
            Err(k) => (c, m, Some(k)),
            Ok(v) => eff_write(c, m, rs, v),
        },
        // Conditional branches: signed comparisons of the two operands
        Instr::Beq { rt, rs, rel_addr } => eff_branch(c, m, rt, rs, rel_addr,
            |x: u32, y: u32| x == y),
        Instr::Bne { rt, rs, rel_addr } => eff_branch(c, m, rt, rs, rel_addr,
            |x: u32, y: u32| x != y),
        Instr::Bgt { rt, rs, rel_addr } => eff_branch(c, m, rt, rs, rel_addr,
            |x: u32, y: u32| as_signed(x) > as_signed(y)),
        Instr::Bge { rt, rs, rel_addr } => eff_branch(c, m, rt, rs, rel_addr,
            |x: u32, y: u32| as_signed(x) >= as_signed(y)),
        Instr::Blt { rt, rs, rel_addr } => eff_branch(c, m, rt, rs, rel_addr,
            |x: u32, y: u32| as_signed(x) < as_signed(y)),
        Instr::Ble { rt, rs, rel_addr } => eff_branch(c, m, rt, rs, rel_addr,
            |x: u32, y: u32| as_signed(x) <= as_signed(y)),
        // Unconditional transfers
        Instr::Jump { addr } => eff_transfer(c, m, addr as int),
        Instr::Jr { rd } => match spec_read(c, rd) {
            Err(k) => (c, m, Some(k)),
            Ok(v) => eff_transfer(c, m, v as int),
        },
        // `jal` links register 31 to the address two past itself: the
        // return point after the jump's own delay slot.
        Instr::Jal { addr } => match spec_write(c, 31, to_u32(c.pc + 2)) {
            Err(k) => (c, m, Some(k)),
            Ok(c2) => eff_transfer(c2, m, addr as int),
        },
    }
}

impl CPU {
    /// Read a register, reporting failure as an execution error kind.
    fn read_r(&self, r: u32) -> (out: Result<u32, ExecErrorKind>)
        requires
            self.wf(),
        ensures
            out == spec_read(self@, r),
    {
        match self.get_reg(r) {
            Ok(v) => Ok(v),
            Err(_) => Err(ExecErrorKind::OutOfBoundsRegister),
        }
    }

    /// Write a register, reporting failure as an execution error kind; on
    /// failure the CPU is unchanged.
    fn write_r(&mut self, r: u32, v: u32) -> (out: Result<(), ExecErrorKind>)
        requires
            old(self).wf(),
        ensures
            final(self).wf(),
            match spec_write(old(self)@, r, v) {
                Ok(c2) => out == Ok::<(), ExecErrorKind>(()) && final(self)@ == c2,
                Err(k) => out == Err::<(), ExecErrorKind>(k) && *final(self) == *old(self),
            },
    {
        match self.set_reg(r, v) {
            Ok(()) => Ok(()),
            Err(RegError::ZeroRegisterWrite) => Err(ExecErrorKind::ZeroRegisterWrite),
            Err(RegError::OutOfBounds) => Err(ExecErrorKind::OutOfBoundsRegister),
        }
    }

    /// Apply one instruction's semantics to the CPU and memory, exactly as
    /// `instr_effect` states them. The program counter is not advanced:
    /// control transfers only record their target and mark the delay slot.
    /// On an error the CPU and memory are unchanged.
    pub fn execute(&mut self, instr: &Instr, mem: &mut Memory) -> (r: Result<(), ExecErrorKind>)
        requires
            old(self).wf(),
        ensures
            final(self).wf(),
            ({
                let t = instr_effect(old(self)@, old(mem)@, *instr);
                &&& final(self)@ == t.0
                &&& final(mem)@ == t.1
                &&& match t.2 {
                    Some(k) => r == Err::<(), ExecErrorKind>(k),
                    None => r == Ok::<(), ExecErrorKind>(()),
                }
            }),
    {
        match *instr {
            Instr::Add { .. } | Instr::Sub { .. } | Instr::Addu { .. } | Instr::Subu { .. }
            | Instr::Mul { .. } | Instr::And { .. } | Instr::Or { .. } | Instr::Slt { .. } => {
                self.exec_alu3(instr, mem)
            }
            Instr::Addi { .. } | Instr::Addiu { .. } | Instr::Andi { .. } | Instr::Ori { .. }
            | Instr::Slti { .. } | Instr::Sltiu { .. } | Instr::Sll { .. } | Instr::Srl { .. }
            | Instr::Lui { .. } | Instr::La { .. } | Instr::Li { .. } => {
                self.exec_imm(instr, mem)
            }
            Instr::Mult { .. } | Instr::Div { .. } | Instr::Mfhi { .. } | Instr::Mflo { .. }
            | Instr::Move { .. } | Instr::Lw { .. } | Instr::Sw { .. } => {
                self.exec_hilo_mem(instr, mem)
            }
            Instr::Beq { .. } | Instr::Bne { .. } | Instr::Bgt { .. } | Instr::Bge { .. }
            | Instr::Blt { .. } | Instr::Ble { .. } | Instr::Jump { .. } | Instr::Jr { .. }
            | Instr::Jal { .. } => self.exec_ctrl(instr, mem),
        }
    }

    /// The three-register arithmetic and logical forms.
    fn exec_alu3(&mut self, instr: &Instr, mem: &mut Memory) -> (r: Result<(), ExecErrorKind>)
        requires
            old(self).wf(),
            instr is Add || instr is Sub || instr is Addu || instr is Subu || instr is Mul
                || instr is And || instr is Or || instr is Slt,
        ensures
            final(self).wf(),
            ({
                let t = instr_effect(old(self)@, old(mem)@, *instr);
                &&& final(self)@ == t.0
                &&& final(mem)@ == t.1
                &&& match t.2 {
                    Some(k) => r == Err::<(), ExecErrorKind>(k),
                    None => r == Ok::<(), ExecErrorKind>(()),
                }
            }),
    {
        match *instr {
            Instr::Add { rd, rs, rt } => {
                let va = match self.read_r(rs) { Ok(v) => v, Err(k) => return Err(k) };
                let vb = match self.read_r(rt) { Ok(v) => v, Err(k) => return Err(k) };
                match word::add_signed_checked(va, vb) {
                    Some(s) => self.write_r(rd, s),
                    None => Err(ExecErrorKind::ArithmeticError),
                }
            }
            Instr::Sub { rd, rs, rt } => {
                let va = match self.read_r(rs) { Ok(v) => v, Err(k) => return Err(k) };
                let vb = match self.read_r(rt) { Ok(v) => v, Err(k) => return Err(k) };
                match word::sub_signed_checked(va, vb) {
                    Some(s) => self.write_r(rd, s),
                    None => Err(ExecErrorKind::ArithmeticError),
                }
            }
            Instr::Addu { rd, rs, rt } => {
                let va = match self.read_r(rs) { Ok(v) => v, Err(k) => return Err(k) };
                let vb = match self.read_r(rt) { Ok(v) => v, Err(k) => return Err(k) };
                self.write_r(rd, va.wrapping_add(vb))
            }
            Instr::Subu { rd, rs, rt } => {
                let va = match self.read_r(rs) { Ok(v) => v, Err(k) => return Err(k) };
                let vb = match self.read_r(rt) { Ok(v) => v, Err(k) => return Err(k) };
                self.write_r(rd, va.wrapping_sub(vb))
            }
            Instr::Mul { rd, rs, rt } => {
                let va = match self.read_r(rs) { Ok(v) => v, Err(k) => return Err(k) };
                let vb = match self.read_r(rt) { Ok(v) => v, Err(k) => return Err(k) };
                self.write_r(rd, va.wrapping_mul(vb))
            }
            Instr::And { rd, rs, rt } => {
                let va = match self.read_r(rs) { Ok(v) => v, Err(k) => return Err(k) };
                let vb = match self.read_r(rt) { Ok(v) => v, Err(k) => return Err(k) };
                self.write_r(rd, va & vb)
            }
            Instr::Or { rd, rs, rt } => {
                let va = match self.read_r(rs) { Ok(v) => v, Err(k) => return Err(k) };
                let vb = match self.read_r(rt) { Ok(v) => v, Err(k) => return Err(k) };
                self.write_r(rd, va | vb)
            }
            Instr::Slt { rd, rs, rt } => {
                let va = match self.read_r(rs) { Ok(v) => v, Err(k) => return Err(k) };
                let vb = match self.read_r(rt) { Ok(v) => v, Err(k) => return Err(k) };
                self.write_r(rd, if word::signed_lt(va, vb) { 1 } else { 0 })
            }
            _ => Err(ExecErrorKind::ArithmeticError),
        }
    }

    /// The immediate, shift and load-constant forms.
    fn exec_imm(&mut self, instr: &Instr, mem: &mut Memory) -> (r: Result<(), ExecErrorKind>)
        requires
            old(self).wf(),
            instr is Addi || instr is Addiu || instr is Andi || instr is Ori || instr is Slti
                || instr is Sltiu || instr is Sll || instr is Srl || instr is Lui
                || instr is La || instr is Li,
        ensures
            final(self).wf(),
            ({
                let t = instr_effect(old(self)@, old(mem)@, *instr);
                &&& final(self)@ == t.0
                &&& final(mem)@ == t.1
                &&& match t.2 {
                    Some(k) => r == Err::<(), ExecErrorKind>(k),
                    None => r == Ok::<(), ExecErrorKind>(()),
                }
            }),
    {
        match *instr {
            Instr::Addi { rt, rs, immd } => {
                let v = match self.read_r(rs) { Ok(v) => v, Err(k) => return Err(k) };
                self.write_r(rt, v.wrapping_add(immd))
            }
            Instr::Addiu { rt, rs, immd } => {
                let v = match self.read_r(rs) { Ok(v) => v, Err(k) => return Err(k) };
                self.write_r(rt, v.wrapping_add(immd))
            }
            Instr::Andi { rt, rs, immd } => {
                let v = match self.read_r(rs) { Ok(v) => v, Err(k) => return Err(k) };
                self.write_r(rt, v & immd)
            }
            Instr::Ori { rt, rs, immd } => {
                let v = match self.read_r(rs) { Ok(v) => v, Err(k) => return Err(k) };
                self.write_r(rt, v | immd)
            }
            Instr::Slti { rt, rs, immd } => {
                let v = match self.read_r(rs) { Ok(v) => v, Err(k) => return Err(k) };
                self.write_r(rt, if word::signed_lt(v, immd) { 1 } else { 0 })
            }
            Instr::Sltiu { rt, rs, immd } => {
                let v = match self.read_r(rs) { Ok(v) => v, Err(k) => return Err(k) };
                self.write_r(rt, if v < immd { 1 } else { 0 })
            }
            Instr::Sll { rd, rs, shamt } => {
                let v = match self.read_r(rs) { Ok(v) => v, Err(k) => return Err(k) };
                self.write_r(rd, v << (shamt % 32))
            }
            Instr::Srl { rd, rs, shamt } => {
                let v = match self.read_r(rs) { Ok(v) => v, Err(k) => return Err(k) };
                self.write_r(rd, v >> (shamt % 32))
            }
            Instr::Lui { rt, immd } => {
                self.write_r(rt, immd << 16u32)
            }
            Instr::La { rt, addr } => {
                self.write_r(rt, addr)
            }
            Instr::Li { rt, immd } => {
                self.write_r(rt, immd)
            }
            _ => Err(ExecErrorKind::ArithmeticError),
        }
    }

    /// The HI/LO producers and consumers, register moves, and the two
    /// memory accesses.
    fn exec_hilo_mem(&mut self, instr: &Instr, mem: &mut Memory) -> (r: Result<(), ExecErrorKind>)
        requires
            old(self).wf(),
            instr is Mult || instr is Div || instr is Mfhi || instr is Mflo || instr is Move
                || instr is Lw || instr is Sw,
        ensures
            final(self).wf(),
            ({
                let t = instr_effect(old(self)@, old(mem)@, *instr);
                &&& final(self)@ == t.0
                &&& final(mem)@ == t.1
                &&& match t.2 {
                    Some(k) => r == Err::<(), ExecErrorKind>(k),
                    None => r == Ok::<(), ExecErrorKind>(()),
                }
            }),
    {
        match *instr {
            Instr::Mult { rs, rt } => {
                let va = match self.read_r(rs) { Ok(v) => v, Err(k) => return Err(k) };
                let vb = match self.read_r(rt) { Ok(v) => v, Err(k) => return Err(k) };
                let (hi, lo) = word::mult_parts(va, vb);
                self.hi = hi;
                self.lo = lo;
                Ok(())
            }
            Instr::Div { rs, rt } => {
                let va = match self.read_r(rs) { Ok(v) => v, Err(k) => return Err(k) };
                let vb = match self.read_r(rt) { Ok(v) => v, Err(k) => return Err(k) };
                if vb == 0 {
                    return Err(ExecErrorKind::ArithmeticError);
                }
                let (hi, lo) = word::div_parts(va, vb);
                self.hi = hi;
                self.lo = lo;
                Ok(())
            }
            Instr::Mfhi { rd } => {
                let v = self.hi;
                self.write_r(rd, v)
            }
            Instr::Mflo { rd } => {
                let v = self.lo;
                self.write_r(rd, v)
            }
            Instr::Lw { rt, rs, immd } => {
                let base = match self.read_r(rs) { Ok(v) => v, Err(k) => return Err(k) };
                let w = match mem.read_word(base.wrapping_add(immd)) {
                    Ok(w) => w,
                    Err(k) => return Err(k),
                };
                self.write_r(rt, w)
            }
            Instr::Sw { rt, rs, immd } => {
                let base = match self.read_r(rs) { Ok(v) => v, Err(k) => return Err(k) };
                let v = match self.read_r(rt) { Ok(v) => v, Err(k) => return Err(k) };
                mem.write_word(base.wrapping_add(immd), v)
            }
            Instr::Move { rs, rt } => {
                let v = match self.read_r(rt) { Ok(v) => v, Err(k) => return Err(k) };
                self.write_r(rs, v)
            }
            _ => Err(ExecErrorKind::ArithmeticError),
        }
    }

    /// The control transfers: branches, jumps, the register jump and the
    /// linking jump.
    fn exec_ctrl(&mut self, instr: &Instr, mem: &mut Memory) -> (r: Result<(), ExecErrorKind>)
        requires
            old(self).wf(),
            instr is Beq || instr is Bne || instr is Bgt || instr is Bge || instr is Blt
                || instr is Ble || instr is Jump || instr is Jr || instr is Jal,
        ensures
            final(self).wf(),
            ({
                let t = instr_effect(old(self)@, old(mem)@, *instr);
                &&& final(self)@ == t.0
                &&& final(mem)@ == t.1
                &&& match t.2 {
                    Some(k) => r == Err::<(), ExecErrorKind>(k),
                    None => r == Ok::<(), ExecErrorKind>(()),
                }
            }),
    {
        match *instr {
            Instr::Beq { rt, rs, rel_addr } => {
                let v1 = match self.read_r(rt) { Ok(v) => v, Err(k) => return Err(k) };
                let v2 = match self.read_r(rs) { Ok(v) => v, Err(k) => return Err(k) };
                if v1 == v2 {
                    self.take_branch(rel_addr);
                }
                Ok(())
            }
            Instr::Bne { rt, rs, rel_addr } => {
                let v1 = match self.read_r(rt) { Ok(v) => v, Err(k) => return Err(k) };
                let v2 = match self.read_r(rs) { Ok(v) => v, Err(k) => return Err(k) };
                if v1 != v2 {
                    self.take_branch(rel_addr);
                }
                Ok(())
            }
            Instr::Bgt { rt, rs, rel_addr } => {
                let v1 = match self.read_r(rt) { Ok(v) => v, Err(k) => return Err(k) };
                let v2 = match self.read_r(rs) { Ok(v) => v, Err(k) => return Err(k) };
                if word::signed_lt(v2, v1) {
                    self.take_branch(rel_addr);
                }
                Ok(())
            }
            Instr::Bge { rt, rs, rel_addr } => {
                let v1 = match self.read_r(rt) { Ok(v) => v, Err(k) => return Err(k) };
                let v2 = match self.read_r(rs) { Ok(v) => v, Err(k) => return Err(k) };
                if !word::signed_lt(v1, v2) {
                    self.take_branch(rel_addr);
                }
                Ok(())
            }
            Instr::Blt { rt, rs, rel_addr } => {
                let v1 = match self.read_r(rt) { Ok(v) => v, Err(k) => return Err(k) };
                let v2 = match self.read_r(rs) { Ok(v) => v, Err(k) => return Err(k) };
                if word::signed_lt(v1, v2) {
                    self.take_branch(rel_addr);
                }
                Ok(())
            }
            Instr::Ble { rt, rs, rel_addr } => {
                let v1 = match self.read_r(rt) { Ok(v) => v, Err(k) => return Err(k) };
                let v2 = match self.read_r(rs) { Ok(v) => v, Err(k) => return Err(k) };
                if !word::signed_lt(v2, v1) {
                    self.take_branch(rel_addr);
                }
                Ok(())
            }
            Instr::Jump { addr } => {
                self.delay_slot_ready = true;
                self.pending_target = addr as i64;
                Ok(())
            }
            Instr::Jr { rd } => {
                let v = match self.read_r(rd) { Ok(v) => v, Err(k) => return Err(k) };
                self.delay_slot_ready = true;
                self.pending_target = v as i64;
                Ok(())
            }
            Instr::Jal { addr } => {
                let link = word::word_of(self.pc as i64 + 2);
                match self.write_r(31, link) {
                    Ok(()) => {}
                    Err(k) => return Err(k),
                }
                self.delay_slot_ready = true;
                self.pending_target = addr as i64;
                Ok(())
            }
            _ => Err(ExecErrorKind::ArithmeticError),
        }
    }

    /// Record a taken branch: the target is `pc + 1 + rel`, measured from
    /// the instruction after the branch, and the delay slot is marked.
    fn take_branch(&mut self, rel: i32)
        requires
            old(self).wf(),
        ensures
            final(self)@ == (CpuView {
                delay_slot_ready: true,
                pending_target: old(self)@.pc + 1 + rel,
                ..old(self)@
            }),
            final(self).wf(),
    {
        self.pending_target = self.pc as i64 + 1 + rel as i64;
        self.delay_slot_ready = true;
    }
}

/// One fetch-decode-execute cycle over the resolved program.
///
/// With the program counter past the end: halt if no transfer is pending,
/// else fault with `AddressError` (a control transfer whose delay slot
/// does not exist). Otherwise the instruction at the counter executes with
/// the delay-slot mark cleared; an execution error faults the CPU at that
/// index with nothing else changed. After a successful instruction, a
/// transfer that was pending before the cycle is applied: its target must
/// be a valid instruction index, else the CPU faults with `AddressError`.
/// With no transfer pending the counter advances by one, and the CPU
/// halts when that moves it past the end with no new transfer pending.
pub open spec fn step_effect(c: CpuView, m: Seq<u32>, prog: Seq<Instr>) -> (CpuView, Seq<
    u32,
>, Option<ExecutionError>) {
    if c.pc >= prog.len() {
        if c.delay_slot_ready {
            (
                CpuView { state: CpuState::Faulted, ..c },
                m,
                Some(ExecutionError { index: c.pc as usize, kind: ExecErrorKind::AddressError }),
            )
        } else {
            (CpuView { state: CpuState::Halted, ..c }, m, None)
        }
    } else {
        let c0 = CpuView { delay_slot_ready: false, ..c };
        let (c1, m1, e) = instr_effect(c0, m, prog[c.pc]);
        match e {
            Some(k) => (
                CpuView { state: CpuState::Faulted, ..c1 },
                m1,
                Some(ExecutionError { index: c.pc as usize, kind: k }),
            ),
            None => if c.delay_slot_ready {
                if 0 <= c.pending_target < prog.len() {
                    (CpuView { pc: c.pending_target, ..c1 }, m1, None)
                } else {
                    (
                        CpuView { state: CpuState::Faulted, ..c1 },
                        m1,
                        Some(
                            ExecutionError {
                                index: c.pc as usize,
                                kind: ExecErrorKind::AddressError,
                            },
                        ),
                    )
                }
            } else {
                let c2 = CpuView { pc: c.pc + 1, ..c1 };
                if c2.pc >= prog.len() && !c2.delay_slot_ready {
                    (CpuView { state: CpuState::Halted, ..c2 }, m1, None)
                } else {
                    (c2, m1, None)
                }
            },
        }
    }
}

/// The CPU, memory and first fault after at most `fuel` cycles; stepping
/// stops early once the CPU is no longer running.
pub open spec fn run_effect(c: CpuView, m: Seq<u32>, prog: Seq<Instr>, fuel: nat) -> (CpuView, Seq<
    u32,
>, Option<ExecutionError>)
    decreases fuel,
{
    if c.state != CpuState::Running || fuel == 0 {
        (c, m, None)
    } else {
        let (c1, m1, e) = step_effect(c, m, prog);
        if e is Some {
            (c1, m1, e)
        } else {
            run_effect(c1, m1, prog, (fuel - 1) as nat)
        }
    }
}

impl CPU {
    /// Run one fetch-decode-execute cycle, exactly as `step_effect`
    /// states it. A fault is returned with the failing instruction's
    /// index and kind, and leaves the CPU `Faulted`, which is terminal.
    pub fn step(&mut self, prog: &Vec<Instr>, mem: &mut Memory) -> (r: Result<(), ExecutionError>)
        requires
            old(self).wf(),
            old(self)@.state == CpuState::Running,
            prog@.len() <= 0xFFFF_FFFF,
        ensures
            final(self).wf(),
            ({
                let t = step_effect(old(self)@, old(mem)@, prog@);
                &&& final(self)@ == t.0
                &&& final(mem)@ == t.1
                &&& match t.2 {
                    Some(e) => r == Err::<(), ExecutionError>(e),
                    None => r == Ok::<(), ExecutionError>(()),
                }
            }),
    {
        if self.pc >= prog.len() {
            if self.delay_slot_ready {
                self.state = CpuState::Faulted;
                return Err(ExecutionError { index: self.pc, kind: ExecErrorKind::AddressError });
            } else {
                self.state = CpuState::Halted;
                return Ok(());
            }
        }
        let was_pending = self.delay_slot_ready;
        let target = self.pending_target;
        let idx = self.pc;
        self.delay_slot_ready = false;
        let instr = prog[idx];
        match self.execute(&instr, mem) {
            Ok(()) => {}
            Err(k) => {
                self.state = CpuState::Faulted;
                return Err(ExecutionError { index: idx, kind: k });
            }
        }
        if was_pending {
            if target >= 0 && target < prog.len() as i64 {
                self.pc = target as usize;
            } else {
                self.state = CpuState::Faulted;
                return Err(ExecutionError { index: idx, kind: ExecErrorKind::AddressError });
            }
        } else {
            self.pc = idx + 1;
        }
        if self.pc >= prog.len() && !self.delay_slot_ready {
            self.state = CpuState::Halted;
        }
        Ok(())
    }

    /// Step until the CPU halts or faults, or `max_steps` cycles have
    /// run, exactly as `run_effect` states it: `Ok(true)` means halted,
    /// `Ok(false)` means the step budget ran out with the CPU still
    /// running, and a fault is returned as the error it was reported
    /// with.
    pub fn run(&mut self, prog: &Vec<Instr>, mem: &mut Memory, max_steps: usize) -> (r: Result<
        bool,
        ExecutionError,
    >)
        requires
            old(self).wf(),
            prog@.len() <= 0xFFFF_FFFF,
        ensures
            final(self).wf(),
            ({
                let t = run_effect(old(self)@, old(mem)@, prog@, max_steps as nat);
                &&& final(self)@ == t.0
                &&& final(mem)@ == t.1
                &&& match t.2 {
                    Some(e) => r == Err::<bool, ExecutionError>(e),
                    None => r == Ok::<bool, ExecutionError>(
                        t.0.state == CpuState::Halted,
                    ),
                }
            }),
    {
        let ghost init_c = self@;
        let ghost init_m = mem@;
        let mut steps: usize = 0;
        while steps < max_steps && self.state == CpuState::Running
            invariant
                steps <= max_steps,
                self.wf(),
                prog@.len() <= 0xFFFF_FFFF,
                init_c == old(self)@,
                init_m == old(mem)@,
                run_effect(init_c, init_m, prog@, max_steps as nat) == run_effect(
                    self@,
                    mem@,
                    prog@,
                    (max_steps - steps) as nat,
                ),
            decreases max_steps - steps,
        {
            let ghost pre_c = self@;
            let ghost pre_m = mem@;
            match self.step(prog, mem) {
                Ok(()) => {
                    steps = steps + 1;
                }
                Err(e) => {
                    proof {
                        assert(step_effect(pre_c, pre_m, prog@) == (self@, mem@, Some(e)));
                        assert(run_effect(pre_c, pre_m, prog@, (max_steps - steps) as nat) == (
                            self@,
                            mem@,
                            Some(e),
                        ));
                    }
                    return Err(e);
                }
            }
        }
        Ok(self.state == CpuState::Halted)
    }
}

/// The operand fields of the six conditional branches: first operand,
/// second operand, and relative target.
pub open spec fn branch_fields(i: Instr) -> Option<(u32, u32, i32)> {
    match i {
        Instr::Beq { rt, rs, rel_addr } => Some((rt, rs, rel_addr)),
        Instr::Bne { rt, rs, rel_addr } => Some((rt, rs, rel_addr)),
        Instr::Bgt { rt, rs, rel_addr } => Some((rt, rs, rel_addr)),
        Instr::Bge { rt, rs, rel_addr } => Some((rt, rs, rel_addr)),
        Instr::Blt { rt, rs, rel_addr } => Some((rt, rs, rel_addr)),
        Instr::Ble { rt, rs, rel_addr } => Some((rt, rs, rel_addr)),
        _ => None,
    }
}

/// Whether a conditional branch is taken when its first operand register
/// holds `v1` and its second holds `v2`; the orderings are signed.
pub open spec fn branch_taken(i: Instr, v1: u32, v2: u32) -> bool {
    match i {
        Instr::Beq { .. } => v1 == v2,
        Instr::Bne { .. } => v1 != v2,
        Instr::Bgt { .. } => as_signed(v1) > as_signed(v2),
        Instr::Bge { .. } => as_signed(v1) >= as_signed(v2),
        Instr::Blt { .. } => as_signed(v1) < as_signed(v2),
        Instr::Ble { .. } => as_signed(v1) <= as_signed(v2),
        _ => false,
    }
}

/// A branch whose condition is false never marks the delay slot: no
/// pending transfer is recorded and the instruction after the branch
/// follows in ordinary sequential order, with registers, HI/LO and memory
/// untouched.
pub proof fn lemma_branch_not_taken(
    c: CpuView,
    m: Seq<u32>,
    prog: Seq<Instr>,
    rt: u32,
    rs: u32,
    rel: i32,
)
    requires
        c.state == CpuState::Running,
        !c.delay_slot_ready,
        0 <= c.pc < prog.len(),
        branch_fields(prog[c.pc]) == Some((rt, rs, rel)),
        rt < 32,
        rs < 32,
        c.regs.len() == 32,
        !branch_taken(prog[c.pc], c.regs[rt as int], c.regs[rs as int]),
    ensures
        ({
            let (c2, m2, e) = step_effect(c, m, prog);
            &&& e is None
            &&& m2 == m
            &&& !c2.delay_slot_ready
            &&& c2.pending_target == c.pending_target
            &&& c2.pc == c.pc + 1
            &&& c2.regs == c.regs
            &&& c2.hi == c.hi
            &&& c2.lo == c.lo
            &&& c2.state == (if c.pc + 1 < prog.len() {
                CpuState::Running
            } else {
                CpuState::Halted
            })
        }),
{
}

/// Division by zero: the step faults with `ArithmeticError` at the `div`
/// instruction's own index, the CPU transitions to the terminal `Faulted`
/// state, and HI, LO, the registers, the program counter and memory are
/// all unchanged.
pub proof fn lemma_div_by_zero(c: CpuView, m: Seq<u32>, prog: Seq<Instr>, rs: u32, rt: u32)
    requires
        c.state == CpuState::Running,
        0 <= c.pc < prog.len(),
        prog[c.pc] == (Instr::Div { rs, rt }),
        rs < 32,
        rt < 32,
        c.regs.len() == 32,
        c.regs[rt as int] == 0,
    ensures
        ({
            let (c2, m2, e) = step_effect(c, m, prog);
            &&& e == Some(
                ExecutionError { index: c.pc as usize, kind: ExecErrorKind::ArithmeticError },
            )
            &&& c2.state == CpuState::Faulted
            &&& c2.hi == c.hi
            &&& c2.lo == c.lo
            &&& c2.regs == c.regs
            &&& c2.pc == c.pc
            &&& m2 == m
        }),
{
}

/// Register-zero immutability, stated over the register model that
/// `set_reg`, `get_reg` and the execution engine are specified with:
/// writing any register from 1 to 31 succeeds and a later read of it
/// returns the written value with register 0 still zero; a write of
/// register 0 is refused with `ZeroRegisterWrite`, and a read of register
/// 0 returns zero.
pub proof fn lemma_reg_write_read(c: CpuView, i: u32, v: u32)
    requires
        c.regs.len() == 32,
        c.regs[0] == 0,
    ensures
        1 <= i < 32 ==> (spec_write(c, i, v) matches Ok(c2) && spec_read(c2, i) == Ok::<
            u32,
            ExecErrorKind,
        >(v) && c2.regs[0] == 0),
        spec_write(c, 0, v) == Err::<CpuView, ExecErrorKind>(ExecErrorKind::ZeroRegisterWrite),
        spec_read(c, 0) == Ok::<u32, ExecErrorKind>(0),
{
}

} // verus!
