//! The machine's state, and what one instruction does to it.
use crate::instr::AluOp;
use crate::instr::Cond;
use crate::instr::Fault;
use crate::instr::Instr;
use crate::instr::Operand;
use crate::instr::MEMORY_CELLS;
use crate::instr::REGISTERS;
use vstd::prelude::*;

verus! {

/// The comparison flag: how the two operands of the last `CMP` compared, or
/// `NONE` before the first.
#[derive(Clone, Copy, PartialEq, Eq, Debug, Structural)]
pub enum Compare {
    EQ,
    GT,
    LT,
    NONE,
}

/// The state of a machine as a mathematical value.
pub struct MachineState {
    /// The sixteen registers.
    pub reg: Seq<i32>,
    /// The 256 memory cells.
    pub mem: Seq<i32>,
    /// The comparison flag.
    pub flag: Compare,
    /// The program counter: the number of the line to execute next.
    pub line_num: usize,
    /// Whether the machine has neither halted nor stopped on a fault.
    pub running: bool,
}

/// What one step leaves behind: the new state, and either whether the machine
/// is still running or the fault that stopped it.
pub type Outcome = (MachineState, Result<bool, Fault>);

impl MachineState {
    /// The state has as many registers and memory cells as the machine.
    pub open spec fn wf(self) -> bool {
        self.reg.len() == REGISTERS && self.mem.len() == MEMORY_CELLS
    }

    /// The state of a new machine: every register and cell zero, the flag not
    /// set, the program counter on the first line, running.
    pub open spec fn initial() -> MachineState {
        MachineState {
            reg: Seq::new(REGISTERS as nat, |i: int| 0i32),
            mem: Seq::new(MEMORY_CELLS as nat, |i: int| 0i32),
            flag: Compare::NONE,
            line_num: 0,
            running: true,
        }
    }

    /// The value of a source operand.
    pub open spec fn operand_value(self, src: Operand) -> i32 {
        match src {
            Operand::Imm(v) => v,
            Operand::Reg(r) => self.reg[r as int],
        }
    }

    /// The state with register `rd` set to `v`.
    pub open spec fn with_reg(self, rd: usize, v: i32) -> MachineState {
        MachineState { reg: self.reg.update(rd as int, v), ..self }
    }

    /// The state with memory cell `addr` set to `v`.
    pub open spec fn with_mem(self, addr: usize, v: i32) -> MachineState {
        MachineState { mem: self.mem.update(addr as int, v), ..self }
    }

    /// The outcome of an instruction that falls through to the next line.
    pub open spec fn advance(self) -> Outcome {
        (MachineState { line_num: (self.line_num + 1) as usize, ..self }, Ok(true))
    }

    /// The outcome of a fault: the machine stops, and nothing else changes.
    pub open spec fn fail(self, fault: Fault) -> Outcome {
        (MachineState { running: false, ..self }, Err(fault))
    }
}

/// The result of an arithmetic, bitwise or shift operation on two 32-bit
/// values. Sums and differences wrap around. A shift moves by the low five
/// bits of `b`; a right shift keeps the sign.
pub open spec fn alu(op: AluOp, a: i32, b: i32) -> i32 {
    match op {
        AluOp::Add => a.wrapping_add(b),
        AluOp::Sub => a.wrapping_sub(b),
        AluOp::And => a & b,
        AluOp::Orr => a | b,
        AluOp::Eor => a ^ b,
        AluOp::Lsl => a.wrapping_shl(#[verifier::truncate] (b as u32)),
        AluOp::Lsr => a.wrapping_shr(#[verifier::truncate] (b as u32)),
    }
}

/// A shift moves by the low five bits of the operand, whatever its sign.
pub proof fn lemma_shift_amount(a: i32, b: i32)
    ensures
        0 <= b & 31 < 32,
        alu(AluOp::Lsl, a, b) == a << (b & 31),
        alu(AluOp::Lsr, a, b) == a >> (b & 31),
{
    let amount: u32 = #[verifier::truncate] (b as u32);
    assert(0 <= b & 31 < 32) by (bit_vector);
    assert(amount % 32 == b & 31) by (bit_vector)
        requires
            amount == #[verifier::truncate] (b as u32),
    ;
}

/// The bitwise complement of a 32-bit value.
pub open spec fn complement(v: i32) -> i32 {
    !v
}

/// The complement of `v` is `-1 - v`.
pub proof fn lemma_complement(v: i32)
    ensures
        complement(v) == -1 - v,
{
    assert(!v == -1 - v) by (bit_vector);
}

/// How `a` compares with `b`.
pub open spec fn compare(a: i32, b: i32) -> Compare {
    if a < b {
        Compare::LT
    } else if a > b {
        Compare::GT
    } else {
        Compare::EQ
    }
}

/// Whether a branch on `cond` is taken under `flag`.
pub open spec fn taken(cond: Cond, flag: Compare) -> bool {
    match cond {
        Cond::Always => true,
        Cond::Eq => flag == Compare::EQ,
        Cond::Ne => flag == Compare::GT || flag == Compare::LT,
        Cond::Gt => flag == Compare::GT,
        Cond::Lt => flag == Compare::LT,
    }
}

/// What executing `instr` in state `s` gives. `target` is the line that the
/// label of a branch stands for, `None` where the program does not declare it.
pub open spec fn execute_spec(s: MachineState, instr: Instr, target: Option<usize>) -> Outcome {
    match instr {
        Instr::Label => s.advance(),
        Instr::Blank => s.advance(),
        Instr::Unknown => s.advance(),
        Instr::Ldr { rd, addr } => s.with_reg(rd, s.mem[addr as int]).advance(),
        Instr::Str { rd, addr } => s.with_mem(addr, s.reg[rd as int]).advance(),
        Instr::Alu { op, rd, rn, src } => s.with_reg(
            rd,
            alu(op, s.reg[rn as int], s.operand_value(src)),
        ).advance(),
        Instr::Mov { rd, src } => s.with_reg(rd, s.operand_value(src)).advance(),
        Instr::Mvn { rd, src } => s.with_reg(rd, complement(s.operand_value(src))).advance(),
        Instr::Compare { rn, src } => MachineState {
            flag: compare(s.reg[rn as int], s.operand_value(src)),
            ..s
        }.advance(),
        Instr::Branch { cond, label } => if taken(cond, s.flag) {
            match target {
                Some(line) => (MachineState { line_num: line, ..s }, Ok(true)),
                None => s.fail(Fault::UnknownLabel),
            }
        } else {
            s.advance()
        },
        Instr::Halt => (MachineState { running: false, ..s }, Ok(false)),
    }
}

/// Computes `alu`.
pub fn compute(op: AluOp, a: i32, b: i32) -> (r: i32)
    ensures
        r == alu(op, a, b),
{
    match op {
        AluOp::Add => a.wrapping_add(b),
        AluOp::Sub => a.wrapping_sub(b),
        AluOp::And => a & b,
        AluOp::Orr => a | b,
        AluOp::Eor => a ^ b,
        AluOp::Lsl => a.wrapping_shl(#[verifier::truncate] (b as u32)),
        AluOp::Lsr => a.wrapping_shr(#[verifier::truncate] (b as u32)),
    }
}

/// Decides whether a branch on `cond` is taken under `flag`.
pub fn branch_taken(cond: Cond, flag: Compare) -> (r: bool)
    ensures
        r == taken(cond, flag),
{
    match cond {
        Cond::Always => true,
        Cond::Eq => flag == Compare::EQ,
        Cond::Ne => flag == Compare::GT || flag == Compare::LT,
        Cond::Gt => flag == Compare::GT,
        Cond::Lt => flag == Compare::LT,
    }
}

/// The registers, the memory, the comparison flag, the program counter and the
/// running flag of one machine.
pub struct Machine {
    reg: [i32; 16],
    mem: [i32; 256],
    flag: Compare,
    line_num: usize,
    running: bool,
}

impl View for Machine {
    type V = MachineState;

    closed spec fn view(&self) -> MachineState {
        MachineState {
            reg: self.reg@,
            mem: self.mem@,
            flag: self.flag,
            line_num: self.line_num,
            running: self.running,
        }
    }
}

impl Machine {
    /// A machine in its initial state.
    pub fn new() -> (m: Machine)
        ensures
            m@ == MachineState::initial(),
    {
        let m = Machine {
            reg: [0i32; 16],
            mem: [0i32; 256],
            flag: Compare::NONE,
            line_num: 0,
            running: true,
        };
        assert(m.reg@ =~= MachineState::initial().reg);
        assert(m.mem@ =~= MachineState::initial().mem);
        m
    }

    /// Every machine has sixteen registers and 256 memory cells.
    pub proof fn lemma_wf(&self)
        ensures
            self@.wf(),
    {
    }

    /// What register `r` holds.
    pub fn reg(&self, r: usize) -> (v: i32)
        requires
            r < REGISTERS,
        ensures
            v == self@.reg[r as int],
    {
        self.reg[r]
    }

    /// What memory cell `addr` holds.
    pub fn mem(&self, addr: usize) -> (v: i32)
        requires
            addr < MEMORY_CELLS,
        ensures
            v == self@.mem[addr as int],
    {
        self.mem[addr]
    }

    /// The comparison flag.
    pub fn flag(&self) -> (f: Compare)
        ensures
            f == self@.flag,
    {
        self.flag
    }

    /// The program counter.
    pub fn line_num(&self) -> (n: usize)
        ensures
            n == self@.line_num,
    {
        self.line_num
    }

    /// Whether the machine is still running.
    pub fn running(&self) -> (b: bool)
        ensures
            b == self@.running,
    {
        self.running
    }

    /// Sets register `r` to `v`.
    pub fn set_reg(&mut self, r: usize, v: i32)
        requires
            r < REGISTERS,
        ensures
            final(self)@ == old(self)@.with_reg(r, v),
            final(self)@.wf(),
    {
        self.reg[r] = v;
    }

    /// Sets memory cell `addr` to `v`.
    pub fn set_mem(&mut self, addr: usize, v: i32)
        requires
            addr < MEMORY_CELLS,
        ensures
            final(self)@ == old(self)@.with_mem(addr, v),
            final(self)@.wf(),
    {
        self.mem[addr] = v;
    }

    /// Stops the machine on a fault and hands the fault back.
    pub fn fail(&mut self, fault: Fault) -> (r: Result<bool, Fault>)
        ensures
            (final(self)@, r) == old(self)@.fail(fault),
            final(self)@.wf(),
    {
        self.running = false;
        Err(fault)
    }

    /// The value of a source operand.
    pub fn operand_value(&self, src: Operand) -> (v: i32)
        requires
            src.wf(),
        ensures
            v == self@.operand_value(src),
    {
        match src {
            Operand::Imm(v) => v,
            Operand::Reg(r) => self.reg[r],
        }
    }

    /// Executes one decoded instruction. `target` is the line that the label of
    /// a branch stands for, `None` where the program does not declare it.
    pub fn execute(&mut self, instr: Instr, target: Option<usize>) -> (r: Result<bool, Fault>)
        requires
            instr.wf(),
            old(self)@.line_num < usize::MAX,
        ensures
            (final(self)@, r) == execute_spec(old(self)@, instr, target),
            final(self)@.wf(),
    {
        match instr {
            Instr::Label => {},
            Instr::Blank => {},
            Instr::Unknown => {},
            Instr::Ldr { rd, addr } => {
                let v = self.mem(addr);
                self.set_reg(rd, v);
            },
            Instr::Str { rd, addr } => {
                let v = self.reg(rd);
                self.set_mem(addr, v);
            },
            Instr::Alu { op, rd, rn, src } => {
                let v = compute(op, self.reg(rn), self.operand_value(src));
                self.set_reg(rd, v);
            },
            Instr::Mov { rd, src } => {
                let v = self.operand_value(src);
                self.set_reg(rd, v);
            },
            Instr::Mvn { rd, src } => {
                let v = !self.operand_value(src);
                self.set_reg(rd, v);
            },
            Instr::Compare { rn, src } => {
                let a = self.reg(rn);
                let b = self.operand_value(src);
                self.flag = if a < b {
                    Compare::LT
                } else if a > b {
                    Compare::GT
                } else {
                    Compare::EQ
                };
            },
            Instr::Branch { cond, label } => {
                if branch_taken(cond, self.flag) {
                    match target {
                        Some(line) => {
                            self.line_num = line;
                            return Ok(true);
                        },
                        None => {
                            return self.fail(Fault::UnknownLabel);
                        },
                    }
                }
            },
            Instr::Halt => {
                self.running = false;
                return Ok(false);
            },
        }
        self.line_num = self.line_num + 1;
        Ok(true)
    }
}

} // verus!
