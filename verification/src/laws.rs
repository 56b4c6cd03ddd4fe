//! What holds of every step, instruction by instruction.
use crate::instr::decode_spec;
use crate::instr::AluOp;
use crate::instr::Cond;
use crate::instr::Fault;
use crate::instr::Instr;
use crate::instr::Operand;
use crate::instr::REGISTERS;
use crate::interpreter::branch_target;
use crate::interpreter::run_spec;
use crate::interpreter::step_spec;
use crate::interpreter::Interpreter;
use crate::labels::label_index;
use crate::machine::alu;
use crate::machine::execute_spec;
use crate::machine::taken;
use crate::machine::Compare;
use crate::machine::MachineState;
use crate::text::lines_of;
use crate::text::word;
use crate::text::Span;
use vstd::prelude::*;

verus! {

/// A running machine in state `s` whose program counter stands on a line of
/// `program` that decodes to `instr`.
pub open spec fn stands_on(program: Seq<Seq<u8>>, s: MachineState, instr: Instr) -> bool {
    &&& s.wf()
    &&& s.running
    &&& s.line_num < program.len()
    &&& decode_spec(program[s.line_num as int]) == Ok::<Instr, Fault>(instr)
}

/// Every instruction that a line decodes to names only registers and memory
/// cells that the machine has.
pub proof fn lemma_decoded_is_wf(line: Seq<u8>)
    ensures
        decode_spec(line) matches Ok(instr) ==> instr.wf(),
{
    reveal(decode_spec);
}

/// A load sets the destination register to what the memory cell held, and
/// changes no other register and no memory cell.
pub proof fn lemma_load(
    program: Seq<Seq<u8>>,
    strict: bool,
    s: MachineState,
    rd: usize,
    addr: usize,
)
    requires
        stands_on(program, s, Instr::Ldr { rd, addr }),
    ensures
        ({
            let (after, r) = step_spec(program, strict, s);
            &&& r == Ok::<bool, Fault>(true)
            &&& after.reg.len() == s.reg.len()
            &&& after.reg[rd as int] == s.mem[addr as int]
            &&& forall|j: int| 0 <= j < s.reg.len() && j != rd ==> after.reg[j] == s.reg[j]
            &&& after.mem == s.mem
        }),
{
    lemma_decoded_is_wf(program[s.line_num as int]);
}

/// A store sets the memory cell to what the register holds, and changes
/// nothing else but the program counter, which moves to the next line.
pub proof fn lemma_store(
    program: Seq<Seq<u8>>,
    strict: bool,
    s: MachineState,
    rd: usize,
    addr: usize,
)
    requires
        stands_on(program, s, Instr::Str { rd, addr }),
    ensures
        ({
            let (after, r) = step_spec(program, strict, s);
            &&& r == Ok::<bool, Fault>(true)
            &&& after.mem.len() == s.mem.len()
            &&& after.mem[addr as int] == s.reg[rd as int]
            &&& forall|j: int| 0 <= j < s.mem.len() && j != addr ==> after.mem[j] == s.mem[j]
            &&& after.reg == s.reg
            &&& after.flag == s.flag
            &&& after.running
            &&& after.line_num == (s.line_num + 1) as usize
        }),
{
    lemma_decoded_is_wf(program[s.line_num as int]);
}

/// An arithmetic, bitwise or shift instruction does the same with an immediate
/// operand as with a register operand that holds the same value.
pub proof fn lemma_operand_forms_agree(
    s: MachineState,
    op: AluOp,
    rd: usize,
    rn: usize,
    k: usize,
    v: i32,
)
    requires
        s.wf(),
        rd < REGISTERS,
        rn < REGISTERS,
        k < REGISTERS,
        s.reg[k as int] == v,
    ensures
        execute_spec(s, Instr::Alu { op, rd, rn, src: Operand::Imm(v) }, None) == execute_spec(
            s,
            Instr::Alu { op, rd, rn, src: Operand::Reg(k) },
            None,
        ),
        execute_spec(s, Instr::Alu { op, rd, rn, src: Operand::Imm(v) }, None).0.reg[rd as int]
            == alu(op, s.reg[rn as int], v),
{
}

/// A comparison sets the flag to `LT`, `GT` or `EQ` as the register is less
/// than, greater than or equal to the operand's value, whichever form the
/// operand has, and changes no register and no memory cell.
pub proof fn lemma_compare(
    program: Seq<Seq<u8>>,
    strict: bool,
    s: MachineState,
    rn: usize,
    src: Operand,
)
    requires
        stands_on(program, s, Instr::Compare { rn, src }),
    ensures
        ({
            let (after, r) = step_spec(program, strict, s);
            let left = s.reg[rn as int];
            let right = s.operand_value(src);
            &&& r == Ok::<bool, Fault>(true)
            &&& left < right ==> after.flag == Compare::LT
            &&& left > right ==> after.flag == Compare::GT
            &&& left == right ==> after.flag == Compare::EQ
            &&& after.reg == s.reg
            &&& after.mem == s.mem
        }),
{
}

/// When a branch is taken: always for `B`; for `BEQ`, `BGT` and `BLT` exactly
/// under the flag `EQ`, `GT` and `LT`; for `BNE` exactly under `GT` or `LT`, so
/// neither under `EQ` nor before the first comparison.
pub proof fn lemma_taken(flag: Compare)
    ensures
        taken(Cond::Always, flag),
        taken(Cond::Eq, flag) <==> flag == Compare::EQ,
        taken(Cond::Gt, flag) <==> flag == Compare::GT,
        taken(Cond::Lt, flag) <==> flag == Compare::LT,
        taken(Cond::Ne, flag) <==> flag != Compare::EQ && flag != Compare::NONE,
{
}

/// `B` to a declared label sets the program counter to the label's entry in
/// the label index, whatever the flag, and changes nothing else.
pub proof fn lemma_unconditional_branch(
    program: Seq<Seq<u8>>,
    strict: bool,
    s: MachineState,
    label: Span,
)
    requires
        stands_on(program, s, Instr::Branch { cond: Cond::Always, label }),
        label_index(program).contains_key(word(program[s.line_num as int], label)),
    ensures
        step_spec(program, strict, s) == (
            MachineState {
                line_num: label_index(program)[word(program[s.line_num as int], label)],
                ..s
            },
            Ok::<bool, Fault>(true),
        ),
{
}

/// A taken branch to a declared label sets the program counter to the label's
/// entry in the label index and goes no further; a branch that is not taken
/// moves the program counter to the next line. Either way nothing else changes.
pub proof fn lemma_branch(
    program: Seq<Seq<u8>>,
    strict: bool,
    s: MachineState,
    cond: Cond,
    label: Span,
)
    requires
        stands_on(program, s, Instr::Branch { cond, label }),
        label_index(program).contains_key(word(program[s.line_num as int], label)),
    ensures
        step_spec(program, strict, s) == (
            MachineState {
                line_num: if taken(cond, s.flag) {
                    label_index(program)[word(program[s.line_num as int], label)]
                } else {
                    (s.line_num + 1) as usize
                },
                ..s
            },
            Ok::<bool, Fault>(true),
        ),
{
}

/// A taken branch to a label that the program does not declare is a fault.
pub proof fn lemma_branch_unknown_label(
    program: Seq<Seq<u8>>,
    strict: bool,
    s: MachineState,
    cond: Cond,
    label: Span,
)
    requires
        stands_on(program, s, Instr::Branch { cond, label }),
        taken(cond, s.flag),
        !label_index(program).contains_key(word(program[s.line_num as int], label)),
    ensures
        step_spec(program, strict, s) == s.fail(Fault::UnknownLabel),
{
}

/// A halt stops the machine and changes nothing else: no register, no memory
/// cell, not the flag and not the program counter.
pub proof fn lemma_halt(program: Seq<Seq<u8>>, strict: bool, s: MachineState)
    requires
        stands_on(program, s, Instr::Halt),
    ensures
        step_spec(program, strict, s) == (
            MachineState { running: false, ..s },
            Ok::<bool, Fault>(false),
        ),
{
}

/// Executing an instruction keeps the number of registers and memory cells.
pub proof fn lemma_execute_keeps_wf(s: MachineState, instr: Instr, target: Option<usize>)
    requires
        s.wf(),
        instr.wf(),
    ensures
        execute_spec(s, instr, target).0.wf(),
{
}

/// A step keeps the number of registers and memory cells.
pub proof fn lemma_step_keeps_wf(program: Seq<Seq<u8>>, strict: bool, s: MachineState)
    requires
        s.wf(),
    ensures
        step_spec(program, strict, s).0.wf(),
{
    if s.running && s.line_num < program.len() {
        let line = program[s.line_num as int];
        lemma_decoded_is_wf(line);
        match decode_spec(line) {
            Ok(instr) => {
                lemma_execute_keeps_wf(s, instr, branch_target(program, line, instr));
            },
            Err(_) => {},
        }
    }
}

/// A fault stops the machine and leaves everything else as it was.
pub proof fn lemma_fault_changes_nothing(program: Seq<Seq<u8>>, strict: bool, s: MachineState)
    requires
        step_spec(program, strict, s).1 is Err,
    ensures
        step_spec(program, strict, s).0 == (MachineState { running: false, ..s }),
{
}

/// A machine that is not running stays as it is.
pub proof fn lemma_stopped_stays(program: Seq<Seq<u8>>, strict: bool, s: MachineState)
    requires
        !s.running,
    ensures
        step_spec(program, strict, s) == (s, Ok::<bool, Fault>(false)),
{
}

/// A line whose first word is no mnemonic has no effect but to move the
/// program counter on, unless the interpreter is strict: then it is a fault.
pub proof fn lemma_unknown_mnemonic(program: Seq<Seq<u8>>, strict: bool, s: MachineState)
    requires
        stands_on(program, s, Instr::Unknown),
    ensures
        step_spec(program, strict, s) == (if strict {
            s.fail(Fault::UnknownMnemonic)
        } else {
            s.advance()
        }),
{
}

/// Two interpreters of the same mode, loaded from the same text and in the
/// same state, are in the same state after the same number of steps, and
/// report the same.
pub proof fn lemma_same_run(a: Interpreter, b: Interpreter, text: Seq<u8>, steps: nat)
    requires
        a.program() == lines_of(text),
        b.program() == lines_of(text),
        a.strict() == b.strict(),
        a.state() == b.state(),
    ensures
        run_spec(a.program(), a.strict(), a.state(), steps) == run_spec(
            b.program(),
            b.strict(),
            b.state(),
            steps,
        ),
{
}

} // verus!
