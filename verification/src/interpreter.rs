//! The interpreter: a program, its label index and a machine, stepped one line at a time.
use crate::instr::decode;
use crate::instr::decode_spec;
use crate::instr::Fault;
use crate::instr::Instr;
use crate::instr::MEMORY_CELLS;
use crate::instr::REGISTERS;
use crate::labels::label_index;
use crate::labels::LabelIndex;
use crate::machine::execute_spec;
use crate::machine::Compare;
use crate::machine::Machine;
use crate::machine::MachineState;
use crate::machine::Outcome;
use crate::text::lines_of;
use crate::text::lines_view;
use crate::text::split_lines;
use crate::text::word;
use vstd::prelude::*;
use vstd::slice::slice_subrange;
use vstd::utf8::encode_utf8;

verus! {

/// The line that a branch instruction found on `line` goes to when it is
/// taken: the entry of the program's label index for the instruction's label.
/// `None` where there is no such entry, and for every other instruction.
pub open spec fn branch_target(program: Seq<Seq<u8>>, line: Seq<u8>, instr: Instr) -> Option<
    usize,
> {
    match instr {
        Instr::Branch { cond, label } => {
            let index = label_index(program);
            let name = word(line, label);
            if index.contains_key(name) {
                Some(index[name])
            } else {
                None
            }
        },
        _ => None,
    }
}

/// One step of the machine on a program.
///
/// A machine that is not running stays as it is. A program counter past the
/// last line is a fault, and so is a line that does not decode. A line whose
/// first word is no mnemonic is a fault where `strict` is set, and has no effect
/// where it is not. Otherwise the line's instruction is executed. A fault stops
/// the machine and changes nothing else.
pub open spec fn step_spec(program: Seq<Seq<u8>>, strict: bool, s: MachineState) -> Outcome {
    if !s.running {
        (s, Ok(false))
    } else if s.line_num >= program.len() {
        s.fail(Fault::ProgramCounterOutOfBounds)
    } else {
        let line = program[s.line_num as int];
        match decode_spec(line) {
            Err(fault) => s.fail(fault),
            Ok(instr) => if strict && instr == Instr::Unknown {
                s.fail(Fault::UnknownMnemonic)
            } else {
                execute_spec(s, instr, branch_target(program, line, instr))
            },
        }
    }
}

/// Up to `steps` steps of the machine on a program: it stops early when a step
/// halts the machine or ends in a fault.
pub open spec fn run_spec(
    program: Seq<Seq<u8>>,
    strict: bool,
    s: MachineState,
    steps: nat,
) -> Outcome
    decreases steps,
{
    if steps == 0 {
        (s, Ok(s.running))
    } else {
        let (next, r) = step_spec(program, strict, s);
        if r == Ok::<bool, Fault>(true) {
            run_spec(program, strict, next, (steps - 1) as nat)
        } else {
            (next, r)
        }
    }
}

/// A program together with the machine that runs it.
pub struct Interpreter {
    machine: Machine,
    source: Vec<Vec<u8>>,
    labels: LabelIndex,
    strict: bool,
}

impl Interpreter {
    /// The lines of the program.
    pub closed spec fn program(&self) -> Seq<Seq<u8>> {
        lines_view(self.source@)
    }

    /// The state of the machine.
    pub closed spec fn state(&self) -> MachineState {
        self.machine@
    }

    /// Whether a line whose first word is no mnemonic is a fault.
    pub closed spec fn strict(&self) -> bool {
        self.strict
    }

    /// The label index is that of the program.
    pub closed spec fn wf(&self) -> bool {
        self.labels@ == label_index(self.program())
    }

    /// Loads a program: splits the text into lines, builds the label index and
    /// puts the machine into its initial state. The interpreter is permissive: a
    /// line whose first word is no mnemonic has no effect.
    pub fn new(source_string: String) -> (r: Interpreter)
        ensures
            r.wf(),
            r.program() == lines_of(encode_utf8(source_string@)),
            r.state() == MachineState::initial(),
            !r.strict(),
    {
        Interpreter::with_mode(source_string, false)
    }

    /// Loads a program as `new` does, for a strict or a permissive interpreter.
    pub fn with_mode(source_string: String, strict: bool) -> (r: Interpreter)
        ensures
            r.wf(),
            r.program() == lines_of(encode_utf8(source_string@)),
            r.state() == MachineState::initial(),
            r.strict() == strict,
    {
        let source = split_lines(source_string.as_str().as_bytes());
        let labels = LabelIndex::build(&source);
        Interpreter { machine: Machine::new(), source, labels, strict }
    }

    /// Executes the line at the program counter. Returns whether the machine is
    /// still running, or the fault that stopped it.
    pub fn tick(&mut self) -> (r: Result<bool, Fault>)
        requires
            old(self).wf(),
        ensures
            final(self).wf(),
            final(self).program() == old(self).program(),
            final(self).strict() == old(self).strict(),
            (final(self).state(), r) == step_spec(
                old(self).program(),
                old(self).strict(),
                old(self).state(),
            ),
            final(self).state().wf(),
    {
        if !self.machine.running() {
            proof {
                self.machine.lemma_wf();
            }
            return Ok(false);
        }
        let pc = self.machine.line_num();
        if pc >= self.source.len() {
            return self.machine.fail(Fault::ProgramCounterOutOfBounds);
        }
        let line = self.source[pc].as_slice();
        match decode(line) {
            Err(fault) => self.machine.fail(fault),
            Ok(instr) => {
                if self.strict {
                    match instr {
                        Instr::Unknown => {
                            return self.machine.fail(Fault::UnknownMnemonic);
                        },
                        _ => {},
                    }
                }
                let target = match instr {
                    Instr::Branch { cond, label } => self.labels.lookup(
                        slice_subrange(line, label.start, label.end),
                    ),
                    _ => None,
                };
                self.machine.execute(instr, target)
            },
        }
    }

    /// Steps the machine until it halts, stops on a fault, or `max_steps` steps
    /// are done. Returns what the last step returned.
    pub fn run(&mut self, max_steps: usize) -> (r: Result<bool, Fault>)
        requires
            old(self).wf(),
        ensures
            final(self).wf(),
            final(self).program() == old(self).program(),
            final(self).strict() == old(self).strict(),
            (final(self).state(), r) == run_spec(
                old(self).program(),
                old(self).strict(),
                old(self).state(),
                max_steps as nat,
            ),
            final(self).state().wf(),
    {
        let mut left: usize = max_steps;
        while left > 0
            invariant
                self.wf(),
                self.program() == old(self).program(),
                self.strict() == old(self).strict(),
                run_spec(self.program(), self.strict(), self.state(), left as nat) == run_spec(
                    old(self).program(),
                    old(self).strict(),
                    old(self).state(),
                    max_steps as nat,
                ),
            decreases left,
        {
            let r = self.tick();
            match r {
                Ok(true) => {},
                _ => {
                    return r;
                },
            }
            left -= 1;
        }
        proof {
            self.machine.lemma_wf();
        }
        Ok(self.machine.running())
    }

    /// What register `r` holds.
    pub fn reg(&self, r: usize) -> (v: i32)
        requires
            r < REGISTERS,
        ensures
            v == self.state().reg[r as int],
    {
        self.machine.reg(r)
    }

    /// What memory cell `addr` holds.
    pub fn mem(&self, addr: usize) -> (v: i32)
        requires
            addr < MEMORY_CELLS,
        ensures
            v == self.state().mem[addr as int],
    {
        self.machine.mem(addr)
    }

    /// The comparison flag.
    pub fn flag(&self) -> (f: Compare)
        ensures
            f == self.state().flag,
    {
        self.machine.flag()
    }

    /// The program counter.
    pub fn line_num(&self) -> (n: usize)
        ensures
            n == self.state().line_num,
    {
        self.machine.line_num()
    }

    /// Whether the machine is still running.
    pub fn running(&self) -> (b: bool)
        ensures
            b == self.state().running,
    {
        self.machine.running()
    }

    /// Sets register `r` to `v`.
    pub fn set_reg(&mut self, r: usize, v: i32)
        requires
            r < REGISTERS,
        ensures
            final(self).wf() == old(self).wf(),
            final(self).program() == old(self).program(),
            final(self).strict() == old(self).strict(),
            final(self).state() == old(self).state().with_reg(r, v),
            final(self).state().wf(),
    {
        self.machine.set_reg(r, v);
    }

    /// Sets memory cell `addr` to `v`.
    pub fn set_mem(&mut self, addr: usize, v: i32)
        requires
            addr < MEMORY_CELLS,
        ensures
            final(self).wf() == old(self).wf(),
            final(self).program() == old(self).program(),
            final(self).strict() == old(self).strict(),
            final(self).state() == old(self).state().with_mem(addr, v),
            final(self).state().wf(),
    {
        self.machine.set_mem(addr, v);
    }

    /// Whether the interpreter is strict.
    pub fn is_strict(&self) -> (b: bool)
        ensures
            b == self.strict(),
    {
        self.strict
    }

    /// How many lines the program has.
    pub fn line_count(&self) -> (n: usize)
        ensures
            n == self.program().len(),
    {
        self.source.len()
    }

    /// Line `i` of the program.
    pub fn line(&self, i: usize) -> (line: &[u8])
        requires
            i < self.program().len(),
        ensures
            line@ == self.program()[i as int],
    {
        self.source[i].as_slice()
    }

    /// The line that a branch to `name` goes to, if the program declares `name`.
    pub fn label_target(&self, name: &[u8]) -> (r: Option<usize>)
        requires
            self.wf(),
        ensures
            r == (if label_index(self.program()).contains_key(name@) {
                Some(label_index(self.program())[name@])
            } else {
                None
            }),
    {
        self.labels.lookup(name)
    }

    /// Every machine has sixteen registers and 256 memory cells.
    pub proof fn lemma_state_wf(&self)
        ensures
            self.state().wf(),
    {
        self.machine.lemma_wf();
    }
}

} // verus!
