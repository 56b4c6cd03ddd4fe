//! Instructions, and how one line of program text is decoded into one.
use crate::ascii;
use crate::labels::find_label;
use crate::labels::label_span;
use crate::text::decimal_up_to;
use crate::text::next_token;
use crate::text::parse_signed;
use crate::text::parse_unsigned;
use crate::text::signed_value;
use crate::text::nth_token;
use crate::text::token_following;
use crate::text::unsigned_digits;
use crate::text::word;
use crate::text::Decimal;
use crate::text::Span;
use vstd::prelude::*;
use vstd::slice::slice_subrange;

verus! {

/// How many registers the machine has.
pub const REGISTERS: usize = 16;

/// How many memory cells the machine has.
pub const MEMORY_CELLS: usize = 256;

/// Why the machine stopped abnormally.
#[derive(Clone, Copy, PartialEq, Eq, Debug, Structural)]
pub enum Fault {
    /// An operand is missing or is not written as its place asks.
    MalformedOperand,
    /// A taken branch names a label that the program does not declare.
    UnknownLabel,
    /// A register operand names a register that the machine does not have.
    RegisterOutOfRange,
    /// A memory operand names a cell that the machine does not have.
    MemoryOutOfRange,
    /// The program counter is past the last line.
    ProgramCounterOutOfBounds,
    /// The first word of a line is no mnemonic, and the interpreter is strict.
    UnknownMnemonic,
}

/// The last source operand of an instruction.
#[derive(Clone, Copy, PartialEq, Eq, Debug, Structural)]
pub enum Operand {
    /// `#n`: the number itself.
    Imm(i32),
    /// `Rn`: what register `n` holds.
    Reg(usize),
}

/// The operations that take a register and a source operand to a register.
#[derive(Clone, Copy, PartialEq, Eq, Debug, Structural)]
pub enum AluOp {
    Add,
    Sub,
    And,
    Orr,
    Eor,
    Lsl,
    Lsr,
}

/// When a branch is taken.
#[derive(Clone, Copy, PartialEq, Eq, Debug, Structural)]
pub enum Cond {
    Always,
    Eq,
    Ne,
    Gt,
    Lt,
}

/// The first word of an instruction line: one of the eighteen mnemonics, each
/// written in upper case (`Compare` is `CMP`), or anything else.
#[derive(Clone, Copy, PartialEq, Eq, Debug, Structural)]
pub enum Mnemonic {
    Ldr,
    Str,
    Add,
    Sub,
    And,
    Orr,
    Eor,
    Lsl,
    Lsr,
    Mov,
    Mvn,
    Compare,
    B,
    Beq,
    Bne,
    Bgt,
    Blt,
    Halt,
    Unknown,
}

/// One decoded line.
#[derive(Clone, Copy, PartialEq, Eq, Debug, Structural)]
pub enum Instr {
    /// A label declaration: no effect.
    Label,
    /// `LDR Rd, addr`
    Ldr { rd: usize, addr: usize },
    /// `STR Rd, addr`
    Str { rd: usize, addr: usize },
    /// `ADD`, `SUB`, `AND`, `ORR`, `EOR`, `LSL`, `LSR`: `op Rd, Rn, src`
    Alu { op: AluOp, rd: usize, rn: usize, src: Operand },
    /// `MOV Rd, src`
    Mov { rd: usize, src: Operand },
    /// `MVN Rd, src`
    Mvn { rd: usize, src: Operand },
    /// `CMP Rn, src`
    Compare { rn: usize, src: Operand },
    /// `B`, `BEQ`, `BNE`, `BGT`, `BLT`: `label` is where the label's name stands in the line.
    Branch { cond: Cond, label: Span },
    /// `HALT`
    Halt,
    /// A line without words: no effect.
    Blank,
    /// A line whose first word is no mnemonic: no effect, or a fault for a
    /// strict interpreter.
    Unknown,
}

impl Operand {
    /// A register operand names one of the sixteen registers.
    pub open spec fn wf(self) -> bool {
        match self {
            Operand::Imm(_) => true,
            Operand::Reg(r) => r < REGISTERS,
        }
    }
}

impl Instr {
    /// Every register and memory cell that the instruction names exists.
    pub open spec fn wf(self) -> bool {
        match self {
            Instr::Ldr { rd, addr } => rd < REGISTERS && addr < MEMORY_CELLS,
            Instr::Str { rd, addr } => rd < REGISTERS && addr < MEMORY_CELLS,
            Instr::Alu { op, rd, rn, src } => rd < REGISTERS && rn < REGISTERS && src.wf(),
            Instr::Mov { rd, src } => rd < REGISTERS && src.wf(),
            Instr::Mvn { rd, src } => rd < REGISTERS && src.wf(),
            Instr::Compare { rn, src } => rn < REGISTERS && src.wf(),
            _ => true,
        }
    }
}

/// The mnemonic that a word spells, in upper case.
pub open spec fn mnemonic_of(w: Seq<u8>) -> Mnemonic {
    if w =~= seq![ascii::L, ascii::D, ascii::R] {
        Mnemonic::Ldr
    } else if w =~= seq![ascii::S, ascii::T, ascii::R] {
        Mnemonic::Str
    } else if w =~= seq![ascii::A, ascii::D, ascii::D] {
        Mnemonic::Add
    } else if w =~= seq![ascii::S, ascii::U, ascii::B] {
        Mnemonic::Sub
    } else if w =~= seq![ascii::A, ascii::N, ascii::D] {
        Mnemonic::And
    } else if w =~= seq![ascii::O, ascii::R, ascii::R] {
        Mnemonic::Orr
    } else if w =~= seq![ascii::E, ascii::O, ascii::R] {
        Mnemonic::Eor
    } else if w =~= seq![ascii::L, ascii::S, ascii::L] {
        Mnemonic::Lsl
    } else if w =~= seq![ascii::L, ascii::S, ascii::R] {
        Mnemonic::Lsr
    } else if w =~= seq![ascii::M, ascii::O, ascii::V] {
        Mnemonic::Mov
    } else if w =~= seq![ascii::M, ascii::V, ascii::N] {
        Mnemonic::Mvn
    } else if w =~= seq![ascii::C, ascii::M, ascii::P] {
        Mnemonic::Compare
    } else if w =~= seq![ascii::B] {
        Mnemonic::B
    } else if w =~= seq![ascii::B, ascii::E, ascii::Q] {
        Mnemonic::Beq
    } else if w =~= seq![ascii::B, ascii::N, ascii::E] {
        Mnemonic::Bne
    } else if w =~= seq![ascii::B, ascii::G, ascii::T] {
        Mnemonic::Bgt
    } else if w =~= seq![ascii::B, ascii::L, ascii::T] {
        Mnemonic::Blt
    } else if w =~= seq![ascii::H, ascii::A, ascii::L, ascii::T] {
        Mnemonic::Halt
    } else {
        Mnemonic::Unknown
    }
}

/// Whether a word of three bytes is `a`, `b`, `c`.
fn spells(w: &[u8], a: u8, b: u8, c: u8) -> (r: bool)
    requires
        w.len() == 3,
    ensures
        r == (w@ =~= seq![a, b, c]),
{
    w[0] == a && w[1] == b && w[2] == c
}

/// Tells which mnemonic a word spells.
pub fn mnemonic(w: &[u8]) -> (r: Mnemonic)
    ensures
        r == mnemonic_of(w@),
{
    if w.len() == 1 {
        if w[0] == ascii::B {
            Mnemonic::B
        } else {
            Mnemonic::Unknown
        }
    } else if w.len() == 4 {
        if w[0] == ascii::H && w[1] == ascii::A && w[2] == ascii::L && w[3] == ascii::T {
            Mnemonic::Halt
        } else {
            Mnemonic::Unknown
        }
    } else if w.len() == 3 {
        if spells(w, ascii::L, ascii::D, ascii::R) {
            Mnemonic::Ldr
        } else if spells(w, ascii::S, ascii::T, ascii::R) {
            Mnemonic::Str
        } else if spells(w, ascii::A, ascii::D, ascii::D) {
            Mnemonic::Add
        } else if spells(w, ascii::S, ascii::U, ascii::B) {
            Mnemonic::Sub
        } else if spells(w, ascii::A, ascii::N, ascii::D) {
            Mnemonic::And
        } else if spells(w, ascii::O, ascii::R, ascii::R) {
            Mnemonic::Orr
        } else if spells(w, ascii::E, ascii::O, ascii::R) {
            Mnemonic::Eor
        } else if spells(w, ascii::L, ascii::S, ascii::L) {
            Mnemonic::Lsl
        } else if spells(w, ascii::L, ascii::S, ascii::R) {
            Mnemonic::Lsr
        } else if spells(w, ascii::M, ascii::O, ascii::V) {
            Mnemonic::Mov
        } else if spells(w, ascii::M, ascii::V, ascii::N) {
            Mnemonic::Mvn
        } else if spells(w, ascii::C, ascii::M, ascii::P) {
            Mnemonic::Compare
        } else if spells(w, ascii::B, ascii::E, ascii::Q) {
            Mnemonic::Beq
        } else if spells(w, ascii::B, ascii::N, ascii::E) {
            Mnemonic::Bne
        } else if spells(w, ascii::B, ascii::G, ascii::T) {
            Mnemonic::Bgt
        } else if spells(w, ascii::B, ascii::L, ascii::T) {
            Mnemonic::Blt
        } else {
            Mnemonic::Unknown
        }
    } else {
        Mnemonic::Unknown
    }
}

/// The register that `R`, an optional `+` and digits name.
pub open spec fn register_index(w: Seq<u8>) -> Result<usize, Fault> {
    if w.len() == 0 || w[0] != ascii::R {
        Err(Fault::MalformedOperand)
    } else {
        match decimal_up_to(unsigned_digits(w.drop_first()), 15) {
            Decimal::Malformed => Err(Fault::MalformedOperand),
            Decimal::TooLarge => Err(Fault::RegisterOutOfRange),
            Decimal::Value(v) => Ok(v as usize),
        }
    }
}

/// The register that a word of the form `Rn,` names.
pub open spec fn register_operand(w: Seq<u8>) -> Result<usize, Fault> {
    if w.len() == 0 || w.last() != ascii::COMMA {
        Err(Fault::MalformedOperand)
    } else {
        register_index(w.drop_last())
    }
}

/// The memory cell that a word of digits, after an optional `+`, names.
pub open spec fn memory_operand(w: Seq<u8>) -> Result<usize, Fault> {
    match decimal_up_to(unsigned_digits(w), 255) {
        Decimal::Malformed => Err(Fault::MalformedOperand),
        Decimal::TooLarge => Err(Fault::MemoryOutOfRange),
        Decimal::Value(v) => Ok(v as usize),
    }
}

/// The source operand that a word of the form `#n` or `Rn` denotes.
pub open spec fn source_operand(w: Seq<u8>) -> Result<Operand, Fault> {
    if w.len() > 0 && w[0] == ascii::HASH {
        match signed_value(w.drop_first()) {
            Some(v) => Ok(Operand::Imm(v)),
            None => Err(Fault::MalformedOperand),
        }
    } else {
        match register_index(w) {
            Ok(r) => Ok(Operand::Reg(r)),
            Err(f) => Err(f),
        }
    }
}

/// The register that the word `t` of a line names as an operand that is not
/// the last. A missing word is a malformed operand.
pub open spec fn register_in(line: Seq<u8>, t: Option<Span>) -> Result<usize, Fault> {
    match t {
        None => Err(Fault::MalformedOperand),
        Some(t) => register_operand(word(line, t)),
    }
}

/// The memory cell that the word `t` of a line names.
pub open spec fn memory_in(line: Seq<u8>, t: Option<Span>) -> Result<usize, Fault> {
    match t {
        None => Err(Fault::MalformedOperand),
        Some(t) => memory_operand(word(line, t)),
    }
}

/// The source operand that the word `t` of a line denotes.
pub open spec fn source_in(line: Seq<u8>, t: Option<Span>) -> Result<Operand, Fault> {
    match t {
        None => Err(Fault::MalformedOperand),
        Some(t) => source_operand(word(line, t)),
    }
}

/// The operands `Rd, addr` of a line: its words one and two.
pub open spec fn transfer_operands(line: Seq<u8>) -> Result<(usize, usize), Fault> {
    match register_in(line, nth_token(line, 1)) {
        Err(f) => Err(f),
        Ok(rd) => match memory_in(line, nth_token(line, 2)) {
            Err(f) => Err(f),
            Ok(addr) => Ok((rd, addr)),
        },
    }
}

/// The operands `Rd, src` of a line: its words one and two.
pub open spec fn unary_operands(line: Seq<u8>) -> Result<(usize, Operand), Fault> {
    match register_in(line, nth_token(line, 1)) {
        Err(f) => Err(f),
        Ok(rd) => match source_in(line, nth_token(line, 2)) {
            Err(f) => Err(f),
            Ok(src) => Ok((rd, src)),
        },
    }
}

/// The operands `Rd, Rn, src` of a line: its words one, two and three.
pub open spec fn binary_operands(line: Seq<u8>) -> Result<(usize, usize, Operand), Fault> {
    match register_in(line, nth_token(line, 1)) {
        Err(f) => Err(f),
        Ok(rd) => match register_in(line, nth_token(line, 2)) {
            Err(f) => Err(f),
            Ok(rn) => match source_in(line, nth_token(line, 3)) {
                Err(f) => Err(f),
                Ok(src) => Ok((rd, rn, src)),
            },
        },
    }
}

/// The instruction `op Rd, Rn, src` that a line denotes.
pub open spec fn alu_instr(line: Seq<u8>, op: AluOp) -> Result<Instr, Fault> {
    match binary_operands(line) {
        Err(f) => Err(f),
        Ok((rd, rn, src)) => Ok(Instr::Alu { op, rd, rn, src }),
    }
}

/// The branch that a line denotes: its label is word one.
pub open spec fn branch_instr(line: Seq<u8>, cond: Cond) -> Result<Instr, Fault> {
    match nth_token(line, 1) {
        None => Err(Fault::MalformedOperand),
        Some(label) => Ok(Instr::Branch { cond, label }),
    }
}

/// The instruction that a line of program text denotes, or the fault in it.
///
/// A line without words decodes to `Blank`, a label declaration to `Label`,
/// and a line whose first word is no mnemonic to `Unknown`. Otherwise word
/// zero is the mnemonic, and the words after it are the operands it asks for,
/// read from left to right; the first that is missing or wrong decides the
/// fault. Words after the last operand are ignored.
#[verifier::opaque]
pub open spec fn decode_spec(line: Seq<u8>) -> Result<Instr, Fault> {
    match nth_token(line, 0) {
        None => Ok(Instr::Blank),
        Some(t) => if label_span(line) is Some {
            Ok(Instr::Label)
        } else {
            match mnemonic_of(word(line, t)) {
                Mnemonic::Ldr => match transfer_operands(line) {
                    Err(f) => Err(f),
                    Ok((rd, addr)) => Ok(Instr::Ldr { rd, addr }),
                },
                Mnemonic::Str => match transfer_operands(line) {
                    Err(f) => Err(f),
                    Ok((rd, addr)) => Ok(Instr::Str { rd, addr }),
                },
                Mnemonic::Add => alu_instr(line, AluOp::Add),
                Mnemonic::Sub => alu_instr(line, AluOp::Sub),
                Mnemonic::And => alu_instr(line, AluOp::And),
                Mnemonic::Orr => alu_instr(line, AluOp::Orr),
                Mnemonic::Eor => alu_instr(line, AluOp::Eor),
                Mnemonic::Lsl => alu_instr(line, AluOp::Lsl),
                Mnemonic::Lsr => alu_instr(line, AluOp::Lsr),
                Mnemonic::Mov => match unary_operands(line) {
                    Err(f) => Err(f),
                    Ok((rd, src)) => Ok(Instr::Mov { rd, src }),
                },
                Mnemonic::Mvn => match unary_operands(line) {
                    Err(f) => Err(f),
                    Ok((rd, src)) => Ok(Instr::Mvn { rd, src }),
                },
                Mnemonic::Compare => match unary_operands(line) {
                    Err(f) => Err(f),
                    Ok((rn, src)) => Ok(Instr::Compare { rn, src }),
                },
                Mnemonic::B => branch_instr(line, Cond::Always),
                Mnemonic::Beq => branch_instr(line, Cond::Eq),
                Mnemonic::Bne => branch_instr(line, Cond::Ne),
                Mnemonic::Bgt => branch_instr(line, Cond::Gt),
                Mnemonic::Blt => branch_instr(line, Cond::Lt),
                Mnemonic::Halt => Ok(Instr::Halt),
                Mnemonic::Unknown => Ok(Instr::Unknown),
            }
        },
    }
}

/// Reads `R`, an optional `+` and digits as a register.
pub fn read_register_index(w: &[u8]) -> (r: Result<usize, Fault>)
    ensures
        r == register_index(w@),
        r matches Ok(i) ==> i < REGISTERS,
{
    if w.len() == 0 || w[0] != ascii::R {
        return Err(Fault::MalformedOperand);
    }
    match parse_unsigned(slice_subrange(w, 1, w.len()), 15) {
        Decimal::Malformed => Err(Fault::MalformedOperand),
        Decimal::TooLarge => Err(Fault::RegisterOutOfRange),
        Decimal::Value(v) => Ok(v as usize),
    }
}

/// Reads a word of the form `Rn,` as a register.
pub fn read_register_operand(w: &[u8]) -> (r: Result<usize, Fault>)
    ensures
        r == register_operand(w@),
        r matches Ok(i) ==> i < REGISTERS,
{
    if w.len() == 0 || w[w.len() - 1] != ascii::COMMA {
        return Err(Fault::MalformedOperand);
    }
    read_register_index(slice_subrange(w, 0, w.len() - 1))
}

/// Reads a word of digits as a memory cell.
pub fn read_memory_operand(w: &[u8]) -> (r: Result<usize, Fault>)
    ensures
        r == memory_operand(w@),
        r matches Ok(i) ==> i < MEMORY_CELLS,
{
    match parse_unsigned(w, 255) {
        Decimal::Malformed => Err(Fault::MalformedOperand),
        Decimal::TooLarge => Err(Fault::MemoryOutOfRange),
        Decimal::Value(v) => Ok(v as usize),
    }
}

/// Reads a word of the form `#n` or `Rn` as a source operand.
pub fn read_source_operand(w: &[u8]) -> (r: Result<Operand, Fault>)
    ensures
        r == source_operand(w@),
        r matches Ok(src) ==> src.wf(),
{
    if w.len() > 0 && w[0] == ascii::HASH {
        match parse_signed(slice_subrange(w, 1, w.len())) {
            Some(v) => Ok(Operand::Imm(v)),
            None => Err(Fault::MalformedOperand),
        }
    } else {
        match read_register_index(w) {
            Ok(r) => Ok(Operand::Reg(r)),
            Err(f) => Err(f),
        }
    }
}

/// Reads the word `t` of a line as a register operand that is not the last.
pub fn read_register(line: &[u8], t: Option<Span>) -> (r: Result<usize, Fault>)
    requires
        t matches Some(t) ==> t.start <= t.end <= line.len(),
    ensures
        r == register_in(line@, t),
        r matches Ok(i) ==> i < REGISTERS,
{
    match t {
        None => Err(Fault::MalformedOperand),
        Some(t) => read_register_operand(slice_subrange(line, t.start, t.end)),
    }
}

/// Reads the word `t` of a line as a memory cell.
pub fn read_memory(line: &[u8], t: Option<Span>) -> (r: Result<usize, Fault>)
    requires
        t matches Some(t) ==> t.start <= t.end <= line.len(),
    ensures
        r == memory_in(line@, t),
        r matches Ok(i) ==> i < MEMORY_CELLS,
{
    match t {
        None => Err(Fault::MalformedOperand),
        Some(t) => read_memory_operand(slice_subrange(line, t.start, t.end)),
    }
}

/// Reads the word `t` of a line as a source operand.
pub fn read_source(line: &[u8], t: Option<Span>) -> (r: Result<Operand, Fault>)
    requires
        t matches Some(t) ==> t.start <= t.end <= line.len(),
    ensures
        r == source_in(line@, t),
        r matches Ok(src) ==> src.wf(),
{
    match t {
        None => Err(Fault::MalformedOperand),
        Some(t) => read_source_operand(slice_subrange(line, t.start, t.end)),
    }
}

/// Reads the operands `Rd, addr`, given word one of the line.
fn read_transfer(line: &[u8], first: Option<Span>) -> (r: Result<(usize, usize), Fault>)
    requires
        first == nth_token(line@, 1),
        first matches Some(t) ==> t.start <= t.end <= line.len(),
    ensures
        r == transfer_operands(line@),
        r matches Ok((rd, addr)) ==> rd < REGISTERS && addr < MEMORY_CELLS,
{
    proof {
        reveal_with_fuel(nth_token, 3);
    }
    match read_register(line, first) {
        Err(f) => Err(f),
        Ok(rd) => match read_memory(line, token_following(line, first)) {
            Err(f) => Err(f),
            Ok(addr) => Ok((rd, addr)),
        },
    }
}

/// Reads the operands `Rd, src`, given word one of the line.
fn read_unary(line: &[u8], first: Option<Span>) -> (r: Result<(usize, Operand), Fault>)
    requires
        first == nth_token(line@, 1),
        first matches Some(t) ==> t.start <= t.end <= line.len(),
    ensures
        r == unary_operands(line@),
        r matches Ok((rd, src)) ==> rd < REGISTERS && src.wf(),
{
    proof {
        reveal_with_fuel(nth_token, 3);
    }
    match read_register(line, first) {
        Err(f) => Err(f),
        Ok(rd) => match read_source(line, token_following(line, first)) {
            Err(f) => Err(f),
            Ok(src) => Ok((rd, src)),
        },
    }
}

/// Reads the operands `Rd, Rn, src`, given word one of the line.
fn read_alu(line: &[u8], first: Option<Span>, op: AluOp) -> (r: Result<Instr, Fault>)
    requires
        first == nth_token(line@, 1),
        first matches Some(t) ==> t.start <= t.end <= line.len(),
    ensures
        r == alu_instr(line@, op),
        r matches Ok(instr) ==> instr.wf(),
{
    proof {
        reveal_with_fuel(nth_token, 4);
    }
    let rd = match read_register(line, first) {
        Err(f) => {
            return Err(f);
        },
        Ok(rd) => rd,
    };
    let second = token_following(line, first);
    let rn = match read_register(line, second) {
        Err(f) => {
            return Err(f);
        },
        Ok(rn) => rn,
    };
    match read_source(line, token_following(line, second)) {
        Err(f) => Err(f),
        Ok(src) => Ok(Instr::Alu { op, rd, rn, src }),
    }
}

/// Makes a branch of the label in word one of the line.
fn read_branch(first: Option<Span>, cond: Cond) -> (r: Result<Instr, Fault>)
    ensures
        r == (match first {
            None => Err::<Instr, Fault>(Fault::MalformedOperand),
            Some(label) => Ok(Instr::Branch { cond, label }),
        }),
{
    match first {
        None => Err(Fault::MalformedOperand),
        Some(label) => Ok(Instr::Branch { cond, label }),
    }
}

/// Decodes one line of program text.
pub fn decode(line: &[u8]) -> (r: Result<Instr, Fault>)
    ensures
        r == decode_spec(line@),
        r matches Ok(instr) ==> instr.wf(),
        r matches Ok(Instr::Branch { label, .. }) ==> label.start < label.end <= line.len(),
{
    proof {
        reveal(decode_spec);
        reveal_with_fuel(nth_token, 2);
    }
    let t = match next_token(line, 0) {
        None => {
            return Ok(Instr::Blank);
        },
        Some(t) => t,
    };
    if find_label(line).is_some() {
        return Ok(Instr::Label);
    }
    let first = next_token(line, t.end);
    match mnemonic(slice_subrange(line, t.start, t.end)) {
        Mnemonic::Ldr => match read_transfer(line, first) {
            Err(f) => Err(f),
            Ok((rd, addr)) => Ok(Instr::Ldr { rd, addr }),
        },
        Mnemonic::Str => match read_transfer(line, first) {
            Err(f) => Err(f),
            Ok((rd, addr)) => Ok(Instr::Str { rd, addr }),
        },
        Mnemonic::Add => read_alu(line, first, AluOp::Add),
        Mnemonic::Sub => read_alu(line, first, AluOp::Sub),
        Mnemonic::And => read_alu(line, first, AluOp::And),
        Mnemonic::Orr => read_alu(line, first, AluOp::Orr),
        Mnemonic::Eor => read_alu(line, first, AluOp::Eor),
        Mnemonic::Lsl => read_alu(line, first, AluOp::Lsl),
        Mnemonic::Lsr => read_alu(line, first, AluOp::Lsr),
        Mnemonic::Mov => match read_unary(line, first) {
            Err(f) => Err(f),
            Ok((rd, src)) => Ok(Instr::Mov { rd, src }),
        },
        Mnemonic::Mvn => match read_unary(line, first) {
            Err(f) => Err(f),
            Ok((rd, src)) => Ok(Instr::Mvn { rd, src }),
        },
        Mnemonic::Compare => match read_unary(line, first) {
            Err(f) => Err(f),
            Ok((rn, src)) => Ok(Instr::Compare { rn, src }),
        },
        Mnemonic::B => read_branch(first, Cond::Always),
        Mnemonic::Beq => read_branch(first, Cond::Eq),
        Mnemonic::Bne => read_branch(first, Cond::Ne),
        Mnemonic::Bgt => read_branch(first, Cond::Gt),
        Mnemonic::Blt => read_branch(first, Cond::Lt),
        Mnemonic::Halt => Ok(Instr::Halt),
        Mnemonic::Unknown => Ok(Instr::Unknown),
    }
}

} // verus!
