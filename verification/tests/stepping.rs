use asm_interp::instr::AluOp;
use asm_interp::instr::Cond;
use asm_interp::instr::Fault;
use asm_interp::instr::Instr;
use asm_interp::instr::Operand;
use asm_interp::interpreter::Interpreter;
use asm_interp::labels::LabelIndex;
use asm_interp::machine::branch_taken;
use asm_interp::machine::compute;
use asm_interp::machine::Compare;
use asm_interp::machine::Machine;
use asm_interp::text::Span;

fn load(text: &str) -> Interpreter {
    Interpreter::new(String::from(text))
}

fn registers(m: &Interpreter) -> Vec<i32> {
    (0..16).map(|r| m.reg(r)).collect()
}

fn memory(m: &Interpreter) -> Vec<i32> {
    (0..256).map(|a| m.mem(a)).collect()
}

#[test]
fn a_new_machine_is_zeroed_and_running() {
    let m = load("HALT");
    assert_eq!(registers(&m), vec![0; 16]);
    assert_eq!(memory(&m), vec![0; 256]);
    assert_eq!(m.flag(), Compare::NONE);
    assert_eq!(m.line_num(), 0);
    assert!(m.running());
    assert_eq!(m.line_count(), 1);
    assert_eq!(m.line(0), b"HALT");
}

#[test]
fn load_changes_one_register_only() {
    for r in 0..16 {
        let mut m = load(&format!("LDR R{}, 200", r));
        for k in 0..16 {
            m.set_reg(k, 100 + k as i32);
        }
        m.set_mem(200, -5);
        let mem_before = memory(&m);
        let mut expected = registers(&m);
        expected[r] = -5;
        assert_eq!(m.tick(), Ok(true));
        assert_eq!(registers(&m), expected);
        assert_eq!(memory(&m), mem_before);
        assert_eq!(m.line_num(), 1);
    }
}

#[test]
fn store_changes_one_cell_only() {
    let mut m = load("STR R3, 255");
    m.set_reg(3, 77);
    m.set_mem(254, 1);
    let regs_before = registers(&m);
    let mut expected = memory(&m);
    expected[255] = 77;
    assert_eq!(m.tick(), Ok(true));
    assert_eq!(memory(&m), expected);
    assert_eq!(registers(&m), regs_before);
    assert_eq!(m.flag(), Compare::NONE);
}

#[test]
fn immediate_and_register_operands_agree() {
    let names = ["ADD", "SUB", "AND", "ORR", "EOR", "LSL", "LSR"];
    let values = [0, 1, 3, 31, 32, 33, -1, -7, i32::MAX, i32::MIN];
    for name in names {
        for v in values {
            let mut a = load(&format!("{} R0, R1, #{}", name, v));
            let mut b = load(&format!("{} R0, R1, R2", name));
            a.set_reg(1, 1234567);
            b.set_reg(1, 1234567);
            b.set_reg(2, v);
            assert_eq!(a.tick(), Ok(true));
            assert_eq!(b.tick(), Ok(true));
            assert_eq!(a.reg(0), b.reg(0));
        }
    }
}

#[test]
fn sums_and_differences_wrap_around() {
    assert_eq!(compute(AluOp::Add, 2, 3), 5);
    assert_eq!(compute(AluOp::Add, i32::MAX, 1), i32::MIN);
    assert_eq!(compute(AluOp::Add, i32::MIN, -1), i32::MAX);
    assert_eq!(compute(AluOp::Sub, 100, 55), 45);
    assert_eq!(compute(AluOp::Sub, i32::MIN, 1), i32::MAX);
    assert_eq!(compute(AluOp::Sub, 0, i32::MIN), i32::MIN);
}

#[test]
fn bitwise_operations_work_bit_by_bit() {
    assert_eq!(compute(AluOp::And, 15, 10), 10);
    assert_eq!(compute(AluOp::And, -1, 0x1234), 0x1234);
    assert_eq!(compute(AluOp::Orr, 6, 9), 15);
    assert_eq!(compute(AluOp::Orr, i32::MIN, 1), i32::MIN + 1);
    assert_eq!(compute(AluOp::Eor, 15, 9), 6);
    assert_eq!(compute(AluOp::Eor, -1, -1), 0);
}

#[test]
fn shifts_move_by_the_low_five_bits() {
    assert_eq!(compute(AluOp::Lsl, 4, 1), 8);
    assert_eq!(compute(AluOp::Lsl, 1, 31), i32::MIN);
    assert_eq!(compute(AluOp::Lsl, 1, 32), 1);
    assert_eq!(compute(AluOp::Lsl, 1, 33), 2);
    assert_eq!(compute(AluOp::Lsl, 1, -1), i32::MIN);
    assert_eq!(compute(AluOp::Lsl, 3, 0), 3);
    assert_eq!(compute(AluOp::Lsr, 4, 1), 2);
    assert_eq!(compute(AluOp::Lsr, -8, 1), -4);
    assert_eq!(compute(AluOp::Lsr, -1, 31), -1);
    assert_eq!(compute(AluOp::Lsr, 256, 36), 16);
    assert_eq!(compute(AluOp::Lsr, 5, 0), 5);
}

#[test]
fn the_destination_may_be_a_source() {
    let mut m = load("ADD R1, R1, R1\nSUB R1, R1, #1\nMOV R2, R2");
    m.set_reg(1, 21);
    m.set_reg(2, 9);
    assert_eq!(m.tick(), Ok(true));
    assert_eq!(m.reg(1), 42);
    assert_eq!(m.tick(), Ok(true));
    assert_eq!(m.reg(1), 41);
    assert_eq!(m.tick(), Ok(true));
    assert_eq!(m.reg(2), 9);
}

#[test]
fn compare_sets_the_flag_and_nothing_else() {
    let mut m = load("CMP R0, #2\nCMP R0, #-3\nCMP R0, R0");
    m.set_reg(0, 1);
    let regs = registers(&m);
    let mem = memory(&m);
    assert_eq!(m.tick(), Ok(true));
    assert_eq!(m.flag(), Compare::LT);
    assert_eq!(m.tick(), Ok(true));
    assert_eq!(m.flag(), Compare::GT);
    assert_eq!(m.tick(), Ok(true));
    assert_eq!(m.flag(), Compare::EQ);
    assert_eq!(registers(&m), regs);
    assert_eq!(memory(&m), mem);
    assert_eq!(m.line_num(), 3);
}

#[test]
fn compare_orders_signed_values() {
    let mut m = load("CMP R0, R1");
    m.set_reg(0, i32::MIN);
    m.set_reg(1, i32::MAX);
    assert_eq!(m.tick(), Ok(true));
    assert_eq!(m.flag(), Compare::LT);
}

#[test]
fn the_flag_decides_each_branch() {
    let flags = [Compare::EQ, Compare::GT, Compare::LT, Compare::NONE];
    for f in flags {
        assert!(branch_taken(Cond::Always, f));
        assert_eq!(branch_taken(Cond::Eq, f), f == Compare::EQ);
        assert_eq!(branch_taken(Cond::Gt, f), f == Compare::GT);
        assert_eq!(branch_taken(Cond::Lt, f), f == Compare::LT);
        assert_eq!(branch_taken(Cond::Ne, f), f == Compare::GT || f == Compare::LT);
    }
}

#[test]
fn a_branch_not_taken_goes_to_the_next_line() {
    for name in ["BEQ", "BNE", "BGT", "BLT"] {
        let mut m = load(&format!("{} label\nHALT\nlabel:\nHALT", name));
        assert_eq!(m.tick(), Ok(true));
        assert_eq!(m.line_num(), 1);
        assert_eq!(m.flag(), Compare::NONE);
    }
    let mut m = load("CMP R0, #0\nBNE label\nHALT\nlabel:\nHALT");
    assert_eq!(m.tick(), Ok(true));
    assert_eq!(m.tick(), Ok(true));
    assert_eq!(m.line_num(), 2);
    let mut m = load("CMP R0, #1\nBGT label\nHALT\nlabel:\nHALT");
    assert_eq!(m.tick(), Ok(true));
    assert_eq!(m.tick(), Ok(true));
    assert_eq!(m.line_num(), 2);
}

#[test]
fn a_branch_not_taken_needs_no_declared_label() {
    let mut m = load("BEQ nowhere\nHALT");
    assert_eq!(m.tick(), Ok(true));
    assert_eq!(m.line_num(), 1);
}

#[test]
fn a_branch_goes_to_the_line_after_the_label() {
    let mut m = load("B end\nMOV R0, #1\nend:\nnext:\nHALT");
    assert_eq!(m.label_target(b"end"), Some(3));
    assert_eq!(m.label_target(b"next"), Some(4));
    assert_eq!(m.label_target(b"en"), None);
    assert_eq!(m.tick(), Ok(true));
    assert_eq!(m.line_num(), 3);
    assert_eq!(m.reg(0), 0);
    assert_eq!(m.tick(), Ok(true));
    assert_eq!(m.line_num(), 4);
}

#[test]
fn the_later_of_two_declarations_counts() {
    let mut m = load("twice:\nMOV R0, #1\ntwice:\nB twice");
    assert_eq!(m.label_target(b"twice"), Some(3));
    assert_eq!(m.tick(), Ok(true));
    assert_eq!(m.tick(), Ok(true));
    assert_eq!(m.tick(), Ok(true));
    assert_eq!(m.tick(), Ok(true));
    assert_eq!(m.line_num(), 3);
}

#[test]
fn the_label_index_is_built_from_the_lines() {
    let program = vec![b"a:".to_vec(), b"HALT".to_vec(), b" b: ".to_vec(), b"B c:".to_vec()];
    let index = LabelIndex::build(&program);
    assert_eq!(index.lookup(b"a"), Some(1));
    assert_eq!(index.lookup(b"b"), Some(3));
    assert_eq!(index.lookup(b"c"), None);
    assert_eq!(index.lookup(b"B c"), None);
    assert_eq!(index.lookup(b""), None);
    let empty = LabelIndex::build(&Vec::new());
    assert_eq!(empty.lookup(b"a"), None);
}

#[test]
fn halt_stops_and_changes_nothing_else() {
    let mut m = load("CMP R0, #1\nHALT\nMOV R0, #1");
    m.set_reg(5, 55);
    m.set_mem(9, 99);
    assert_eq!(m.tick(), Ok(true));
    let regs = registers(&m);
    let mem = memory(&m);
    assert_eq!(m.tick(), Ok(false));
    assert!(!m.running());
    assert_eq!(registers(&m), regs);
    assert_eq!(memory(&m), mem);
    assert_eq!(m.flag(), Compare::LT);
    assert_eq!(m.line_num(), 1);
    assert_eq!(m.tick(), Ok(false));
    assert_eq!(m.line_num(), 1);
    assert_eq!(m.reg(0), 0);
}

#[test]
fn labels_blank_lines_and_unknown_words_are_skipped() {
    let mut m = load("start:\n\nNOP R0, R1\nHALT");
    assert_eq!(m.tick(), Ok(true));
    assert_eq!(m.line_num(), 1);
    assert_eq!(m.tick(), Ok(true));
    assert_eq!(m.line_num(), 2);
    assert_eq!(m.tick(), Ok(true));
    assert_eq!(m.line_num(), 3);
    assert_eq!(registers(&m), vec![0; 16]);
    assert_eq!(m.tick(), Ok(false));
}

#[test]
fn a_taken_branch_to_an_unknown_label_is_a_fault() {
    let mut m = load("B nowhere\nHALT");
    assert_eq!(m.tick(), Err(Fault::UnknownLabel));
    assert!(!m.running());
    assert_eq!(m.line_num(), 0);
    assert_eq!(m.tick(), Ok(false));
}

#[test]
fn running_past_the_last_line_is_a_fault() {
    let mut m = load("MOV R0, #1");
    assert_eq!(m.tick(), Ok(true));
    assert_eq!(m.line_num(), 1);
    assert!(m.running());
    assert_eq!(m.tick(), Err(Fault::ProgramCounterOutOfBounds));
    assert!(!m.running());
    assert_eq!(m.reg(0), 1);
    let mut empty = load("");
    assert_eq!(empty.line_count(), 0);
    assert_eq!(empty.tick(), Err(Fault::ProgramCounterOutOfBounds));
    let mut last = load("B end\nend:");
    assert_eq!(last.tick(), Ok(true));
    assert_eq!(last.line_num(), 2);
    assert_eq!(last.tick(), Err(Fault::ProgramCounterOutOfBounds));
}

#[test]
fn a_fault_in_a_line_changes_nothing_but_the_running_flag() {
    let cases = [
        ("LDR R0 42", Fault::MalformedOperand),
        ("LDR R16, 42", Fault::RegisterOutOfRange),
        ("STR R0, 256", Fault::MemoryOutOfRange),
        ("ADD R0, R1, 5", Fault::MalformedOperand),
    ];
    for (text, fault) in cases {
        let mut m = load(text);
        m.set_reg(1, 7);
        m.set_mem(42, 8);
        let regs = registers(&m);
        let mem = memory(&m);
        assert_eq!(m.tick(), Err(fault));
        assert!(!m.running());
        assert_eq!(m.line_num(), 0);
        assert_eq!(registers(&m), regs);
        assert_eq!(memory(&m), mem);
        assert_eq!(m.flag(), Compare::NONE);
    }
}

#[test]
fn run_steps_until_the_machine_halts() {
    let text = "MOV R0, #3\nloop:\nADD R1, R1, R0\nSUB R0, R0, #1\nCMP R0, #0\nBGT loop\nHALT";
    let mut m = load(text);
    assert_eq!(m.run(1000), Ok(false));
    assert_eq!(m.reg(0), 0);
    assert_eq!(m.reg(1), 6);
    assert_eq!(m.line_num(), 6);
    assert!(!m.running());
    let mut short = load(text);
    assert_eq!(short.run(4), Ok(true));
    assert_eq!(short.line_num(), 4);
    assert_eq!(short.reg(1), 3);
    assert_eq!(short.run(0), Ok(true));
    assert_eq!(short.line_num(), 4);
    let mut endless = load("loop:\nB loop");
    assert_eq!(endless.run(1001), Ok(true));
    let mut faulty = load("MOV R0, #1\nB nowhere");
    assert_eq!(faulty.run(10), Err(Fault::UnknownLabel));
    assert_eq!(faulty.run(10), Ok(false));
}

#[test]
fn the_same_text_gives_the_same_run() {
    let text =
        "MOV R0, #5\nloop:\nLSL R1, R0, #2\nSTR R1, 7\nSUB R0, R0, #1\nCMP R0, #0\nBNE loop\nHALT";
    let mut a = load(text);
    let mut b = load(text);
    assert_eq!(a.run(500), b.run(500));
    assert_eq!(registers(&a), registers(&b));
    assert_eq!(memory(&a), memory(&b));
    assert_eq!(a.flag(), b.flag());
    assert_eq!(a.line_num(), b.line_num());
    assert_eq!(a.running(), b.running());
    assert_eq!(a.mem(7), 4);
}

#[test]
fn a_machine_executes_decoded_instructions() {
    let mut m = Machine::new();
    m.set_mem(3, 30);
    assert_eq!(m.execute(Instr::Ldr { rd: 2, addr: 3 }, None), Ok(true));
    assert_eq!(m.reg(2), 30);
    assert_eq!(m.line_num(), 1);
    assert_eq!(m.operand_value(Operand::Reg(2)), 30);
    assert_eq!(m.operand_value(Operand::Imm(-4)), -4);
    let src = Operand::Imm(12);
    assert_eq!(m.execute(Instr::Alu { op: AluOp::Sub, rd: 2, rn: 2, src }, None), Ok(true));
    assert_eq!(m.reg(2), 18);
    assert_eq!(m.execute(Instr::Compare { rn: 2, src: Operand::Imm(18) }, None), Ok(true));
    assert_eq!(m.flag(), Compare::EQ);
    let label = Span { start: 4, end: 5 };
    assert_eq!(m.execute(Instr::Branch { cond: Cond::Eq, label }, Some(40)), Ok(true));
    assert_eq!(m.line_num(), 40);
    assert_eq!(m.execute(Instr::Branch { cond: Cond::Ne, label }, None), Ok(true));
    assert_eq!(m.line_num(), 41);
    assert_eq!(m.execute(Instr::Branch { cond: Cond::Eq, label }, None), Err(Fault::UnknownLabel));
    assert!(!m.running());
    assert_eq!(m.line_num(), 41);
    let mut n = Machine::new();
    assert_eq!(n.execute(Instr::Halt, None), Ok(false));
    assert!(!n.running());
    assert_eq!(n.line_num(), 0);
    let mut f = Machine::new();
    assert_eq!(f.fail(Fault::MemoryOutOfRange), Err(Fault::MemoryOutOfRange));
    assert!(!f.running());
}

#[test]
fn text_outside_ascii_is_carried_through() {
    let mut m = load("caf\u{e9}:\nB caf\u{e9}\nHALT");
    assert_eq!(m.label_target("caf\u{e9}".as_bytes()), Some(1));
    assert_eq!(m.tick(), Ok(true));
    assert_eq!(m.tick(), Ok(true));
    assert_eq!(m.line_num(), 1);
}

#[test]
fn a_strict_interpreter_rejects_unknown_mnemonics() {
    let text = "start:\n\nMOV R0, #1\nNOP\nHALT";
    let mut strict = Interpreter::with_mode(String::from(text), true);
    assert!(strict.is_strict());
    assert_eq!(strict.tick(), Ok(true));
    assert_eq!(strict.tick(), Ok(true));
    assert_eq!(strict.tick(), Ok(true));
    assert_eq!(strict.line_num(), 3);
    assert_eq!(strict.tick(), Err(Fault::UnknownMnemonic));
    assert!(!strict.running());
    assert_eq!(strict.line_num(), 3);
    assert_eq!(strict.reg(0), 1);
    let mut permissive = Interpreter::with_mode(String::from(text), false);
    assert!(!permissive.is_strict());
    assert_eq!(permissive.run(10), Ok(false));
    assert_eq!(permissive.line_num(), 4);
    assert!(!load(text).is_strict());
    let mut again = Interpreter::with_mode(String::from(text), true);
    assert_eq!(again.run(10), Err(Fault::UnknownMnemonic));
}

#[test]
fn blank_and_unknown_lines_change_nothing_when_executed() {
    let mut m = Machine::new();
    m.set_reg(1, 11);
    assert_eq!(m.execute(Instr::Blank, None), Ok(true));
    assert_eq!(m.execute(Instr::Unknown, None), Ok(true));
    assert_eq!(m.execute(Instr::Label, None), Ok(true));
    assert_eq!(m.line_num(), 3);
    assert_eq!(m.reg(1), 11);
    assert_eq!(m.flag(), Compare::NONE);
    assert!(m.running());
}
