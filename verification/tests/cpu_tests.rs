use mips_sim::cpu::{CpuState, ExecErrorKind, Memory, RegError, CPU};
use mips_sim::isa::{Instr, ParsedInstr};
use mips_sim::resolve::resolve;

fn assemble(lines: &[&str]) -> Vec<Instr> {
    let mut items = Vec::new();
    for line in lines {
        items.push(ParsedInstr::from_str(&line.to_string()).unwrap());
    }
    resolve(&items).unwrap()
}

fn fresh() -> (CPU, Memory) {
    (CPU::new(), Memory::new(16))
}

#[test]
fn register_file_set_then_get() {
    let mut cpu = CPU::new();
    for i in 1..32u32 {
        assert_eq!(cpu.set_reg(i, i * 10 + 1), Ok(()));
        assert_eq!(cpu.get_reg(i), Ok(i * 10 + 1));
    }
    // register 0 refuses every write and still reads as zero
    assert_eq!(cpu.set_reg(0, 77), Err(RegError::ZeroRegisterWrite));
    assert_eq!(cpu.get_reg(0), Ok(0));
    // out-of-range indices
    assert_eq!(cpu.get_reg(32), Err(RegError::OutOfBounds));
    assert_eq!(cpu.set_reg(32, 1), Err(RegError::OutOfBounds));
}

#[test]
fn arithmetic_and_logic_semantics() {
    let (mut cpu, mut mem) = fresh();
    cpu.set_reg(9, 0xFFFF_FFFF).unwrap(); // -1 signed
    cpu.set_reg(10, 3).unwrap();
    cpu.execute(&Instr::Add { rd: 8, rs: 9, rt: 10 }, &mut mem).unwrap();
    assert_eq!(cpu.get_reg(8), Ok(2));
    cpu.execute(&Instr::Sub { rd: 8, rs: 9, rt: 10 }, &mut mem).unwrap();
    assert_eq!(cpu.get_reg(8), Ok(0xFFFF_FFFC)); // -4
    cpu.execute(&Instr::And { rd: 8, rs: 9, rt: 10 }, &mut mem).unwrap();
    assert_eq!(cpu.get_reg(8), Ok(3));
    cpu.execute(&Instr::Or { rd: 8, rs: 9, rt: 10 }, &mut mem).unwrap();
    assert_eq!(cpu.get_reg(8), Ok(0xFFFF_FFFF));
    cpu.execute(&Instr::Slt { rd: 8, rs: 9, rt: 10 }, &mut mem).unwrap();
    assert_eq!(cpu.get_reg(8), Ok(1)); // -1 < 3 signed
    cpu.execute(&Instr::Sltiu { rt: 8, rs: 9, immd: 3 }, &mut mem).unwrap();
    assert_eq!(cpu.get_reg(8), Ok(0)); // 0xFFFF_FFFF not below 3 unsigned
    cpu.execute(&Instr::Slti { rt: 8, rs: 10, immd: 0xFFFF_FFFF }, &mut mem).unwrap();
    assert_eq!(cpu.get_reg(8), Ok(0)); // 3 not below -1 signed
}

#[test]
fn trapping_add_overflow_faults() {
    let (mut cpu, mut mem) = fresh();
    cpu.set_reg(9, 0x7FFF_FFFF).unwrap();
    cpu.set_reg(10, 1).unwrap();
    assert_eq!(
        cpu.execute(&Instr::Add { rd: 8, rs: 9, rt: 10 }, &mut mem),
        Err(ExecErrorKind::ArithmeticError)
    );
    // no partial effect
    assert_eq!(cpu.get_reg(8), Ok(0));
    cpu.set_reg(9, 0x8000_0000).unwrap(); // i32::MIN
    assert_eq!(
        cpu.execute(&Instr::Sub { rd: 8, rs: 9, rt: 10 }, &mut mem),
        Err(ExecErrorKind::ArithmeticError)
    );
}

#[test]
fn wrapping_forms_do_not_trap() {
    let (mut cpu, mut mem) = fresh();
    cpu.set_reg(9, 0xFFFF_FFFF).unwrap();
    cpu.set_reg(10, 1).unwrap();
    cpu.execute(&Instr::Addu { rd: 8, rs: 9, rt: 10 }, &mut mem).unwrap();
    assert_eq!(cpu.get_reg(8), Ok(0));
    cpu.execute(&Instr::Subu { rd: 8, rs: 10, rt: 9 }, &mut mem).unwrap();
    assert_eq!(cpu.get_reg(8), Ok(2));
    cpu.execute(&Instr::Addiu { rt: 8, rs: 9, immd: 2 }, &mut mem).unwrap();
    assert_eq!(cpu.get_reg(8), Ok(1));
}

#[test]
fn shifts_and_lui() {
    let (mut cpu, mut mem) = fresh();
    cpu.set_reg(9, 0x8000_0001).unwrap();
    cpu.execute(&Instr::Sll { rd: 8, rs: 9, shamt: 1 }, &mut mem).unwrap();
    assert_eq!(cpu.get_reg(8), Ok(2));
    cpu.execute(&Instr::Srl { rd: 8, rs: 9, shamt: 31 }, &mut mem).unwrap();
    assert_eq!(cpu.get_reg(8), Ok(1));
    cpu.execute(&Instr::Lui { rt: 8, immd: 18 }, &mut mem).unwrap();
    assert_eq!(cpu.get_reg(8), Ok(18 << 16));
}

#[test]
fn mult_fills_hi_and_lo() {
    let (mut cpu, mut mem) = fresh();
    // -2 * 3 = -6: the 64-bit two's-complement spreads over HI/LO
    cpu.set_reg(9, 0xFFFF_FFFE).unwrap();
    cpu.set_reg(10, 3).unwrap();
    cpu.execute(&Instr::Mult { rs: 9, rt: 10 }, &mut mem).unwrap();
    assert_eq!(cpu.lo, 0xFFFF_FFFA);
    assert_eq!(cpu.hi, 0xFFFF_FFFF);
    // 2^30 * 4 = 2^32: high word 1, low word 0
    cpu.set_reg(9, 0x4000_0000).unwrap();
    cpu.set_reg(10, 4).unwrap();
    cpu.execute(&Instr::Mult { rs: 9, rt: 10 }, &mut mem).unwrap();
    assert_eq!(cpu.lo, 0);
    assert_eq!(cpu.hi, 1);
    cpu.execute(&Instr::Mfhi { rd: 8 }, &mut mem).unwrap();
    assert_eq!(cpu.get_reg(8), Ok(1));
    cpu.execute(&Instr::Mflo { rd: 8 }, &mut mem).unwrap();
    assert_eq!(cpu.get_reg(8), Ok(0));
}

#[test]
fn div_quotient_in_lo_remainder_in_hi() {
    let (mut cpu, mut mem) = fresh();
    cpu.set_reg(9, 7).unwrap();
    cpu.set_reg(10, 0xFFFF_FFFE).unwrap(); // -2
    cpu.execute(&Instr::Div { rs: 9, rt: 10 }, &mut mem).unwrap();
    assert_eq!(cpu.lo, 0xFFFF_FFFD); // -3, truncated toward zero
    assert_eq!(cpu.hi, 1); // remainder has the dividend's sign
    cpu.set_reg(9, 0xFFFF_FFF9).unwrap(); // -7
    cpu.set_reg(10, 2).unwrap();
    cpu.execute(&Instr::Div { rs: 9, rt: 10 }, &mut mem).unwrap();
    assert_eq!(cpu.lo, 0xFFFF_FFFD); // -3
    assert_eq!(cpu.hi, 0xFFFF_FFFF); // -1
}

#[test]
fn div_by_zero_faults_without_touching_hi_lo() {
    let mut cpu = CPU::new();
    let mut mem = Memory::new(16);
    let prog = assemble(&[
        "li $t0, 10",
        "li $t1, 5",
        "mult $t0, $t1",
        "li $t1, 0",
        "div $t0, $t1",
    ]);
    for _ in 0..4 {
        cpu.step(&prog, &mut mem).unwrap();
    }
    assert_eq!(cpu.lo, 50);
    assert_eq!(cpu.hi, 0);
    let err = cpu.step(&prog, &mut mem).unwrap_err();
    assert_eq!(err.index, 4);
    assert_eq!(err.kind, ExecErrorKind::ArithmeticError);
    assert_eq!(cpu.state, CpuState::Faulted);
    // HI and LO are exactly as before the faulting division
    assert_eq!(cpu.lo, 50);
    assert_eq!(cpu.hi, 0);
}

#[test]
fn memory_load_store_alignment_and_range() {
    let (mut cpu, mut mem) = fresh();
    assert_eq!(mem.write_word(8, 0xDEAD_BEEF), Ok(()));
    assert_eq!(mem.read_word(8), Ok(0xDEAD_BEEF));
    assert_eq!(mem.read_word(6), Err(ExecErrorKind::AlignmentError));
    assert_eq!(mem.write_word(6, 1), Err(ExecErrorKind::AlignmentError));
    assert_eq!(mem.read_word(64), Err(ExecErrorKind::AddressError));
    assert_eq!(mem.write_word(64, 1), Err(ExecErrorKind::AddressError));
    // sw then lw round trip through the engine: base $t1 = 4, offset 4
    cpu.set_reg(9, 4).unwrap();
    cpu.set_reg(8, 1234).unwrap();
    cpu.execute(&Instr::Sw { rt: 8, rs: 9, immd: 4 }, &mut mem).unwrap();
    cpu.execute(&Instr::Lw { rt: 10, rs: 9, immd: 4 }, &mut mem).unwrap();
    assert_eq!(cpu.get_reg(10), Ok(1234));
    // a misaligned access through the engine faults
    assert_eq!(
        cpu.execute(&Instr::Lw { rt: 10, rs: 9, immd: 1 }, &mut mem),
        Err(ExecErrorKind::AlignmentError)
    );
}

#[test]
fn zero_register_and_bad_operands_fault() {
    let (mut cpu, mut mem) = fresh();
    assert_eq!(
        cpu.execute(&Instr::Li { rt: 0, immd: 5 }, &mut mem),
        Err(ExecErrorKind::ZeroRegisterWrite)
    );
    assert_eq!(
        cpu.execute(&Instr::Add { rd: 2, rs: 40, rt: 1 }, &mut mem),
        Err(ExecErrorKind::OutOfBoundsRegister)
    );
    assert_eq!(cpu.get_reg(0), Ok(0));
}

#[test]
fn branch_comparisons_are_signed() {
    let (mut cpu, mut mem) = fresh();
    cpu.set_reg(8, 1).unwrap();
    cpu.set_reg(9, 0xFFFF_FFFF).unwrap(); // -1 signed
    cpu.execute(&Instr::Bgt { rt: 8, rs: 9, rel_addr: 5 }, &mut mem).unwrap();
    assert!(cpu.delay_slot_ready); // 1 > -1 signed, though not unsigned
    assert_eq!(cpu.pending_target, 6); // pc 0, plus one, plus the offset
    cpu.delay_slot_ready = false;
    cpu.execute(&Instr::Blt { rt: 8, rs: 9, rel_addr: 5 }, &mut mem).unwrap();
    assert!(!cpu.delay_slot_ready);
    cpu.execute(&Instr::Ble { rt: 9, rs: 9, rel_addr: 5 }, &mut mem).unwrap();
    assert!(cpu.delay_slot_ready); // equal operands
    cpu.delay_slot_ready = false;
    cpu.execute(&Instr::Bge { rt: 9, rs: 8, rel_addr: 5 }, &mut mem).unwrap();
    assert!(!cpu.delay_slot_ready); // -1 below 1 signed
    cpu.execute(&Instr::Bne { rt: 8, rs: 9, rel_addr: 5 }, &mut mem).unwrap();
    assert!(cpu.delay_slot_ready);
}

#[test]
fn moves_and_loads_of_constants() {
    let (mut cpu, mut mem) = fresh();
    cpu.execute(&Instr::La { rt: 8, addr: 2 }, &mut mem).unwrap();
    assert_eq!(cpu.get_reg(8), Ok(2));
    cpu.execute(&Instr::Move { rs: 9, rt: 8 }, &mut mem).unwrap();
    assert_eq!(cpu.get_reg(9), Ok(2));
    cpu.set_reg(10, 0b1100).unwrap();
    cpu.execute(&Instr::Andi { rt: 11, rs: 10, immd: 0b1010 }, &mut mem).unwrap();
    assert_eq!(cpu.get_reg(11), Ok(0b1000));
    cpu.execute(&Instr::Ori { rt: 11, rs: 10, immd: 0b1010 }, &mut mem).unwrap();
    assert_eq!(cpu.get_reg(11), Ok(0b1110));
    cpu.execute(&Instr::Mul { rd: 12, rs: 10, rt: 10 }, &mut mem).unwrap();
    assert_eq!(cpu.get_reg(12), Ok(144));
}

#[test]
fn taken_branch_executes_delay_slot_then_transfers() {
    let mut cpu = CPU::new();
    let mut mem = Memory::new(16);
    let prog = assemble(&[
        "li $t0, 1",
        "li $t1, 1",
        "beq $t0, $t1, TGT",
        "li $v0, 11",
        "li $v0, 22",
        "TGT:",
        "li $a0, 5",
    ]);
    assert_eq!(cpu.run(&prog, &mut mem, 100), Ok(true));
    assert_eq!(cpu.state, CpuState::Halted);
    // the delay slot ran, the instruction after it was skipped
    assert_eq!(cpu.get_reg(2), Ok(11));
    assert_eq!(cpu.get_reg(4), Ok(5));
}

#[test]
fn untaken_branch_falls_through_without_pending_transfer() {
    let mut cpu = CPU::new();
    let mut mem = Memory::new(16);
    let prog = assemble(&[
        "li $t0, 1",
        "li $t1, 2",
        "beq $t0, $t1, TGT",
        "li $v0, 11",
        "li $v0, 22",
        "TGT:",
        "li $a0, 5",
    ]);
    cpu.step(&prog, &mut mem).unwrap();
    cpu.step(&prog, &mut mem).unwrap();
    cpu.step(&prog, &mut mem).unwrap(); // the false branch
    assert!(!cpu.delay_slot_ready);
    assert_eq!(cpu.pc, 3);
    cpu.step(&prog, &mut mem).unwrap(); // ordinary sequential flow
    assert_eq!(cpu.get_reg(2), Ok(11));
    cpu.step(&prog, &mut mem).unwrap();
    assert_eq!(cpu.get_reg(2), Ok(22));
}

#[test]
fn jal_links_past_its_delay_slot() {
    let mut cpu = CPU::new();
    let mut mem = Memory::new(16);
    let prog = assemble(&[
        "jal FN",
        "li $t0, 1",
        "li $t1, 2",
        "FN:",
        "li $a0, 3",
    ]);
    assert_eq!(cpu.run(&prog, &mut mem, 100), Ok(true));
    // the link register skips the jal and its delay slot
    assert_eq!(cpu.get_reg(31), Ok(2));
    assert_eq!(cpu.get_reg(8), Ok(1)); // delay slot ran
    assert_eq!(cpu.get_reg(9), Ok(0)); // jumped over
    assert_eq!(cpu.get_reg(4), Ok(3));
}

#[test]
fn jr_transfers_to_register_value() {
    let mut cpu = CPU::new();
    let mut mem = Memory::new(16);
    let prog = assemble(&[
        "li $t0, 3",
        "jr $t0",
        "li $v0, 1",
        "li $a0, 7",
    ]);
    assert_eq!(cpu.run(&prog, &mut mem, 100), Ok(true));
    assert_eq!(cpu.get_reg(2), Ok(1)); // delay slot
    assert_eq!(cpu.get_reg(4), Ok(7)); // landed at index 3
}

#[test]
fn program_without_transfers_halts_past_the_end() {
    let mut cpu = CPU::new();
    let mut mem = Memory::new(16);
    let prog = assemble(&["li $t0, 5", "li $t1, 3", "add $v0, $t0, $t1"]);
    assert_eq!(cpu.run(&prog, &mut mem, 100), Ok(true));
    assert_eq!(cpu.state, CpuState::Halted);
    assert_eq!(cpu.pc, 3);
    assert_eq!(cpu.get_reg(2), Ok(8));
}

#[test]
fn end_to_end_sum_with_trailing_jr() {
    // li, li, add, jr $ra: $v0 ends as 8; the jr has no delay slot
    // instruction, which this engine reports as an address fault.
    let mut cpu = CPU::new();
    let mut mem = Memory::new(16);
    let prog = assemble(&["li $t0, 5", "li $t1, 3", "add $v0, $t0, $t1", "jr $ra"]);
    let err = cpu.run(&prog, &mut mem, 100).unwrap_err();
    assert_eq!(cpu.get_reg(2), Ok(8));
    assert_eq!(err.kind, ExecErrorKind::AddressError);
    assert_eq!(err.index, 4);
    assert_eq!(cpu.state, CpuState::Faulted);
}

#[test]
fn transfer_target_out_of_range_faults_after_delay_slot() {
    let mut cpu = CPU::new();
    let mut mem = Memory::new(16);
    let prog = vec![Instr::Jump { addr: 99 }, Instr::Li { rt: 8, immd: 1 }];
    cpu.step(&prog, &mut mem).unwrap();
    let err = cpu.step(&prog, &mut mem).unwrap_err();
    assert_eq!(cpu.get_reg(8), Ok(1)); // the delay slot still ran
    assert_eq!(err.kind, ExecErrorKind::AddressError);
    assert_eq!(cpu.state, CpuState::Faulted);
}

#[test]
fn empty_program_halts_at_once() {
    let mut cpu = CPU::new();
    let mut mem = Memory::new(16);
    let prog: Vec<Instr> = Vec::new();
    assert_eq!(cpu.run(&prog, &mut mem, 10), Ok(true));
    assert_eq!(cpu.state, CpuState::Halted);
}

#[test]
fn run_stops_when_the_step_budget_runs_out() {
    let mut cpu = CPU::new();
    let mut mem = Memory::new(16);
    let prog = assemble(&["LOOP:", "j LOOP", "li $t0, 1"]);
    assert_eq!(cpu.run(&prog, &mut mem, 50), Ok(false));
    assert_eq!(cpu.state, CpuState::Running);
}

#[test]
fn faulting_step_leaves_registers_unchanged() {
    let mut cpu = CPU::new();
    let mut mem = Memory::new(16);
    let prog = vec![Instr::Li { rt: 8, immd: 9 }, Instr::Li { rt: 0, immd: 5 }];
    cpu.step(&prog, &mut mem).unwrap();
    let err = cpu.step(&prog, &mut mem).unwrap_err();
    assert_eq!(err.kind, ExecErrorKind::ZeroRegisterWrite);
    assert_eq!(err.index, 1);
    assert_eq!(cpu.get_reg(8), Ok(9));
    assert_eq!(cpu.get_reg(0), Ok(0));
}
