use mips_sim::isa::{Instr, ParsedInstr};
use mips_sim::resolve::{resolve, ResolveError};

fn parse_program(lines: &[&str]) -> Vec<ParsedInstr> {
    let mut items = Vec::new();
    for line in lines {
        items.push(ParsedInstr::from_str(&line.to_string()).unwrap());
    }
    items
}

#[test]
fn forward_branch_offset_lands_on_label() {
    // The branch sits at emitted index 0; END names index 3.
    let items = parse_program(&[
        "beq $t0, $t1, END",
        "li $t0, 1",
        "li $t0, 2",
        "END:",
        "li $t0, 3",
    ]);
    let prog = resolve(&items).unwrap();
    assert_eq!(prog.len(), 4);
    match prog[0] {
        Instr::Beq { rt, rs, rel_addr } => {
            assert_eq!((rt, rs), (8, 9));
            // offset measured from the instruction after the branch
            assert_eq!(rel_addr + (0 + 1), 3);
        }
        other => panic!("expected a resolved branch, got {:?}", other),
    }
}

#[test]
fn backward_branch_offset_is_negative() {
    let items = parse_program(&[
        "TOP:",
        "li $t0, 1",
        "bne $t0, $t1, TOP",
        "li $t0, 2",
    ]);
    let prog = resolve(&items).unwrap();
    match prog[1] {
        Instr::Bne { rel_addr, .. } => assert_eq!(rel_addr + (1 + 1), 0),
        other => panic!("expected a resolved branch, got {:?}", other),
    }
}

#[test]
fn jump_resolves_to_absolute_index_anywhere() {
    // The same target from two different positions: the operand is the
    // target's index both times.
    let items = parse_program(&[
        "j TARGET",
        "li $t0, 1",
        "TARGET:",
        "li $t0, 2",
        "j TARGET",
    ]);
    let prog = resolve(&items).unwrap();
    assert_eq!(prog[0], Instr::Jump { addr: 2 });
    assert_eq!(prog[3], Instr::Jump { addr: 2 });
}

#[test]
fn jal_and_la_resolve_to_absolute_index() {
    let items = parse_program(&[
        "la $t0, DATA",
        "jal DATA",
        "DATA:",
        "li $t0, 2",
    ]);
    let prog = resolve(&items).unwrap();
    assert_eq!(prog[0], Instr::La { rt: 8, addr: 2 });
    assert_eq!(prog[1], Instr::Jal { addr: 2 });
}

#[test]
fn labels_and_blank_lines_occupy_no_slot() {
    let items = parse_program(&[
        "A:",
        "",
        "li $t0, 1",
        "B:",
        "li $t0, 2",
        "j A",
        "j B",
    ]);
    let prog = resolve(&items).unwrap();
    assert_eq!(prog.len(), 4);
    assert_eq!(prog[2], Instr::Jump { addr: 0 });
    assert_eq!(prog[3], Instr::Jump { addr: 1 });
}

#[test]
fn unresolved_label_is_reported_by_name() {
    let items = parse_program(&["li $t0, 1", "j NOWHERE"]);
    match resolve(&items).unwrap_err() {
        ResolveError::UnresolvedLabel(name) => assert_eq!(name, "NOWHERE"),
        other => panic!("expected an unresolved label, got {:?}", other),
    }
}

#[test]
fn duplicate_label_is_reported_by_name() {
    let items = parse_program(&["X:", "li $t0, 1", "X:", "li $t0, 2"]);
    match resolve(&items).unwrap_err() {
        ResolveError::DuplicateLabel(name) => assert_eq!(name, "X"),
        other => panic!("expected a duplicate label, got {:?}", other),
    }
}

#[test]
fn plain_instructions_pass_through_unchanged() {
    let items = parse_program(&["add $v0, $t1, $t2", "lw $t0, 4($sp)"]);
    let prog = resolve(&items).unwrap();
    assert_eq!(prog[0], Instr::Add { rd: 2, rs: 9, rt: 10 });
    assert_eq!(prog[1], Instr::Lw { rt: 8, rs: 29, immd: 4 });
}
