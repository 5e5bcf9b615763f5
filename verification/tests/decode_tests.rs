use mips_sim::isa::{parse_reg, reg_as_str, DecodeReason, Instr, ParsedInstr};

fn s(x: &str) -> String {
    x.to_string()
}

#[test]
fn parse_reg_numeric_and_symbolic() {
    assert_eq!(parse_reg("$t5"), Ok(13));
    assert_eq!(parse_reg("t5"), Ok(13));
    assert_eq!(parse_reg("$13"), Ok(13));
    assert_eq!(parse_reg("7"), Ok(7));
    assert_eq!(parse_reg("$zero"), Ok(0));
    assert_eq!(parse_reg("$ra"), Ok(31));
    assert_eq!(parse_reg("sp,"), Ok(29));
    assert_eq!(parse_reg("$32"), Err(DecodeReason::BadRegister));
    assert_eq!(parse_reg("zz"), Err(DecodeReason::BadRegister));
    assert_eq!(parse_reg(""), Err(DecodeReason::BadRegister));
}

#[test]
fn reg_as_str_names() {
    assert_eq!(reg_as_str(&0), "$0");
    assert_eq!(reg_as_str(&8), "$t0");
    assert_eq!(reg_as_str(&29), "$sp");
    assert_eq!(reg_as_str(&31), "$ra");
    assert_eq!(reg_as_str(&99), "INVALID");
}

#[test]
fn decode_three_register_forms() {
    assert_eq!(
        Instr::from_str(&s("add $v0, $t1, $t2")).unwrap(),
        Instr::Add { rd: 2, rs: 9, rt: 10 }
    );
    assert_eq!(
        Instr::from_str(&s("subu $s0, $s1, $s2")).unwrap(),
        Instr::Subu { rd: 16, rs: 17, rt: 18 }
    );
    assert_eq!(
        Instr::from_str(&s("slt $a0, $a1, $a2")).unwrap(),
        Instr::Slt { rd: 4, rs: 5, rt: 6 }
    );
}

#[test]
fn decode_immediate_forms() {
    assert_eq!(
        Instr::from_str(&s("addi $t0, $t1, 42")).unwrap(),
        Instr::Addi { rt: 8, rs: 9, immd: 42 }
    );
    assert_eq!(
        Instr::from_str(&s("sltiu $t0, $t1, 4294967295")).unwrap(),
        Instr::Sltiu { rt: 8, rs: 9, immd: 0xFFFF_FFFF }
    );
    assert_eq!(
        Instr::from_str(&s("lui $t0, 65535")).unwrap(),
        Instr::Lui { rt: 8, immd: 65535 }
    );
    assert_eq!(Instr::from_str(&s("li $v0, 8")).unwrap(), Instr::Li { rt: 2, immd: 8 });
}

#[test]
fn decode_memory_forms() {
    assert_eq!(
        Instr::from_str(&s("lw $t0, 4($t1)")).unwrap(),
        Instr::Lw { rt: 8, rs: 9, immd: 4 }
    );
    assert_eq!(
        Instr::from_str(&s("sw $t0, 8($sp)")).unwrap(),
        Instr::Sw { rt: 8, rs: 29, immd: 8 }
    );
}

#[test]
fn decode_shift_and_two_register_forms() {
    assert_eq!(
        Instr::from_str(&s("sll $t0, $t1, 2")).unwrap(),
        Instr::Sll { rd: 8, rs: 9, shamt: 2 }
    );
    assert_eq!(
        Instr::from_str(&s("mult $t1, $t2")).unwrap(),
        Instr::Mult { rs: 9, rt: 10 }
    );
    assert_eq!(
        Instr::from_str(&s("move $t0, $t1")).unwrap(),
        Instr::Move { rs: 8, rt: 9 }
    );
    assert_eq!(Instr::from_str(&s("mfhi $t3")).unwrap(), Instr::Mfhi { rd: 11 });
    assert_eq!(Instr::from_str(&s("jr $ra")).unwrap(), Instr::Jr { rd: 31 });
}

#[test]
fn decode_rejects_bad_lines() {
    assert_eq!(
        Instr::from_str(&s("frob $t0, $t1, $t2")).unwrap_err().reason,
        DecodeReason::UnknownMnemonic
    );
    assert_eq!(
        Instr::from_str(&s("add $t0, $t1")).unwrap_err().reason,
        DecodeReason::TooFewOperands
    );
    assert_eq!(
        Instr::from_str(&s("add $t0, $t1, $zz")).unwrap_err().reason,
        DecodeReason::BadRegister
    );
    assert_eq!(
        Instr::from_str(&s("li $t0, abc")).unwrap_err().reason,
        DecodeReason::BadImmediate
    );
    assert_eq!(
        Instr::from_str(&s("li $t0, 4294967296")).unwrap_err().reason,
        DecodeReason::BadImmediate
    );
    assert_eq!(
        Instr::from_str(&s("sll $t0, $t1, 32")).unwrap_err().reason,
        DecodeReason::ShiftTooLarge
    );
    assert_eq!(Instr::from_str(&s("")).unwrap_err().reason, DecodeReason::EmptyLine);
    let e = Instr::from_str(&s("frob $t0")).unwrap_err();
    assert_eq!(e.line, "frob $t0");
}

#[test]
fn decode_parsed_line_kinds() {
    assert!(matches!(ParsedInstr::from_str(&s("")).unwrap(), ParsedInstr::Empty));
    assert!(matches!(ParsedInstr::from_str(&s("   # only a comment")).unwrap(), ParsedInstr::Empty));
    match ParsedInstr::from_str(&s("LOOP_1:")).unwrap() {
        ParsedInstr::Label(name) => assert_eq!(name, "LOOP_1"),
        other => panic!("expected a label, got {:?}", other),
    }
    match ParsedInstr::from_str(&s("beq $t0, $t1, END")).unwrap() {
        ParsedInstr::Beq { rt, rs, label } => {
            assert_eq!((rt, rs), (8, 9));
            assert_eq!(label, "END");
        }
        other => panic!("expected a symbolic branch, got {:?}", other),
    }
    match ParsedInstr::from_str(&s("j MAIN")).unwrap() {
        ParsedInstr::Jump { label } => assert_eq!(label, "MAIN"),
        other => panic!("expected a symbolic jump, got {:?}", other),
    }
    match ParsedInstr::from_str(&s("la $t0, DATA")).unwrap() {
        ParsedInstr::La { rt, label } => {
            assert_eq!(rt, 8);
            assert_eq!(label, "DATA");
        }
        other => panic!("expected a symbolic la, got {:?}", other),
    }
    match ParsedInstr::from_str(&s("add $v0, $t1, $t2")).unwrap() {
        ParsedInstr::I(i) => assert_eq!(i, Instr::Add { rd: 2, rs: 9, rt: 10 }),
        other => panic!("expected a plain instruction, got {:?}", other),
    }
    assert_eq!(
        ParsedInstr::from_str(&s("j")).unwrap_err().reason,
        DecodeReason::TooFewOperands
    );
}

#[test]
fn decode_accepts_tight_separators() {
    assert_eq!(
        Instr::from_str(&s("add $v0,$t1,$t2")).unwrap(),
        Instr::Add { rd: 2, rs: 9, rt: 10 }
    );
    assert_eq!(
        Instr::from_str(&s("  lw   $t0 , 12 ( $sp )")).unwrap(),
        Instr::Lw { rt: 8, rs: 29, immd: 12 }
    );
}

#[test]
fn decode_strips_trailing_comment() {
    assert_eq!(
        Instr::from_str(&s("add $v0, $t1, $t2 # sum the operands")).unwrap(),
        Instr::Add { rd: 2, rs: 9, rt: 10 }
    );
}

#[test]
fn render_matches_source_layout() {
    assert_eq!(
        Instr::Add { rd: 2, rs: 9, rt: 10 }.render(),
        "add $v0, $t1, $t2"
    );
    assert_eq!(Instr::Lw { rt: 8, rs: 9, immd: 4 }.render(), "lw $t0, 4($t1)");
    assert_eq!(Instr::Jr { rd: 31 }.render(), "jr $ra");
    assert_eq!(
        Instr::Beq { rt: 8, rs: 9, rel_addr: -3 }.render(),
        "beq $t0, $t1, -3"
    );
    assert_eq!(Instr::Jump { addr: 7 }.render(), "j 7");
    assert_eq!(Instr::Li { rt: 2, immd: 0 }.render(), "li $v0, 0");
}

#[test]
fn render_then_decode_round_trip() {
    let cases = vec![
        Instr::Add { rd: 2, rs: 9, rt: 10 },
        Instr::Sub { rd: 31, rs: 0, rt: 1 },
        Instr::Addu { rd: 16, rs: 17, rt: 18 },
        Instr::Subu { rd: 4, rs: 5, rt: 6 },
        Instr::Mul { rd: 7, rs: 8, rt: 9 },
        Instr::And { rd: 10, rs: 11, rt: 12 },
        Instr::Or { rd: 13, rs: 14, rt: 15 },
        Instr::Slt { rd: 19, rs: 20, rt: 21 },
        Instr::Addi { rt: 8, rs: 9, immd: 4294967295 },
        Instr::Addiu { rt: 22, rs: 23, immd: 0 },
        Instr::Andi { rt: 24, rs: 25, immd: 255 },
        Instr::Ori { rt: 26, rs: 27, immd: 65536 },
        Instr::Slti { rt: 28, rs: 29, immd: 10 },
        Instr::Sltiu { rt: 30, rs: 31, immd: 1 },
        Instr::Mult { rs: 9, rt: 10 },
        Instr::Div { rs: 11, rt: 12 },
        Instr::Move { rs: 8, rt: 9 },
        Instr::Sll { rd: 8, rs: 9, shamt: 31 },
        Instr::Srl { rd: 10, rs: 11, shamt: 0 },
        Instr::Lw { rt: 8, rs: 29, immd: 4 },
        Instr::Sw { rt: 9, rs: 30, immd: 1000 },
        Instr::Lui { rt: 12, immd: 65535 },
        Instr::Li { rt: 2, immd: 8 },
        Instr::Mfhi { rd: 3 },
        Instr::Mflo { rd: 4 },
        Instr::Jr { rd: 31 },
    ];
    for i in cases {
        let text = i.render();
        let back = Instr::from_str(&text).unwrap();
        assert_eq!(back, i, "round trip failed for {}", text);
    }
}
