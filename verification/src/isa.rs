//! Instruction forms of the simulated architecture.
//!
//! `Instr` is the fully resolved form: every operand is a concrete register
//! number, immediate or address, so execution needs no further lookups.
//! `ParsedInstr` is the pre-resolution form produced by the decoder: control
//! transfers still carry the label text they reference, and label
//! definitions and blank lines appear as their own variants.

use vstd::prelude::*;
use vstd::string::StrSliceExecFns;

verus! {

/// Why a line failed to decode.
#[derive(Clone, Copy, PartialEq, Eq, Structural, Debug)]
pub enum DecodeReason {
    /// The line held no tokens where an instruction was required.
    EmptyLine,
    /// The first token is no known mnemonic.
    UnknownMnemonic,
    /// Fewer operand tokens than the mnemonic requires.
    TooFewOperands,
    /// An operand that should name a register does not.
    BadRegister,
    /// An operand that should be a decimal immediate is not one, or does
    /// not fit in a word.
    BadImmediate,
    /// A shift amount of 32 or more.
    ShiftTooLarge,
}

/// A register token with the `$` sigils and comma separators removed.
pub open spec fn strip_sigils(s: Seq<char>) -> Seq<char>
    decreases s.len(),
{
    if s.len() == 0 {
        s
    } else if s.last() == '$' || s.last() == ',' {
        strip_sigils(s.drop_last())
    } else {
        strip_sigils(s.drop_last()).push(s.last())
    }
}

/// The register a stripped operand token names: the numeric forms `0` to
/// `31` and the canonical symbolic names.
pub open spec fn reg_index(s: Seq<char>) -> Option<u32> {
    if s == "0"@ || s == "zero"@ { Some(0u32) }
    else if s == "1"@ || s == "at"@ { Some(1u32) }
    else if s == "2"@ || s == "v0"@ { Some(2u32) }
    else if s == "3"@ || s == "v1"@ { Some(3u32) }
    else if s == "4"@ || s == "a0"@ { Some(4u32) }
    else if s == "5"@ || s == "a1"@ { Some(5u32) }
    else if s == "6"@ || s == "a2"@ { Some(6u32) }
    else if s == "7"@ || s == "a3"@ { Some(7u32) }
    else if s == "8"@ || s == "t0"@ { Some(8u32) }
    else if s == "9"@ || s == "t1"@ { Some(9u32) }
    else if s == "10"@ || s == "t2"@ { Some(10u32) }
    else if s == "11"@ || s == "t3"@ { Some(11u32) }
    else if s == "12"@ || s == "t4"@ { Some(12u32) }
    else if s == "13"@ || s == "t5"@ { Some(13u32) }
    else if s == "14"@ || s == "t6"@ { Some(14u32) }
    else if s == "15"@ || s == "t7"@ { Some(15u32) }
    else if s == "16"@ || s == "s0"@ { Some(16u32) }
    else if s == "17"@ || s == "s1"@ { Some(17u32) }
    else if s == "18"@ || s == "s2"@ { Some(18u32) }
    else if s == "19"@ || s == "s3"@ { Some(19u32) }
    else if s == "20"@ || s == "s4"@ { Some(20u32) }
    else if s == "21"@ || s == "s5"@ { Some(21u32) }
    else if s == "22"@ || s == "s6"@ { Some(22u32) }
    else if s == "23"@ || s == "s7"@ { Some(23u32) }
    else if s == "24"@ || s == "t8"@ { Some(24u32) }
    else if s == "25"@ || s == "t9"@ { Some(25u32) }
    else if s == "26"@ || s == "k0"@ { Some(26u32) }
    else if s == "27"@ || s == "k1"@ { Some(27u32) }
    else if s == "28"@ || s == "gp"@ { Some(28u32) }
    else if s == "29"@ || s == "sp"@ { Some(29u32) }
    else if s == "30"@ || s == "fp"@ { Some(30u32) }
    else if s == "31"@ || s == "ra"@ { Some(31u32) }
    else { None }
}

/// The canonical display name of a register, `INVALID` past 31.
pub open spec fn reg_name(i: u32) -> Seq<char> {
    if i == 0 { "$0"@ }
    else if i == 1 { "$at"@ }
    else if i == 2 { "$v0"@ }
    else if i == 3 { "$v1"@ }
    else if i == 4 { "$a0"@ }
    else if i == 5 { "$a1"@ }
    else if i == 6 { "$a2"@ }
    else if i == 7 { "$a3"@ }
    else if i == 8 { "$t0"@ }
    else if i == 9 { "$t1"@ }
    else if i == 10 { "$t2"@ }
    else if i == 11 { "$t3"@ }
    else if i == 12 { "$t4"@ }
    else if i == 13 { "$t5"@ }
    else if i == 14 { "$t6"@ }
    else if i == 15 { "$t7"@ }
    else if i == 16 { "$s0"@ }
    else if i == 17 { "$s1"@ }
    else if i == 18 { "$s2"@ }
    else if i == 19 { "$s3"@ }
    else if i == 20 { "$s4"@ }
    else if i == 21 { "$s5"@ }
    else if i == 22 { "$s6"@ }
    else if i == 23 { "$s7"@ }
    else if i == 24 { "$t8"@ }
    else if i == 25 { "$t9"@ }
    else if i == 26 { "$k0"@ }
    else if i == 27 { "$k1"@ }
    else if i == 28 { "$gp"@ }
    else if i == 29 { "$sp"@ }
    else if i == 30 { "$fp"@ }
    else if i == 31 { "$ra"@ }
    else { "INVALID"@ }
}

/// Remove every `$` and `,` from an operand token.
fn strip_reg_token(s: &str) -> (r: Vec<char>)
    ensures
        r@ == strip_sigils(s@),
{
    let n = s.unicode_len();
    let mut r: Vec<char> = Vec::new();
    let mut i: usize = 0;
    while i < n
        invariant
            i <= n,
            n == s@.len(),
            r@ == strip_sigils(s@.take(i as int)),
        decreases n - i,
    {
        proof {
            assert(s@.take(i + 1).drop_last() =~= s@.take(i as int));
            assert(s@.take(i + 1).last() == s@[i as int]);
        }
        let c = s.get_char(i);
        if c != '$' && c != ',' {
            r.push(c);
        }
        i = i + 1;
    }
    proof {
        assert(s@.take(n as int) =~= s@);
    }
    r
}

/// Whether the stripped token spells exactly `lit`.
fn chars_eq(v: &Vec<char>, lit: &str) -> (r: bool)
    ensures
        r == (v@ == lit@),
{
    let n = lit.unicode_len();
    if v.len() != n {
        proof {
            assert(v@ != lit@) by {
                if v@ == lit@ {
                    assert(v@.len() == lit@.len());
                }
            }
        }
        return false;
    }
    let mut i: usize = 0;
    while i < n
        invariant
            i <= n,
            n == lit@.len(),
            v@.len() == n,
            forall|j: int| 0 <= j < i ==> v@[j] == lit@[j],
        decreases n - i,
    {
        if v[i] != lit.get_char(i) {
            proof {
                assert(v@ != lit@) by {
                    if v@ == lit@ {
                        assert(v@[i as int] == lit@[i as int]);
                    }
                }
            }
            return false;
        }
        i = i + 1;
    }
    proof {
        assert(v@ =~= lit@);
    }
    true
}

/// Map a register operand token to its register number: `$` sigils and
/// commas are ignored, and both numeric (`$8`) and symbolic (`$t0`)
/// spellings are accepted. Fails with `BadRegister` exactly when the
/// stripped token names no register.
pub fn parse_reg(streg: &str) -> (r: Result<u32, DecodeReason>)
    ensures
        match r {
            Ok(v) => reg_index(strip_sigils(streg@)) == Some(v),
            Err(e) => reg_index(strip_sigils(streg@)) is None && e == DecodeReason::BadRegister,
        },
{
    let st = strip_reg_token(streg);
    if chars_eq(&st, "0") || chars_eq(&st, "zero") { Ok(0) }
    else if chars_eq(&st, "1") || chars_eq(&st, "at") { Ok(1) }
    else if chars_eq(&st, "2") || chars_eq(&st, "v0") { Ok(2) }
    else if chars_eq(&st, "3") || chars_eq(&st, "v1") { Ok(3) }
    else if chars_eq(&st, "4") || chars_eq(&st, "a0") { Ok(4) }
    else if chars_eq(&st, "5") || chars_eq(&st, "a1") { Ok(5) }
    else if chars_eq(&st, "6") || chars_eq(&st, "a2") { Ok(6) }
    else if chars_eq(&st, "7") || chars_eq(&st, "a3") { Ok(7) }
    else if chars_eq(&st, "8") || chars_eq(&st, "t0") { Ok(8) }
    else if chars_eq(&st, "9") || chars_eq(&st, "t1") { Ok(9) }
    else if chars_eq(&st, "10") || chars_eq(&st, "t2") { Ok(10) }
    else if chars_eq(&st, "11") || chars_eq(&st, "t3") { Ok(11) }
    else if chars_eq(&st, "12") || chars_eq(&st, "t4") { Ok(12) }
    else if chars_eq(&st, "13") || chars_eq(&st, "t5") { Ok(13) }
    else if chars_eq(&st, "14") || chars_eq(&st, "t6") { Ok(14) }
    else if chars_eq(&st, "15") || chars_eq(&st, "t7") { Ok(15) }
    else if chars_eq(&st, "16") || chars_eq(&st, "s0") { Ok(16) }
    else if chars_eq(&st, "17") || chars_eq(&st, "s1") { Ok(17) }
    else if chars_eq(&st, "18") || chars_eq(&st, "s2") { Ok(18) }
    else if chars_eq(&st, "19") || chars_eq(&st, "s3") { Ok(19) }
    else if chars_eq(&st, "20") || chars_eq(&st, "s4") { Ok(20) }
    else if chars_eq(&st, "21") || chars_eq(&st, "s5") { Ok(21) }
    else if chars_eq(&st, "22") || chars_eq(&st, "s6") { Ok(22) }
    else if chars_eq(&st, "23") || chars_eq(&st, "s7") { Ok(23) }
    else if chars_eq(&st, "24") || chars_eq(&st, "t8") { Ok(24) }
    else if chars_eq(&st, "25") || chars_eq(&st, "t9") { Ok(25) }
    else if chars_eq(&st, "26") || chars_eq(&st, "k0") { Ok(26) }
    else if chars_eq(&st, "27") || chars_eq(&st, "k1") { Ok(27) }
    else if chars_eq(&st, "28") || chars_eq(&st, "gp") { Ok(28) }
    else if chars_eq(&st, "29") || chars_eq(&st, "sp") { Ok(29) }
    else if chars_eq(&st, "30") || chars_eq(&st, "fp") { Ok(30) }
    else if chars_eq(&st, "31") || chars_eq(&st, "ra") { Ok(31) }
    else { Err(DecodeReason::BadRegister) }
}

/// The canonical display name of register `reg_id`, `INVALID` past 31.
pub fn reg_as_str(reg_id: &u32) -> (r: String)
    ensures
        r@ == reg_name(*reg_id),
{
    let i = *reg_id;
    if i == 0 { "$0".to_owned() }
    else if i == 1 { "$at".to_owned() }
    else if i == 2 { "$v0".to_owned() }
    else if i == 3 { "$v1".to_owned() }
    else if i == 4 { "$a0".to_owned() }
    else if i == 5 { "$a1".to_owned() }
    else if i == 6 { "$a2".to_owned() }
    else if i == 7 { "$a3".to_owned() }
    else if i == 8 { "$t0".to_owned() }
    else if i == 9 { "$t1".to_owned() }
    else if i == 10 { "$t2".to_owned() }
    else if i == 11 { "$t3".to_owned() }
    else if i == 12 { "$t4".to_owned() }
    else if i == 13 { "$t5".to_owned() }
    else if i == 14 { "$t6".to_owned() }
    else if i == 15 { "$t7".to_owned() }
    else if i == 16 { "$s0".to_owned() }
    else if i == 17 { "$s1".to_owned() }
    else if i == 18 { "$s2".to_owned() }
    else if i == 19 { "$s3".to_owned() }
    else if i == 20 { "$s4".to_owned() }
    else if i == 21 { "$s5".to_owned() }
    else if i == 22 { "$s6".to_owned() }
    else if i == 23 { "$s7".to_owned() }
    else if i == 24 { "$t8".to_owned() }
    else if i == 25 { "$t9".to_owned() }
    else if i == 26 { "$k0".to_owned() }
    else if i == 27 { "$k1".to_owned() }
    else if i == 28 { "$gp".to_owned() }
    else if i == 29 { "$sp".to_owned() }
    else if i == 30 { "$fp".to_owned() }
    else if i == 31 { "$ra".to_owned() }
    else { "INVALID".to_owned() }
}

/// A fully resolved instruction. Register operands are indices below 32;
/// branch targets are signed offsets in instructions, measured from the
/// instruction after the branch; jump targets are absolute instruction
/// indices.
#[derive(Clone, Copy, PartialEq, Eq, Structural, Debug)]
pub enum Instr {
    // Arithmetic instructions
    Add { rd: u32, rs: u32, rt: u32 },
    Sub { rd: u32, rs: u32, rt: u32 },
    Addu { rd: u32, rs: u32, rt: u32 },
    Subu { rd: u32, rs: u32, rt: u32 },
    Addi { rt: u32, rs: u32, immd: u32 },
    Addiu { rt: u32, rs: u32, immd: u32 },
    // Multiplication/division instructions
    Mul { rd: u32, rs: u32, rt: u32 },
    Mult { rs: u32, rt: u32 },
    Div { rs: u32, rt: u32 },
    // Logical instructions
    And { rd: u32, rs: u32, rt: u32 },
    Or { rd: u32, rs: u32, rt: u32 },
    Andi { rt: u32, rs: u32, immd: u32 },
    Ori { rt: u32, rs: u32, immd: u32 },
    // Shift instructions
    Sll { rd: u32, rs: u32, shamt: u32 },
    Srl { rd: u32, rs: u32, shamt: u32 },
    // Data transfer
    Lw { rt: u32, rs: u32, immd: u32 },
    Sw { rt: u32, rs: u32, immd: u32 },
    Lui { rt: u32, immd: u32 },
    La { rt: u32, addr: u32 },
    Li { rt: u32, immd: u32 },
    Mfhi { rd: u32 },
    Mflo { rd: u32 },
    Move { rs: u32, rt: u32 },
    // Conditional branches; `rt` is the first written operand, `rs` the second
    Beq { rt: u32, rs: u32, rel_addr: i32 },
    Bne { rt: u32, rs: u32, rel_addr: i32 },
    Bgt { rt: u32, rs: u32, rel_addr: i32 },
    Bge { rt: u32, rs: u32, rel_addr: i32 },
    Blt { rt: u32, rs: u32, rel_addr: i32 },
    Ble { rt: u32, rs: u32, rel_addr: i32 },
    // Comparison
    Slt { rd: u32, rs: u32, rt: u32 },
    Slti { rt: u32, rs: u32, immd: u32 },
    Sltiu { rt: u32, rs: u32, immd: u32 },
    // Unconditional jumps
    Jump { addr: u32 },
    Jr { rd: u32 },
    Jal { addr: u32 },
}

impl Instr {
    /// Every register operand is a valid register index and every shift
    /// amount is below the word width. The decoder only produces
    /// well-formed instructions.
    pub open spec fn wf(self) -> bool {
        match self {
            Instr::Add { rd, rs, rt } => rd < 32 && rs < 32 && rt < 32,
            Instr::Sub { rd, rs, rt } => rd < 32 && rs < 32 && rt < 32,
            Instr::Addu { rd, rs, rt } => rd < 32 && rs < 32 && rt < 32,
            Instr::Subu { rd, rs, rt } => rd < 32 && rs < 32 && rt < 32,
            Instr::Addi { rt, rs, immd: _ } => rt < 32 && rs < 32,
            Instr::Addiu { rt, rs, immd: _ } => rt < 32 && rs < 32,
            Instr::Mul { rd, rs, rt } => rd < 32 && rs < 32 && rt < 32,
            Instr::Mult { rs, rt } => rs < 32 && rt < 32,
            Instr::Div { rs, rt } => rs < 32 && rt < 32,
            Instr::And { rd, rs, rt } => rd < 32 && rs < 32 && rt < 32,
            Instr::Or { rd, rs, rt } => rd < 32 && rs < 32 && rt < 32,
            Instr::Andi { rt, rs, immd: _ } => rt < 32 && rs < 32,
            Instr::Ori { rt, rs, immd: _ } => rt < 32 && rs < 32,
            Instr::Sll { rd, rs, shamt } => rd < 32 && rs < 32 && shamt < 32,
            Instr::Srl { rd, rs, shamt } => rd < 32 && rs < 32 && shamt < 32,
            Instr::Lw { rt, rs, immd: _ } => rt < 32 && rs < 32,
            Instr::Sw { rt, rs, immd: _ } => rt < 32 && rs < 32,
            Instr::Lui { rt, immd: _ } => rt < 32,
            Instr::La { rt, addr: _ } => rt < 32,
            Instr::Li { rt, immd: _ } => rt < 32,
            Instr::Mfhi { rd } => rd < 32,
            Instr::Mflo { rd } => rd < 32,
            Instr::Move { rs, rt } => rs < 32 && rt < 32,
            Instr::Beq { rt, rs, rel_addr: _ } => rt < 32 && rs < 32,
            Instr::Bne { rt, rs, rel_addr: _ } => rt < 32 && rs < 32,
            Instr::Bgt { rt, rs, rel_addr: _ } => rt < 32 && rs < 32,
            Instr::Bge { rt, rs, rel_addr: _ } => rt < 32 && rs < 32,
            Instr::Blt { rt, rs, rel_addr: _ } => rt < 32 && rs < 32,
            Instr::Ble { rt, rs, rel_addr: _ } => rt < 32 && rs < 32,
            Instr::Slt { rd, rs, rt } => rd < 32 && rs < 32 && rt < 32,
            Instr::Slti { rt, rs, immd: _ } => rt < 32 && rs < 32,
            Instr::Sltiu { rt, rs, immd: _ } => rt < 32 && rs < 32,
            Instr::Jump { addr: _ } => true,
            Instr::Jr { rd } => rd < 32,
            Instr::Jal { addr: _ } => true,
        }
    }
}

/// The pre-resolution form of one source line: a label definition, a blank
/// line, a fully resolved instruction, or an instruction that still refers
/// to a label by name.
#[derive(Debug)]
pub enum ParsedInstr {
    Label(String),
    I(Instr),
    Empty,
    // Conditional branches on a label; `rt` is the first written operand
    Beq { rt: u32, rs: u32, label: String },
    Bne { rt: u32, rs: u32, label: String },
    Bgt { rt: u32, rs: u32, label: String },
    Bge { rt: u32, rs: u32, label: String },
    Blt { rt: u32, rs: u32, label: String },
    Ble { rt: u32, rs: u32, label: String },
    // Unconditional jumps to a label
    Jump { label: String },
    Jal { label: String },
    // Load the address a label denotes
    La { rt: u32, label: String },
}

/// The mathematical shape of a `ParsedInstr`: label text is a sequence of
/// characters.
pub ghost enum ParsedInstrV {
    Label(Seq<char>),
    I(Instr),
    Empty,
    Beq { rt: u32, rs: u32, label: Seq<char> },
    Bne { rt: u32, rs: u32, label: Seq<char> },
    Bgt { rt: u32, rs: u32, label: Seq<char> },
    Bge { rt: u32, rs: u32, label: Seq<char> },
    Blt { rt: u32, rs: u32, label: Seq<char> },
    Ble { rt: u32, rs: u32, label: Seq<char> },
    Jump { label: Seq<char> },
    Jal { label: Seq<char> },
    La { rt: u32, label: Seq<char> },
}

impl DeepView for ParsedInstr {
    type V = ParsedInstrV;

    open spec fn deep_view(&self) -> ParsedInstrV {
        self.view()
    }
}

impl View for ParsedInstr {
    type V = ParsedInstrV;

    open spec fn view(&self) -> ParsedInstrV {
        match self {
            ParsedInstr::Label(s) => ParsedInstrV::Label(s@),
            ParsedInstr::I(i) => ParsedInstrV::I(*i),
            ParsedInstr::Empty => ParsedInstrV::Empty,
            ParsedInstr::Beq { rt, rs, label } => ParsedInstrV::Beq { rt: *rt, rs: *rs, label: label@ },
            ParsedInstr::Bne { rt, rs, label } => ParsedInstrV::Bne { rt: *rt, rs: *rs, label: label@ },
            ParsedInstr::Bgt { rt, rs, label } => ParsedInstrV::Bgt { rt: *rt, rs: *rs, label: label@ },
            ParsedInstr::Bge { rt, rs, label } => ParsedInstrV::Bge { rt: *rt, rs: *rs, label: label@ },
            ParsedInstr::Blt { rt, rs, label } => ParsedInstrV::Blt { rt: *rt, rs: *rs, label: label@ },
            ParsedInstr::Ble { rt, rs, label } => ParsedInstrV::Ble { rt: *rt, rs: *rs, label: label@ },
            ParsedInstr::Jump { label } => ParsedInstrV::Jump { label: label@ },
            ParsedInstr::Jal { label } => ParsedInstrV::Jal { label: label@ },
            ParsedInstr::La { rt, label } => ParsedInstrV::La { rt: *rt, label: label@ },
        }
    }
}

} // verus!
