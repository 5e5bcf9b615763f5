//! Rendering a resolved instruction back to assembly text, and the
//! decode/render round trip.
//!
//! `spec_render_tokens` gives the operand tokens an instruction prints
//! as; `Instr::render` joins them in the usual assembly layout (memory
//! forms use the `offset(base)` shape). For every instruction form that
//! the text decoder accepts, decoding the rendered tokens gives the
//! instruction back.

use vstd::prelude::*;
use vstd::string::StringExecFns;

use crate::decode::{all_digits, dec_u32, dec_val, digit_val, is_digit, spec_decode_instr,
    spec_decode_parsed};
use crate::isa::{reg_as_str, reg_index, reg_name, strip_sigils, Instr, ParsedInstrV};

verus! {

pub open spec fn digit_char(d: int) -> char {
    if d == 0 { '0' }
    else if d == 1 { '1' }
    else if d == 2 { '2' }
    else if d == 3 { '3' }
    else if d == 4 { '4' }
    else if d == 5 { '5' }
    else if d == 6 { '6' }
    else if d == 7 { '7' }
    else if d == 8 { '8' }
    else { '9' }
}

/// The decimal spelling of a nonnegative integer.
pub open spec fn dec_string(n: int) -> Seq<char>
    decreases n,
{
    if n < 10 {
        seq![digit_char(n)]
    } else {
        dec_string(n / 10).push(digit_char(n % 10))
    }
}

/// The decimal spelling of a signed offset.
pub open spec fn dec_string_i32(v: i32) -> Seq<char> {
    if v < 0 {
        seq!['-'] + dec_string(-(v as int))
    } else {
        dec_string(v as int)
    }
}

/// The mnemonic and operand tokens an instruction renders as, in the
/// order the decoder reads them back.
pub open spec fn spec_render_tokens(i: Instr) -> Seq<Seq<char>> {
    match i {
        Instr::Add { rd, rs, rt } => seq!["add"@, reg_name(rd), reg_name(rs), reg_name(rt)],
        Instr::Sub { rd, rs, rt } => seq!["sub"@, reg_name(rd), reg_name(rs), reg_name(rt)],
        Instr::Addu { rd, rs, rt } => seq!["addu"@, reg_name(rd), reg_name(rs), reg_name(rt)],
        Instr::Subu { rd, rs, rt } => seq!["subu"@, reg_name(rd), reg_name(rs), reg_name(rt)],
        Instr::Mul { rd, rs, rt } => seq!["mul"@, reg_name(rd), reg_name(rs), reg_name(rt)],
        Instr::And { rd, rs, rt } => seq!["and"@, reg_name(rd), reg_name(rs), reg_name(rt)],
        Instr::Or { rd, rs, rt } => seq!["or"@, reg_name(rd), reg_name(rs), reg_name(rt)],
        Instr::Slt { rd, rs, rt } => seq!["slt"@, reg_name(rd), reg_name(rs), reg_name(rt)],
        Instr::Addi { rt, rs, immd } => seq![
            "addi"@,
            reg_name(rt),
            reg_name(rs),
            dec_string(immd as int),
        ],
        Instr::Addiu { rt, rs, immd } => seq![
            "addiu"@,
            reg_name(rt),
            reg_name(rs),
            dec_string(immd as int),
        ],
        Instr::Andi { rt, rs, immd } => seq![
            "andi"@,
            reg_name(rt),
            reg_name(rs),
            dec_string(immd as int),
        ],
        Instr::Ori { rt, rs, immd } => seq![
            "ori"@,
            reg_name(rt),
            reg_name(rs),
            dec_string(immd as int),
        ],
        Instr::Slti { rt, rs, immd } => seq![
            "slti"@,
            reg_name(rt),
            reg_name(rs),
            dec_string(immd as int),
        ],
        Instr::Sltiu { rt, rs, immd } => seq![
            "sltiu"@,
            reg_name(rt),
            reg_name(rs),
            dec_string(immd as int),
        ],
        Instr::Mult { rs, rt } => seq!["mult"@, reg_name(rs), reg_name(rt)],
        Instr::Div { rs, rt } => seq!["div"@, reg_name(rs), reg_name(rt)],
        Instr::Move { rs, rt } => seq!["move"@, reg_name(rs), reg_name(rt)],
        Instr::Sll { rd, rs, shamt } => seq![
            "sll"@,
            reg_name(rd),
            reg_name(rs),
            dec_string(shamt as int),
        ],
        Instr::Srl { rd, rs, shamt } => seq![
            "srl"@,
            reg_name(rd),
            reg_name(rs),
            dec_string(shamt as int),
        ],
        Instr::Lw { rt, rs, immd } => seq![
            "lw"@,
            reg_name(rt),
            dec_string(immd as int),
            reg_name(rs),
        ],
        Instr::Sw { rt, rs, immd } => seq![
            "sw"@,
            reg_name(rt),
            dec_string(immd as int),
            reg_name(rs),
        ],
        Instr::Lui { rt, immd } => seq!["lui"@, reg_name(rt), dec_string(immd as int)],
        Instr::La { rt, addr } => seq!["la"@, reg_name(rt), dec_string(addr as int)],
        Instr::Li { rt, immd } => seq!["li"@, reg_name(rt), dec_string(immd as int)],
        Instr::Mfhi { rd } => seq!["mfhi"@, reg_name(rd)],
        Instr::Mflo { rd } => seq!["mflo"@, reg_name(rd)],
        Instr::Jr { rd } => seq!["jr"@, reg_name(rd)],
        Instr::Beq { rt, rs, rel_addr } => seq![
            "beq"@,
            reg_name(rt),
            reg_name(rs),
            dec_string_i32(rel_addr),
        ],
        Instr::Bne { rt, rs, rel_addr } => seq![
            "bne"@,
            reg_name(rt),
            reg_name(rs),
            dec_string_i32(rel_addr),
        ],
        Instr::Bgt { rt, rs, rel_addr } => seq![
            "bgt"@,
            reg_name(rt),
            reg_name(rs),
            dec_string_i32(rel_addr),
        ],
        Instr::Bge { rt, rs, rel_addr } => seq![
            "bge"@,
            reg_name(rt),
            reg_name(rs),
            dec_string_i32(rel_addr),
        ],
        Instr::Blt { rt, rs, rel_addr } => seq![
            "blt"@,
            reg_name(rt),
            reg_name(rs),
            dec_string_i32(rel_addr),
        ],
        Instr::Ble { rt, rs, rel_addr } => seq![
            "ble"@,
            reg_name(rt),
            reg_name(rs),
            dec_string_i32(rel_addr),
        ],
        Instr::Jump { addr } => seq!["j"@, dec_string(addr as int)],
        Instr::Jal { addr } => seq!["jal"@, dec_string(addr as int)],
    }
}

/// The text an instruction renders as: the tokens joined in assembly
/// layout, with the memory forms written `offset(base)`.
pub open spec fn spec_render_text(i: Instr) -> Seq<char> {
    let t = spec_render_tokens(i);
    if i is Lw || i is Sw {
        t[0] + " "@ + t[1] + ", "@ + t[2] + "("@ + t[3] + ")"@
    } else if t.len() == 4 {
        t[0] + " "@ + t[1] + ", "@ + t[2] + ", "@ + t[3]
    } else if t.len() == 3 {
        t[0] + " "@ + t[1] + ", "@ + t[2]
    } else {
        t[0] + " "@ + t[1]
    }
}

/// The decimal spelling of a word.
fn u32_to_dec(n: u32) -> (r: String)
    ensures
        r@ == dec_string(n as int),
    decreases n,
{
    if n < 10 {
        let r = digit_str(n);
        proof {
            assert(r@ =~= seq![digit_char(n as int)]);
        }
        r
    } else {
        let mut r = u32_to_dec(n / 10);
        let d = digit_str(n % 10);
        r.append(d.as_str());
        proof {
            assert(r@ =~= dec_string(n as int / 10).push(digit_char(n as int % 10)));
        }
        r
    }
}

/// One decimal digit as text.
fn digit_str(d: u32) -> (r: String)
    requires
        d < 10,
    ensures
        r@ == seq![digit_char(d as int)],
{
    let r = if d == 0 { "0".to_owned() }
    else if d == 1 { "1".to_owned() }
    else if d == 2 { "2".to_owned() }
    else if d == 3 { "3".to_owned() }
    else if d == 4 { "4".to_owned() }
    else if d == 5 { "5".to_owned() }
    else if d == 6 { "6".to_owned() }
    else if d == 7 { "7".to_owned() }
    else { "8".to_owned() };
    let r = if d == 9 { "9".to_owned() } else { r };
    proof {
        reveal_strlit("0");
        reveal_strlit("1");
        reveal_strlit("2");
        reveal_strlit("3");
        reveal_strlit("4");
        reveal_strlit("5");
        reveal_strlit("6");
        reveal_strlit("7");
        reveal_strlit("8");
        reveal_strlit("9");
        assert(r@ =~= seq![digit_char(d as int)]);
    }
    r
}

/// The decimal spelling of a signed offset.
fn i32_to_dec(v: i32) -> (r: String)
    ensures
        r@ == dec_string_i32(v),
{
    if v >= 0 {
        let r = u32_to_dec(v as u32);
        r
    } else {
        let mag = (-(v as i64)) as u32;
        let mut r = "-".to_owned();
        let d = u32_to_dec(mag);
        r.append(d.as_str());
        proof {
            reveal_strlit("-");
            assert(r@ =~= seq!['-'] + dec_string(-(v as int)));
        }
        r
    }
}

/// Join the mnemonic and three operands.
fn join3(m: &str, a: String, b: String, c: String) -> (r: String)
    ensures
        r@ == m@ + " "@ + a@ + ", "@ + b@ + ", "@ + c@,
{
    let mut r = m.to_owned();
    r.append(" ");
    r.append(a.as_str());
    r.append(", ");
    r.append(b.as_str());
    r.append(", ");
    r.append(c.as_str());
    r
}

/// Join the mnemonic and two operands.
fn join2(m: &str, a: String, b: String) -> (r: String)
    ensures
        r@ == m@ + " "@ + a@ + ", "@ + b@,
{
    let mut r = m.to_owned();
    r.append(" ");
    r.append(a.as_str());
    r.append(", ");
    r.append(b.as_str());
    r
}

/// Join the mnemonic and one operand.
fn join1(m: &str, a: String) -> (r: String)
    ensures
        r@ == m@ + " "@ + a@,
{
    let mut r = m.to_owned();
    r.append(" ");
    r.append(a.as_str());
    r
}

/// Join a memory form: `m a, b(c)`.
fn join_mem(m: &str, a: String, b: String, c: String) -> (r: String)
    ensures
        r@ == m@ + " "@ + a@ + ", "@ + b@ + "("@ + c@ + ")"@,
{
    let mut r = m.to_owned();
    r.append(" ");
    r.append(a.as_str());
    r.append(", ");
    r.append(b.as_str());
    r.append("(");
    r.append(c.as_str());
    r.append(")");
    r
}

impl Instr {
    /// The assembly text of the instruction, with canonical register
    /// names: exactly `spec_render_text`.
    pub fn render(&self) -> (r: String)
        ensures
            r@ == spec_render_text(*self),
    {
        match *self {
            Instr::Add { rd, rs, rt } => join3("add", reg_as_str(&rd), reg_as_str(&rs), reg_as_str(&rt)),
            Instr::Sub { rd, rs, rt } => join3("sub", reg_as_str(&rd), reg_as_str(&rs), reg_as_str(&rt)),
            Instr::Addu { rd, rs, rt } => join3("addu", reg_as_str(&rd), reg_as_str(&rs), reg_as_str(&rt)),
            Instr::Subu { rd, rs, rt } => join3("subu", reg_as_str(&rd), reg_as_str(&rs), reg_as_str(&rt)),
            Instr::Mul { rd, rs, rt } => join3("mul", reg_as_str(&rd), reg_as_str(&rs), reg_as_str(&rt)),
            Instr::And { rd, rs, rt } => join3("and", reg_as_str(&rd), reg_as_str(&rs), reg_as_str(&rt)),
            Instr::Or { rd, rs, rt } => join3("or", reg_as_str(&rd), reg_as_str(&rs), reg_as_str(&rt)),
            Instr::Slt { rd, rs, rt } => join3("slt", reg_as_str(&rd), reg_as_str(&rs), reg_as_str(&rt)),
            Instr::Addi { rt, rs, immd } => join3("addi", reg_as_str(&rt), reg_as_str(&rs), u32_to_dec(immd)),
            Instr::Addiu { rt, rs, immd } => join3("addiu", reg_as_str(&rt), reg_as_str(&rs), u32_to_dec(immd)),
            Instr::Andi { rt, rs, immd } => join3("andi", reg_as_str(&rt), reg_as_str(&rs), u32_to_dec(immd)),
            Instr::Ori { rt, rs, immd } => join3("ori", reg_as_str(&rt), reg_as_str(&rs), u32_to_dec(immd)),
            Instr::Slti { rt, rs, immd } => join3("slti", reg_as_str(&rt), reg_as_str(&rs), u32_to_dec(immd)),
            Instr::Sltiu { rt, rs, immd } => join3("sltiu", reg_as_str(&rt), reg_as_str(&rs), u32_to_dec(immd)),
            Instr::Mult { rs, rt } => join2("mult", reg_as_str(&rs), reg_as_str(&rt)),
            Instr::Div { rs, rt } => join2("div", reg_as_str(&rs), reg_as_str(&rt)),
            Instr::Move { rs, rt } => join2("move", reg_as_str(&rs), reg_as_str(&rt)),
            Instr::Sll { rd, rs, shamt } => join3("sll", reg_as_str(&rd), reg_as_str(&rs), u32_to_dec(shamt)),
            Instr::Srl { rd, rs, shamt } => join3("srl", reg_as_str(&rd), reg_as_str(&rs), u32_to_dec(shamt)),
            Instr::Lw { rt, rs, immd } => join_mem("lw", reg_as_str(&rt), u32_to_dec(immd), reg_as_str(&rs)),
            Instr::Sw { rt, rs, immd } => join_mem("sw", reg_as_str(&rt), u32_to_dec(immd), reg_as_str(&rs)),
            Instr::Lui { rt, immd } => join2("lui", reg_as_str(&rt), u32_to_dec(immd)),
            Instr::La { rt, addr } => join2("la", reg_as_str(&rt), u32_to_dec(addr)),
            Instr::Li { rt, immd } => join2("li", reg_as_str(&rt), u32_to_dec(immd)),
            Instr::Mfhi { rd } => join1("mfhi", reg_as_str(&rd)),
            Instr::Mflo { rd } => join1("mflo", reg_as_str(&rd)),
            Instr::Jr { rd } => join1("jr", reg_as_str(&rd)),
            Instr::Beq { rt, rs, rel_addr } => join3("beq", reg_as_str(&rt), reg_as_str(&rs), i32_to_dec(rel_addr)),
            Instr::Bne { rt, rs, rel_addr } => join3("bne", reg_as_str(&rt), reg_as_str(&rs), i32_to_dec(rel_addr)),
            Instr::Bgt { rt, rs, rel_addr } => join3("bgt", reg_as_str(&rt), reg_as_str(&rs), i32_to_dec(rel_addr)),
            Instr::Bge { rt, rs, rel_addr } => join3("bge", reg_as_str(&rt), reg_as_str(&rs), i32_to_dec(rel_addr)),
            Instr::Blt { rt, rs, rel_addr } => join3("blt", reg_as_str(&rt), reg_as_str(&rs), i32_to_dec(rel_addr)),
            Instr::Ble { rt, rs, rel_addr } => join3("ble", reg_as_str(&rt), reg_as_str(&rs), i32_to_dec(rel_addr)),
            Instr::Jump { addr } => join1("j", u32_to_dec(addr)),
            Instr::Jal { addr } => join1("jal", u32_to_dec(addr)),
        }
    }
}





/// Whether an instruction's rendering is in the text decoder's input
/// language. Branches, jumps and `la` render their resolved numeric
/// operand where the source language writes a label, so their text reads
/// back as a symbolic reference, not as the same structure.
pub open spec fn text_decodable(i: Instr) -> bool {
    !(i is Beq || i is Bne || i is Bgt || i is Bge || i is Blt || i is Ble || i is Jump
        || i is Jal || i is La)
}

/// Stripping a lone leading `$` from an otherwise sigil-free token drops
/// just that character.
proof fn lemma_strip_dollar(s: Seq<char>)
    requires
        s.len() >= 1,
        s[0] == '$',
        forall|i: int| 1 <= i < s.len() ==> s[i] != '$' && s[i] != ',',
    ensures
        strip_sigils(s) == s.drop_first(),
    decreases s.len(),
{
    if s.len() == 1 {
        assert(s.drop_last() =~= Seq::<char>::empty());
        assert(strip_sigils(Seq::<char>::empty()) =~= Seq::<char>::empty());
        assert(strip_sigils(s) =~= s.drop_first());
    } else {
        assert(forall|i: int| 1 <= i < s.len() - 1 ==> s.drop_last()[i] == s[i]);
        lemma_strip_dollar(s.drop_last());
        assert(strip_sigils(s) == strip_sigils(s.drop_last()).push(s.last()));
        assert(s.drop_last().drop_first().push(s.last()) =~= s.drop_first());
    }
}

/// A rendered decimal is one or more digits spelling its value.
proof fn lemma_dec_string_digits(n: int)
    requires
        n >= 0,
    ensures
        all_digits(dec_string(n)),
        dec_string(n).len() > 0,
        dec_val(dec_string(n)) == n,
    decreases n,
{
    if n < 10 {
        let s = dec_string(n);
        assert(s =~= seq![digit_char(n)]);
        assert(is_digit(digit_char(n)));
        assert(s.drop_last() =~= Seq::<char>::empty());
        assert(dec_val(Seq::<char>::empty()) == 0);
        assert(dec_val(s) == digit_val(digit_char(n)));
        assert(digit_val(digit_char(n)) == n);
    } else {
        lemma_dec_string_digits(n / 10);
        let s = dec_string(n / 10);
        let c = digit_char(n % 10);
        assert(dec_string(n) == s.push(c));
        assert(s.push(c).drop_last() =~= s);
        assert(s.push(c).last() == c);
        assert(is_digit(c));
        assert(all_digits(s.push(c))) by {
            assert(forall|i: int| 0 <= i < s.len() ==> s.push(c)[i] == s[i]);
        }
        assert(digit_val(c) == n % 10);
        assert(dec_val(s.push(c)) == (n / 10) * 10 + n % 10);
        assert((n / 10) * 10 + n % 10 == n) by {
            vstd::arithmetic::div_mod::lemma_fundamental_div_mod(n, 10);
        }
    }
}

/// Parsing the rendered decimal of a word gives the word back.
pub proof fn lemma_dec_round_trip(n: u32)
    ensures
        dec_u32(dec_string(n as int)) == Some(n),
{
    lemma_dec_string_digits(n as int);
}

/// Parsing the canonical name of a register gives the register back.
#[verifier::rlimit(100)]
pub proof fn lemma_reg_round_trip(r: u32)
    requires
        r < 32,
    ensures
        reg_index(strip_sigils(reg_name(r))) == Some(r),
{
    reveal_strlit("$0"); reveal_strlit("$at"); reveal_strlit("$v0"); reveal_strlit("$v1");
    reveal_strlit("$a0"); reveal_strlit("$a1"); reveal_strlit("$a2"); reveal_strlit("$a3");
    reveal_strlit("$t0"); reveal_strlit("$t1"); reveal_strlit("$t2"); reveal_strlit("$t3");
    reveal_strlit("$t4"); reveal_strlit("$t5"); reveal_strlit("$t6"); reveal_strlit("$t7");
    reveal_strlit("$s0"); reveal_strlit("$s1"); reveal_strlit("$s2"); reveal_strlit("$s3");
    reveal_strlit("$s4"); reveal_strlit("$s5"); reveal_strlit("$s6"); reveal_strlit("$s7");
    reveal_strlit("$t8"); reveal_strlit("$t9"); reveal_strlit("$k0"); reveal_strlit("$k1");
    reveal_strlit("$gp"); reveal_strlit("$sp"); reveal_strlit("$fp"); reveal_strlit("$ra");
    reveal_strlit("0"); reveal_strlit("zero"); reveal_strlit("1"); reveal_strlit("at");
    reveal_strlit("2"); reveal_strlit("v0"); reveal_strlit("3"); reveal_strlit("v1");
    reveal_strlit("4"); reveal_strlit("a0"); reveal_strlit("5"); reveal_strlit("a1");
    reveal_strlit("6"); reveal_strlit("a2"); reveal_strlit("7"); reveal_strlit("a3");
    reveal_strlit("8"); reveal_strlit("t0"); reveal_strlit("9"); reveal_strlit("t1");
    reveal_strlit("10"); reveal_strlit("t2"); reveal_strlit("11"); reveal_strlit("t3");
    reveal_strlit("12"); reveal_strlit("t4"); reveal_strlit("13"); reveal_strlit("t5");
    reveal_strlit("14"); reveal_strlit("t6"); reveal_strlit("15"); reveal_strlit("t7");
    reveal_strlit("16"); reveal_strlit("s0"); reveal_strlit("17"); reveal_strlit("s1");
    reveal_strlit("18"); reveal_strlit("s2"); reveal_strlit("19"); reveal_strlit("s3");
    reveal_strlit("20"); reveal_strlit("s4"); reveal_strlit("21"); reveal_strlit("s5");
    reveal_strlit("22"); reveal_strlit("s6"); reveal_strlit("23"); reveal_strlit("s7");
    reveal_strlit("24"); reveal_strlit("t8"); reveal_strlit("25"); reveal_strlit("t9");
    reveal_strlit("26"); reveal_strlit("k0"); reveal_strlit("27"); reveal_strlit("k1");
    reveal_strlit("28"); reveal_strlit("gp"); reveal_strlit("29"); reveal_strlit("sp");
    reveal_strlit("30"); reveal_strlit("fp"); reveal_strlit("31"); reveal_strlit("ra");
    assert("0"@ =~= seq!['0']);
    assert("zero"@ =~= seq!['z', 'e', 'r', 'o']);
    assert("1"@ =~= seq!['1']);
    assert("at"@ =~= seq!['a', 't']);
    assert("2"@ =~= seq!['2']);
    assert("v0"@ =~= seq!['v', '0']);
    assert("3"@ =~= seq!['3']);
    assert("v1"@ =~= seq!['v', '1']);
    assert("4"@ =~= seq!['4']);
    assert("a0"@ =~= seq!['a', '0']);
    assert("5"@ =~= seq!['5']);
    assert("a1"@ =~= seq!['a', '1']);
    assert("6"@ =~= seq!['6']);
    assert("a2"@ =~= seq!['a', '2']);
    assert("7"@ =~= seq!['7']);
    assert("a3"@ =~= seq!['a', '3']);
    assert("8"@ =~= seq!['8']);
    assert("t0"@ =~= seq!['t', '0']);
    assert("9"@ =~= seq!['9']);
    assert("t1"@ =~= seq!['t', '1']);
    assert("10"@ =~= seq!['1', '0']);
    assert("t2"@ =~= seq!['t', '2']);
    assert("11"@ =~= seq!['1', '1']);
    assert("t3"@ =~= seq!['t', '3']);
    assert("12"@ =~= seq!['1', '2']);
    assert("t4"@ =~= seq!['t', '4']);
    assert("13"@ =~= seq!['1', '3']);
    assert("t5"@ =~= seq!['t', '5']);
    assert("14"@ =~= seq!['1', '4']);
    assert("t6"@ =~= seq!['t', '6']);
    assert("15"@ =~= seq!['1', '5']);
    assert("t7"@ =~= seq!['t', '7']);
    assert("16"@ =~= seq!['1', '6']);
    assert("s0"@ =~= seq!['s', '0']);
    assert("17"@ =~= seq!['1', '7']);
    assert("s1"@ =~= seq!['s', '1']);
    assert("18"@ =~= seq!['1', '8']);
    assert("s2"@ =~= seq!['s', '2']);
    assert("19"@ =~= seq!['1', '9']);
    assert("s3"@ =~= seq!['s', '3']);
    assert("20"@ =~= seq!['2', '0']);
    assert("s4"@ =~= seq!['s', '4']);
    assert("21"@ =~= seq!['2', '1']);
    assert("s5"@ =~= seq!['s', '5']);
    assert("22"@ =~= seq!['2', '2']);
    assert("s6"@ =~= seq!['s', '6']);
    assert("23"@ =~= seq!['2', '3']);
    assert("s7"@ =~= seq!['s', '7']);
    assert("24"@ =~= seq!['2', '4']);
    assert("t8"@ =~= seq!['t', '8']);
    assert("25"@ =~= seq!['2', '5']);
    assert("t9"@ =~= seq!['t', '9']);
    assert("26"@ =~= seq!['2', '6']);
    assert("k0"@ =~= seq!['k', '0']);
    assert("27"@ =~= seq!['2', '7']);
    assert("k1"@ =~= seq!['k', '1']);
    assert("28"@ =~= seq!['2', '8']);
    assert("gp"@ =~= seq!['g', 'p']);
    assert("29"@ =~= seq!['2', '9']);
    assert("sp"@ =~= seq!['s', 'p']);
    assert("30"@ =~= seq!['3', '0']);
    assert("fp"@ =~= seq!['f', 'p']);
    assert("31"@ =~= seq!['3', '1']);
    assert("ra"@ =~= seq!['r', 'a']);
    lemma_strip_dollar(reg_name(r));
    if r == 0 { assert(reg_name(r).drop_first() =~= "0"@); }
    else if r == 1 { assert(reg_name(r).drop_first() =~= "at"@); }
    else if r == 2 { assert(reg_name(r).drop_first() =~= "v0"@); }
    else if r == 3 { assert(reg_name(r).drop_first() =~= "v1"@); }
    else if r == 4 { assert(reg_name(r).drop_first() =~= "a0"@); }
    else if r == 5 { assert(reg_name(r).drop_first() =~= "a1"@); }
    else if r == 6 { assert(reg_name(r).drop_first() =~= "a2"@); }
    else if r == 7 { assert(reg_name(r).drop_first() =~= "a3"@); }
    else if r == 8 { assert(reg_name(r).drop_first() =~= "t0"@); }
    else if r == 9 { assert(reg_name(r).drop_first() =~= "t1"@); }
    else if r == 10 { assert(reg_name(r).drop_first() =~= "t2"@); }
    else if r == 11 { assert(reg_name(r).drop_first() =~= "t3"@); }
    else if r == 12 { assert(reg_name(r).drop_first() =~= "t4"@); }
    else if r == 13 { assert(reg_name(r).drop_first() =~= "t5"@); }
    else if r == 14 { assert(reg_name(r).drop_first() =~= "t6"@); }
    else if r == 15 { assert(reg_name(r).drop_first() =~= "t7"@); }
    else if r == 16 { assert(reg_name(r).drop_first() =~= "s0"@); }
    else if r == 17 { assert(reg_name(r).drop_first() =~= "s1"@); }
    else if r == 18 { assert(reg_name(r).drop_first() =~= "s2"@); }
    else if r == 19 { assert(reg_name(r).drop_first() =~= "s3"@); }
    else if r == 20 { assert(reg_name(r).drop_first() =~= "s4"@); }
    else if r == 21 { assert(reg_name(r).drop_first() =~= "s5"@); }
    else if r == 22 { assert(reg_name(r).drop_first() =~= "s6"@); }
    else if r == 23 { assert(reg_name(r).drop_first() =~= "s7"@); }
    else if r == 24 { assert(reg_name(r).drop_first() =~= "t8"@); }
    else if r == 25 { assert(reg_name(r).drop_first() =~= "t9"@); }
    else if r == 26 { assert(reg_name(r).drop_first() =~= "k0"@); }
    else if r == 27 { assert(reg_name(r).drop_first() =~= "k1"@); }
    else if r == 28 { assert(reg_name(r).drop_first() =~= "gp"@); }
    else if r == 29 { assert(reg_name(r).drop_first() =~= "sp"@); }
    else if r == 30 { assert(reg_name(r).drop_first() =~= "fp"@); }
    else { assert(reg_name(r).drop_first() =~= "ra"@); }
}


/// Decoding the rendered tokens of a well-formed instruction yields the
/// instruction itself, both at the resolved-instruction level and at the
/// line level (where it reads back as a plain instruction, not as a
/// label, a blank line or a symbolic reference). This is the
/// decode/render round trip for every form in the text decoder's input
/// language; control transfers render their resolved numeric operand
/// where the source language writes a label, so they are outside it.
#[verifier::rlimit(100)]
pub proof fn lemma_render_decode_round_trip(i: Instr)
    requires
        i.wf(),
        text_decodable(i),
    ensures
        spec_decode_instr(spec_render_tokens(i)) == Ok::<Instr, crate::isa::DecodeReason>(i),
        spec_decode_parsed(spec_render_tokens(i)) == Ok::<ParsedInstrV, crate::isa::DecodeReason>(
            ParsedInstrV::I(i),
        ),
{
    reveal_strlit("add");
    reveal_strlit("addu");
    reveal_strlit("sub");
    reveal_strlit("subu");
    reveal_strlit("mul");
    reveal_strlit("and");
    reveal_strlit("or");
    reveal_strlit("slt");
    reveal_strlit("addi");
    reveal_strlit("addiu");
    reveal_strlit("andi");
    reveal_strlit("ori");
    reveal_strlit("slti");
    reveal_strlit("sltiu");
    reveal_strlit("lw");
    reveal_strlit("sw");
    reveal_strlit("mult");
    reveal_strlit("div");
    reveal_strlit("move");
    reveal_strlit("sll");
    reveal_strlit("srl");
    reveal_strlit("lui");
    reveal_strlit("li");
    reveal_strlit("mfhi");
    reveal_strlit("mflo");
    reveal_strlit("jr");
    reveal_strlit("beq");
    reveal_strlit("bne");
    reveal_strlit("bgt");
    reveal_strlit("bge");
    reveal_strlit("blt");
    reveal_strlit("ble");
    reveal_strlit("j");
    reveal_strlit("jal");
    reveal_strlit("la");
    reveal_strlit(":");
    assert("add"@ =~= seq!['a', 'd', 'd']);
    assert("addu"@ =~= seq!['a', 'd', 'd', 'u']);
    assert("sub"@ =~= seq!['s', 'u', 'b']);
    assert("subu"@ =~= seq!['s', 'u', 'b', 'u']);
    assert("mul"@ =~= seq!['m', 'u', 'l']);
    assert("and"@ =~= seq!['a', 'n', 'd']);
    assert("or"@ =~= seq!['o', 'r']);
    assert("slt"@ =~= seq!['s', 'l', 't']);
    assert("addi"@ =~= seq!['a', 'd', 'd', 'i']);
    assert("addiu"@ =~= seq!['a', 'd', 'd', 'i', 'u']);
    assert("andi"@ =~= seq!['a', 'n', 'd', 'i']);
    assert("ori"@ =~= seq!['o', 'r', 'i']);
    assert("slti"@ =~= seq!['s', 'l', 't', 'i']);
    assert("sltiu"@ =~= seq!['s', 'l', 't', 'i', 'u']);
    assert("lw"@ =~= seq!['l', 'w']);
    assert("sw"@ =~= seq!['s', 'w']);
    assert("mult"@ =~= seq!['m', 'u', 'l', 't']);
    assert("div"@ =~= seq!['d', 'i', 'v']);
    assert("move"@ =~= seq!['m', 'o', 'v', 'e']);
    assert("sll"@ =~= seq!['s', 'l', 'l']);
    assert("srl"@ =~= seq!['s', 'r', 'l']);
    assert("lui"@ =~= seq!['l', 'u', 'i']);
    assert("li"@ =~= seq!['l', 'i']);
    assert("mfhi"@ =~= seq!['m', 'f', 'h', 'i']);
    assert("mflo"@ =~= seq!['m', 'f', 'l', 'o']);
    assert("jr"@ =~= seq!['j', 'r']);
    assert("beq"@ =~= seq!['b', 'e', 'q']);
    assert("bne"@ =~= seq!['b', 'n', 'e']);
    assert("bgt"@ =~= seq!['b', 'g', 't']);
    assert("bge"@ =~= seq!['b', 'g', 'e']);
    assert("blt"@ =~= seq!['b', 'l', 't']);
    assert("ble"@ =~= seq!['b', 'l', 'e']);
    assert("j"@ =~= seq!['j']);
    assert("jal"@ =~= seq!['j', 'a', 'l']);
    assert("la"@ =~= seq!['l', 'a']);
    match i {
        Instr::Add { rd, rs, rt } | Instr::Sub { rd, rs, rt } | Instr::Addu { rd, rs, rt }
        | Instr::Subu { rd, rs, rt } | Instr::Mul { rd, rs, rt } | Instr::And { rd, rs, rt }
        | Instr::Or { rd, rs, rt } | Instr::Slt { rd, rs, rt } => {
            lemma_reg_round_trip(rd);
            lemma_reg_round_trip(rs);
            lemma_reg_round_trip(rt);
        }
        Instr::Addi { rt, rs, immd } | Instr::Addiu { rt, rs, immd }
        | Instr::Andi { rt, rs, immd } | Instr::Ori { rt, rs, immd }
        | Instr::Slti { rt, rs, immd } | Instr::Sltiu { rt, rs, immd }
        | Instr::Lw { rt, rs, immd } | Instr::Sw { rt, rs, immd } => {
            lemma_reg_round_trip(rt);
            lemma_reg_round_trip(rs);
            lemma_dec_round_trip(immd);
        }
        Instr::Mult { rs, rt } | Instr::Div { rs, rt } | Instr::Move { rs, rt } => {
            lemma_reg_round_trip(rs);
            lemma_reg_round_trip(rt);
        }
        Instr::Sll { rd, rs, shamt } | Instr::Srl { rd, rs, shamt } => {
            lemma_reg_round_trip(rd);
            lemma_reg_round_trip(rs);
            lemma_dec_round_trip(shamt);
        }
        Instr::Lui { rt, immd } | Instr::Li { rt, immd } => {
            lemma_reg_round_trip(rt);
            lemma_dec_round_trip(immd);
        }
        Instr::Mfhi { rd } | Instr::Mflo { rd } | Instr::Jr { rd } => {
            lemma_reg_round_trip(rd);
        }
        _ => {},
    }
}

} // verus!
