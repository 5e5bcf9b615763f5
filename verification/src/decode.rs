//! The text decoder: one source line in, one decoded item out.
//!
//! A line is split into tokens on whitespace, parentheses, `$` sigils and
//! commas, with `#` comments stripped; the first token picks the operand
//! shape, the rest are register names, decimal immediates or a label. The
//! splitting itself and the label-shape test are done by the `regex`
//! crate behind two trusted wrappers; everything decided from the tokens
//! is verified.

use vstd::prelude::*;
use vstd::string::StrSliceExecFns;

use crate::isa::{DecodeReason, Instr, ParsedInstr, ParsedInstrV, parse_reg, reg_index,
    strip_sigils};

verus! {

/// A line the decoder rejected: the line itself and the reason.
#[derive(Debug)]
pub struct DecodeError {
    pub line: String,
    pub reason: DecodeReason,
}

/// The pieces that splitting a line on `[\s()$,]+|#.*` leaves, empty
/// pieces included; what the result is on a given line only the splitting
/// itself can say.
pub uninterp spec fn split_of(line: Seq<char>) -> Seq<Seq<char>>;

/// Relies on regex: `Regex::split` with the pattern `([\s()$,]+|#.*)`
/// yields the parts of the line between delimiter runs and comments, in
/// order; the result depends on the line alone.
#[verifier::external_body]
fn split_line(line: &str) -> (r: Vec<String>)
    ensures
        r.deep_view() == split_of(line@),
{
    let re = regex::Regex::new(r"([\s()$,]+|#.*)").unwrap();
    re.split(line).map(|s| s.to_string()).collect()
}

/// Whether a token has the shape of a label definition: one or more
/// letters, digits or underscores, then a colon, and nothing else.
pub open spec fn is_ident_char(c: char) -> bool {
    ('A' <= c && c <= 'Z') || ('a' <= c && c <= 'z') || ('0' <= c && c <= '9') || c == '_'
}

/// The shape of a label definition token.
pub open spec fn is_label_text(s: Seq<char>) -> bool {
    s.len() >= 2 && s.last() == ':' && forall|i: int| 0 <= i < s.len() - 1 ==> is_ident_char(s[i])
}

/// Relies on regex: `Regex::is_match` with the anchored pattern
/// `^[A-Za-z0-9_]+:$`, which holds exactly of one or more identifier
/// characters followed by a final colon.
#[verifier::external_body]
fn is_label_token(s: &str) -> (r: bool)
    ensures
        r == is_label_text(s@),
{
    let re = regex::Regex::new(r"^[A-Za-z0-9_]+:$").unwrap();
    re.is_match(s)
}

/// The non-empty pieces, in order.
pub open spec fn keep_nonempty(s: Seq<Seq<char>>) -> Seq<Seq<char>> {
    s.filter(|t: Seq<char>| t.len() > 0)
}

/// The tokens of a line: the split pieces with the empty ones dropped.
pub open spec fn tokens_of(line: Seq<char>) -> Seq<Seq<char>> {
    keep_nonempty(split_of(line))
}

/// Split a line and drop the empty pieces.
fn tokenize(line: &str) -> (r: Vec<String>)
    ensures
        r.deep_view() == tokens_of(line@),
{
    let pieces = split_line(line);
    let mut r: Vec<String> = Vec::new();
    let n = pieces.len();
    let ghost pv = pieces.deep_view();
    let mut i: usize = 0;
    while i < n
        invariant
            i <= n,
            n == pieces@.len(),
            pv == pieces.deep_view(),
            pv.len() == n,
            r.deep_view() == keep_nonempty(pv.take(i as int)),
        decreases n - i,
    {
        proof {
            reveal(Seq::filter);
            assert(pv.take(i + 1).drop_last() =~= pv.take(i as int));
            assert(pv.take(i + 1).last() == pv[i as int]);
        }
        let piece = &pieces[i];
        proof {
            assert(piece@ == pv[i as int]);
        }
        if !piece.as_str().is_empty() {
            let ghost pre = r.deep_view();
            r.push(piece.clone());
            proof {
                assert(r.deep_view() =~= pre.push(piece@));
            }
        }
        i = i + 1;
    }
    proof {
        assert(pv.take(n as int) =~= pv);
    }
    r
}

/// Whether `c` is a decimal digit.
pub open spec fn is_digit(c: char) -> bool {
    '0' <= c && c <= '9'
}

pub open spec fn digit_val(c: char) -> int {
    c as u32 - 48
}

pub open spec fn all_digits(s: Seq<char>) -> bool {
    forall|i: int| 0 <= i < s.len() ==> is_digit(#[trigger] s[i])
}

/// The value of a digit string.
pub open spec fn dec_val(s: Seq<char>) -> int
    decreases s.len(),
{
    if s.len() == 0 {
        0
    } else {
        dec_val(s.drop_last()) * 10 + digit_val(s.last())
    }
}

/// The word a decimal immediate token denotes: defined exactly for one or
/// more digits whose value fits in a word.
pub open spec fn dec_u32(s: Seq<char>) -> Option<u32> {
    if s.len() > 0 && all_digits(s) && dec_val(s) <= 0xFFFF_FFFF {
        Some(dec_val(s) as u32)
    } else {
        None
    }
}

proof fn lemma_dec_val_nonneg(s: Seq<char>)
    requires
        all_digits(s),
    ensures
        dec_val(s) >= 0,
    decreases s.len(),
{
    if s.len() > 0 {
        assert(all_digits(s.drop_last())) by {
            assert(forall|i: int| 0 <= i < s.len() - 1 ==> s.drop_last()[i] == s[i]);
        }
        lemma_dec_val_nonneg(s.drop_last());
    }
}

/// A digit string's value only grows as digits are appended.
proof fn lemma_dec_val_prefix_le(s: Seq<char>, k: int)
    requires
        all_digits(s),
        0 <= k <= s.len(),
    ensures
        dec_val(s.take(k)) <= dec_val(s),
    decreases s.len() - k,
{
    if k == s.len() {
        assert(s.take(k) =~= s);
    } else {
        assert(s.take(k + 1).drop_last() =~= s.take(k));
        assert(s.take(k + 1).last() == s[k]);
        assert(all_digits(s.take(k))) by {
            assert(forall|i: int| 0 <= i < k ==> s.take(k)[i] == s[i]);
        }
        lemma_dec_val_nonneg(s.take(k));
        assert(dec_val(s.take(k)) <= dec_val(s.take(k + 1)));
        lemma_dec_val_prefix_le(s, k + 1);
    }
}

/// Parse a decimal immediate: `None` exactly when the token is empty,
/// holds a non-digit, or does not fit in a word.
fn parse_u32(s: &str) -> (r: Option<u32>)
    ensures
        r == dec_u32(s@),
{
    let n = s.unicode_len();
    if n == 0 {
        return None;
    }
    let mut val: u64 = 0;
    let mut i: usize = 0;
    while i < n
        invariant
            i <= n,
            n == s@.len(),
            n > 0,
            all_digits(s@.take(i as int)),
            val <= 0xFFFF_FFFF,
            val as int == dec_val(s@.take(i as int)),
        decreases n - i,
    {
        proof {
            assert(s@.take(i + 1).drop_last() =~= s@.take(i as int));
            assert(s@.take(i + 1).last() == s@[i as int]);
        }
        let c = s.get_char(i);
        let d = c as u32;
        if d < 48 || d > 57 {
            return None;
        }
        assert(all_digits(s@.take(i + 1)));
        val = val * 10 + (d - 48) as u64;
        if val > 0xFFFF_FFFF {
            proof {
                if all_digits(s@) {
                    lemma_dec_val_prefix_le(s@, i + 1);
                }
            }
            return None;
        }
        i = i + 1;
    }
    proof {
        assert(s@.take(n as int) =~= s@);
    }
    Some(val as u32)
}

/// The decode of a tokenized line into a resolved instruction: the first
/// token picks the shape, too few operands or a malformed operand reject
/// the line, and extra trailing tokens are ignored. Branches, jumps and
/// `la` are not resolved forms and fall out as unknown mnemonics here;
/// they decode at the `ParsedInstr` level.
pub open spec fn spec_decode_instr(toks: Seq<Seq<char>>) -> Result<Instr, DecodeReason> {
    if toks.len() == 0 {
        Err(DecodeReason::EmptyLine)
    } else if toks[0] == "add"@ || toks[0] == "addu"@ || toks[0] == "sub"@ || toks[0] == "subu"@
        || toks[0] == "mul"@ || toks[0] == "and"@ || toks[0] == "or"@ || toks[0] == "slt"@ {
        if toks.len() < 4 {
            Err(DecodeReason::TooFewOperands)
        } else {
            match (reg_index(strip_sigils(toks[1])), reg_index(strip_sigils(toks[2])), reg_index(
                strip_sigils(toks[3]),
            )) {
                (Some(rd), Some(rs), Some(rt)) => Ok(
                    if toks[0] == "add"@ { Instr::Add { rd, rs, rt } }
                    else if toks[0] == "addu"@ { Instr::Addu { rd, rs, rt } }
                    else if toks[0] == "sub"@ { Instr::Sub { rd, rs, rt } }
                    else if toks[0] == "subu"@ { Instr::Subu { rd, rs, rt } }
                    else if toks[0] == "mul"@ { Instr::Mul { rd, rs, rt } }
                    else if toks[0] == "and"@ { Instr::And { rd, rs, rt } }
                    else if toks[0] == "or"@ { Instr::Or { rd, rs, rt } }
                    else { Instr::Slt { rd, rs, rt } },
                ),
                _ => Err(DecodeReason::BadRegister),
            }
        }
    } else if toks[0] == "addi"@ || toks[0] == "addiu"@ || toks[0] == "andi"@
        || toks[0] == "ori"@ || toks[0] == "slti"@ || toks[0] == "sltiu"@ {
        if toks.len() < 4 {
            Err(DecodeReason::TooFewOperands)
        } else {
            match (reg_index(strip_sigils(toks[1])), reg_index(strip_sigils(toks[2]))) {
                (Some(rt), Some(rs)) => match dec_u32(toks[3]) {
                    Some(immd) => Ok(
                        if toks[0] == "addi"@ { Instr::Addi { rt, rs, immd } }
                        else if toks[0] == "addiu"@ { Instr::Addiu { rt, rs, immd } }
                        else if toks[0] == "andi"@ { Instr::Andi { rt, rs, immd } }
                        else if toks[0] == "ori"@ { Instr::Ori { rt, rs, immd } }
                        else if toks[0] == "slti"@ { Instr::Slti { rt, rs, immd } }
                        else { Instr::Sltiu { rt, rs, immd } },
                    ),
                    None => Err(DecodeReason::BadImmediate),
                },
                _ => Err(DecodeReason::BadRegister),
            }
        }
    } else if toks[0] == "lw"@ || toks[0] == "sw"@ {
        if toks.len() < 4 {
            Err(DecodeReason::TooFewOperands)
        } else {
            match reg_index(strip_sigils(toks[1])) {
                Some(rt) => match dec_u32(toks[2]) {
                    Some(immd) => match reg_index(strip_sigils(toks[3])) {
                        Some(rs) => Ok(
                            if toks[0] == "lw"@ { Instr::Lw { rt, rs, immd } }
                            else { Instr::Sw { rt, rs, immd } },
                        ),
                        None => Err(DecodeReason::BadRegister),
                    },
                    None => Err(DecodeReason::BadImmediate),
                },
                None => Err(DecodeReason::BadRegister),
            }
        }
    } else if toks[0] == "mult"@ || toks[0] == "div"@ || toks[0] == "move"@ {
        if toks.len() < 3 {
            Err(DecodeReason::TooFewOperands)
        } else {
            match (reg_index(strip_sigils(toks[1])), reg_index(strip_sigils(toks[2]))) {
                (Some(rs), Some(rt)) => Ok(
                    if toks[0] == "mult"@ { Instr::Mult { rs, rt } }
                    else if toks[0] == "div"@ { Instr::Div { rs, rt } }
                    else { Instr::Move { rs, rt } },
                ),
                _ => Err(DecodeReason::BadRegister),
            }
        }
    } else if toks[0] == "sll"@ || toks[0] == "srl"@ {
        if toks.len() < 4 {
            Err(DecodeReason::TooFewOperands)
        } else {
            match (reg_index(strip_sigils(toks[1])), reg_index(strip_sigils(toks[2]))) {
                (Some(rd), Some(rs)) => match dec_u32(toks[3]) {
                    Some(shamt) => if shamt >= 32 {
                        Err(DecodeReason::ShiftTooLarge)
                    } else if toks[0] == "sll"@ {
                        Ok(Instr::Sll { rd, rs, shamt })
                    } else {
                        Ok(Instr::Srl { rd, rs, shamt })
                    },
                    None => Err(DecodeReason::BadImmediate),
                },
                _ => Err(DecodeReason::BadRegister),
            }
        }
    } else if toks[0] == "lui"@ || toks[0] == "li"@ {
        if toks.len() < 3 {
            Err(DecodeReason::TooFewOperands)
        } else {
            match reg_index(strip_sigils(toks[1])) {
                Some(rt) => match dec_u32(toks[2]) {
                    Some(immd) => Ok(
                        if toks[0] == "lui"@ { Instr::Lui { rt, immd } }
                        else { Instr::Li { rt, immd } },
                    ),
                    None => Err(DecodeReason::BadImmediate),
                },
                None => Err(DecodeReason::BadRegister),
            }
        }
    } else if toks[0] == "mfhi"@ || toks[0] == "mflo"@ || toks[0] == "jr"@ {
        if toks.len() < 2 {
            Err(DecodeReason::TooFewOperands)
        } else {
            match reg_index(strip_sigils(toks[1])) {
                Some(rd) => Ok(
                    if toks[0] == "mfhi"@ { Instr::Mfhi { rd } }
                    else if toks[0] == "mflo"@ { Instr::Mflo { rd } }
                    else { Instr::Jr { rd } },
                ),
                None => Err(DecodeReason::BadRegister),
            }
        }
    } else {
        Err(DecodeReason::UnknownMnemonic)
    }
}

/// The decode of a tokenized line into a pre-resolution item: a blank
/// line is `Empty`, branches, jumps and `la` keep their label text, a
/// lone `name:` token defines a label, and everything else decodes as a
/// resolved instruction.
pub open spec fn spec_decode_parsed(toks: Seq<Seq<char>>) -> Result<ParsedInstrV, DecodeReason> {
    if toks.len() == 0 {
        Ok(ParsedInstrV::Empty)
    } else if toks[0] == "beq"@ || toks[0] == "bne"@ || toks[0] == "bgt"@ || toks[0] == "bge"@
        || toks[0] == "blt"@ || toks[0] == "ble"@ {
        if toks.len() < 4 {
            Err(DecodeReason::TooFewOperands)
        } else {
            match (reg_index(strip_sigils(toks[1])), reg_index(strip_sigils(toks[2]))) {
                (Some(rt), Some(rs)) => Ok(
                    if toks[0] == "beq"@ { ParsedInstrV::Beq { rt, rs, label: toks[3] } }
                    else if toks[0] == "bne"@ { ParsedInstrV::Bne { rt, rs, label: toks[3] } }
                    else if toks[0] == "bgt"@ { ParsedInstrV::Bgt { rt, rs, label: toks[3] } }
                    else if toks[0] == "bge"@ { ParsedInstrV::Bge { rt, rs, label: toks[3] } }
                    else if toks[0] == "blt"@ { ParsedInstrV::Blt { rt, rs, label: toks[3] } }
                    else { ParsedInstrV::Ble { rt, rs, label: toks[3] } },
                ),
                _ => Err(DecodeReason::BadRegister),
            }
        }
    } else if toks[0] == "j"@ || toks[0] == "jal"@ {
        if toks.len() < 2 {
            Err(DecodeReason::TooFewOperands)
        } else if toks[0] == "j"@ {
            Ok(ParsedInstrV::Jump { label: toks[1] })
        } else {
            Ok(ParsedInstrV::Jal { label: toks[1] })
        }
    } else if toks[0] == "la"@ {
        if toks.len() < 3 {
            Err(DecodeReason::TooFewOperands)
        } else {
            match reg_index(strip_sigils(toks[1])) {
                Some(rt) => Ok(ParsedInstrV::La { rt, label: toks[2] }),
                None => Err(DecodeReason::BadRegister),
            }
        }
    } else if is_label_text(toks[0]) {
        Ok(ParsedInstrV::Label(toks[0].drop_last()))
    } else {
        match spec_decode_instr(toks) {
            Ok(i) => Ok(ParsedInstrV::I(i)),
            Err(k) => Err(k),
        }
    }
}

/// Decode operand tokens into a resolved instruction, exactly as
/// `spec_decode_instr` states it.
#[verifier::rlimit(100)]
pub fn decode_instr_tokens(toks: &Vec<String>) -> (r: Result<Instr, DecodeReason>)
    ensures
        match r {
            Ok(i) => spec_decode_instr(toks.deep_view()) == Ok::<Instr, DecodeReason>(i),
            Err(k) => spec_decode_instr(toks.deep_view()) == Err::<Instr, DecodeReason>(k),
        },
{
    let ghost tv = toks.deep_view();
    if toks.len() == 0 {
        return Err(DecodeReason::EmptyLine);
    }
    let m = &toks[0];
    proof {
        assert(m@ == tv[0]);
    }
    if tok_is(m, "add") || tok_is(m, "addu") || tok_is(m, "sub") || tok_is(m, "subu")
        || tok_is(m, "mul") || tok_is(m, "and") || tok_is(m, "or") || tok_is(m, "slt") {
        if toks.len() < 4 {
            return Err(DecodeReason::TooFewOperands);
        }
        proof {
            assert(toks[1]@ == tv[1]);
            assert(toks[2]@ == tv[2]);
            assert(toks[3]@ == tv[3]);
        }
        let rd = match parse_reg(toks[1].as_str()) { Ok(v) => v, Err(e) => return Err(e) };
        let rs = match parse_reg(toks[2].as_str()) { Ok(v) => v, Err(e) => return Err(e) };
        let rt = match parse_reg(toks[3].as_str()) { Ok(v) => v, Err(e) => return Err(e) };
        if tok_is(m, "add") { Ok(Instr::Add { rd, rs, rt }) }
        else if tok_is(m, "addu") { Ok(Instr::Addu { rd, rs, rt }) }
        else if tok_is(m, "sub") { Ok(Instr::Sub { rd, rs, rt }) }
        else if tok_is(m, "subu") { Ok(Instr::Subu { rd, rs, rt }) }
        else if tok_is(m, "mul") { Ok(Instr::Mul { rd, rs, rt }) }
        else if tok_is(m, "and") { Ok(Instr::And { rd, rs, rt }) }
        else if tok_is(m, "or") { Ok(Instr::Or { rd, rs, rt }) }
        else { Ok(Instr::Slt { rd, rs, rt }) }
    } else if tok_is(m, "addi") || tok_is(m, "addiu") || tok_is(m, "andi") || tok_is(m, "ori")
        || tok_is(m, "slti") || tok_is(m, "sltiu") {
        if toks.len() < 4 {
            return Err(DecodeReason::TooFewOperands);
        }
        proof {
            assert(toks[1]@ == tv[1]);
            assert(toks[2]@ == tv[2]);
            assert(toks[3]@ == tv[3]);
        }
        let rt = match parse_reg(toks[1].as_str()) { Ok(v) => v, Err(e) => return Err(e) };
        let rs = match parse_reg(toks[2].as_str()) { Ok(v) => v, Err(e) => return Err(e) };
        let immd = match parse_u32(toks[3].as_str()) {
            Some(v) => v,
            None => return Err(DecodeReason::BadImmediate),
        };
        if tok_is(m, "addi") { Ok(Instr::Addi { rt, rs, immd }) }
        else if tok_is(m, "addiu") { Ok(Instr::Addiu { rt, rs, immd }) }
        else if tok_is(m, "andi") { Ok(Instr::Andi { rt, rs, immd }) }
        else if tok_is(m, "ori") { Ok(Instr::Ori { rt, rs, immd }) }
        else if tok_is(m, "slti") { Ok(Instr::Slti { rt, rs, immd }) }
        else { Ok(Instr::Sltiu { rt, rs, immd }) }
    } else if tok_is(m, "lw") || tok_is(m, "sw") {
        if toks.len() < 4 {
            return Err(DecodeReason::TooFewOperands);
        }
        proof {
            assert(toks[1]@ == tv[1]);
            assert(toks[2]@ == tv[2]);
            assert(toks[3]@ == tv[3]);
        }
        let rt = match parse_reg(toks[1].as_str()) { Ok(v) => v, Err(e) => return Err(e) };
        let immd = match parse_u32(toks[2].as_str()) {
            Some(v) => v,
            None => return Err(DecodeReason::BadImmediate),
        };
        let rs = match parse_reg(toks[3].as_str()) { Ok(v) => v, Err(e) => return Err(e) };
        if tok_is(m, "lw") { Ok(Instr::Lw { rt, rs, immd }) }
        else { Ok(Instr::Sw { rt, rs, immd }) }
    } else if tok_is(m, "mult") || tok_is(m, "div") || tok_is(m, "move") {
        if toks.len() < 3 {
            return Err(DecodeReason::TooFewOperands);
        }
        proof {
            assert(toks[1]@ == tv[1]);
            assert(toks[2]@ == tv[2]);
        }
        let rs = match parse_reg(toks[1].as_str()) { Ok(v) => v, Err(e) => return Err(e) };
        let rt = match parse_reg(toks[2].as_str()) { Ok(v) => v, Err(e) => return Err(e) };
        if tok_is(m, "mult") { Ok(Instr::Mult { rs, rt }) }
        else if tok_is(m, "div") { Ok(Instr::Div { rs, rt }) }
        else { Ok(Instr::Move { rs, rt }) }
    } else if tok_is(m, "sll") || tok_is(m, "srl") {
        if toks.len() < 4 {
            return Err(DecodeReason::TooFewOperands);
        }
        proof {
            assert(toks[1]@ == tv[1]);
            assert(toks[2]@ == tv[2]);
            assert(toks[3]@ == tv[3]);
        }
        let rd = match parse_reg(toks[1].as_str()) { Ok(v) => v, Err(e) => return Err(e) };
        let rs = match parse_reg(toks[2].as_str()) { Ok(v) => v, Err(e) => return Err(e) };
        let shamt = match parse_u32(toks[3].as_str()) {
            Some(v) => v,
            None => return Err(DecodeReason::BadImmediate),
        };
        if shamt >= 32 {
            return Err(DecodeReason::ShiftTooLarge);
        }
        if tok_is(m, "sll") { Ok(Instr::Sll { rd, rs, shamt }) }
        else { Ok(Instr::Srl { rd, rs, shamt }) }
    } else if tok_is(m, "lui") || tok_is(m, "li") {
        if toks.len() < 3 {
            return Err(DecodeReason::TooFewOperands);
        }
        proof {
            assert(toks[1]@ == tv[1]);
            assert(toks[2]@ == tv[2]);
        }
        let rt = match parse_reg(toks[1].as_str()) { Ok(v) => v, Err(e) => return Err(e) };
        let immd = match parse_u32(toks[2].as_str()) {
            Some(v) => v,
            None => return Err(DecodeReason::BadImmediate),
        };
        if tok_is(m, "lui") { Ok(Instr::Lui { rt, immd }) }
        else { Ok(Instr::Li { rt, immd }) }
    } else if tok_is(m, "mfhi") || tok_is(m, "mflo") || tok_is(m, "jr") {
        if toks.len() < 2 {
            return Err(DecodeReason::TooFewOperands);
        }
        proof {
            assert(toks[1]@ == tv[1]);
        }
        let rd = match parse_reg(toks[1].as_str()) { Ok(v) => v, Err(e) => return Err(e) };
        if tok_is(m, "mfhi") { Ok(Instr::Mfhi { rd }) }
        else if tok_is(m, "mflo") { Ok(Instr::Mflo { rd }) }
        else { Ok(Instr::Jr { rd }) }
    } else {
        Err(DecodeReason::UnknownMnemonic)
    }
}

/// Whether a token spells `lit`.
fn tok_is(t: &String, lit: &str) -> (r: bool)
    ensures
        r == (t@ == lit@),
{
    *t == lit.to_owned()
}

/// Decode operand tokens into a pre-resolution item, exactly as
/// `spec_decode_parsed` states it.
pub fn decode_parsed_tokens(toks: &Vec<String>) -> (r: Result<ParsedInstr, DecodeReason>)
    ensures
        match r {
            Ok(p) => spec_decode_parsed(toks.deep_view()) == Ok::<ParsedInstrV, DecodeReason>(p@),
            Err(k) => spec_decode_parsed(toks.deep_view()) == Err::<ParsedInstrV, DecodeReason>(k),
        },
{
    let ghost tv = toks.deep_view();
    if toks.len() == 0 {
        return Ok(ParsedInstr::Empty);
    }
    let m = &toks[0];
    proof {
        assert(m@ == tv[0]);
    }
    if tok_is(m, "beq") || tok_is(m, "bne") || tok_is(m, "bgt") || tok_is(m, "bge")
        || tok_is(m, "blt") || tok_is(m, "ble") {
        if toks.len() < 4 {
            return Err(DecodeReason::TooFewOperands);
        }
        proof {
            assert(toks[1]@ == tv[1]);
            assert(toks[2]@ == tv[2]);
            assert(toks[3]@ == tv[3]);
        }
        let rt = match parse_reg(toks[1].as_str()) { Ok(v) => v, Err(e) => return Err(e) };
        let rs = match parse_reg(toks[2].as_str()) { Ok(v) => v, Err(e) => return Err(e) };
        let label = toks[3].clone();
        if tok_is(m, "beq") { Ok(ParsedInstr::Beq { rt, rs, label }) }
        else if tok_is(m, "bne") { Ok(ParsedInstr::Bne { rt, rs, label }) }
        else if tok_is(m, "bgt") { Ok(ParsedInstr::Bgt { rt, rs, label }) }
        else if tok_is(m, "bge") { Ok(ParsedInstr::Bge { rt, rs, label }) }
        else if tok_is(m, "blt") { Ok(ParsedInstr::Blt { rt, rs, label }) }
        else { Ok(ParsedInstr::Ble { rt, rs, label }) }
    } else if tok_is(m, "j") || tok_is(m, "jal") {
        if toks.len() < 2 {
            return Err(DecodeReason::TooFewOperands);
        }
        proof {
            assert(toks[1]@ == tv[1]);
        }
        let label = toks[1].clone();
        if tok_is(m, "j") { Ok(ParsedInstr::Jump { label }) }
        else { Ok(ParsedInstr::Jal { label }) }
    } else if tok_is(m, "la") {
        if toks.len() < 3 {
            return Err(DecodeReason::TooFewOperands);
        }
        proof {
            assert(toks[1]@ == tv[1]);
            assert(toks[2]@ == tv[2]);
        }
        let rt = match parse_reg(toks[1].as_str()) { Ok(v) => v, Err(e) => return Err(e) };
        let label = toks[2].clone();
        Ok(ParsedInstr::La { rt, label })
    } else if is_label_token(m.as_str()) {
        let n = m.as_str().unicode_len();
        let label = m.as_str().substring_char(0, n - 1).to_owned();
        proof {
            assert(label@ =~= tv[0].drop_last());
        }
        Ok(ParsedInstr::Label(label))
    } else {
        match decode_instr_tokens(toks) {
            Ok(i) => Ok(ParsedInstr::I(i)),
            Err(k) => Err(k),
        }
    }
}

impl Instr {
    /// Decode one source line as a resolved instruction: tokenize, then
    /// decode the tokens exactly as `spec_decode_instr` states. A
    /// rejected line comes back with the reason and the line itself.
    pub fn from_str(line: &String) -> (r: Result<Instr, DecodeError>)
        ensures
            match r {
                Ok(i) => spec_decode_instr(tokens_of(line@)) == Ok::<Instr, DecodeReason>(i),
                Err(e) => spec_decode_instr(tokens_of(line@)) == Err::<Instr, DecodeReason>(
                    e.reason,
                ) && e.line@ == line@,
            },
    {
        let toks = tokenize(line.as_str());
        match decode_instr_tokens(&toks) {
            Ok(i) => Ok(i),
            Err(k) => Err(DecodeError { line: line.clone(), reason: k }),
        }
    }
}

impl ParsedInstr {
    /// Decode one source line as a pre-resolution item: tokenize, then
    /// decode the tokens exactly as `spec_decode_parsed` states. A blank
    /// or comment-only line is `Empty`; a rejected line comes back with
    /// the reason and the line itself.
    pub fn from_str(line: &String) -> (r: Result<ParsedInstr, DecodeError>)
        ensures
            match r {
                Ok(p) => spec_decode_parsed(tokens_of(line@)) == Ok::<ParsedInstrV, DecodeReason>(
                    p@,
                ),
                Err(e) => spec_decode_parsed(tokens_of(line@)) == Err::<
                    ParsedInstrV,
                    DecodeReason,
                >(e.reason) && e.line@ == line@,
            },
    {
        let toks = tokenize(line.as_str());
        match decode_parsed_tokens(&toks) {
            Ok(p) => Ok(p),
            Err(k) => Err(DecodeError { line: line.clone(), reason: k }),
        }
    }
}

} // verus!
