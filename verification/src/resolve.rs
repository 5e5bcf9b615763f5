//! Two-pass symbolic-address resolution.
//!
//! Pass one walks the decoded items in source order and gives every label
//! the address (instruction index) of the next instruction that will be
//! emitted; a redefined label is an error. Pass two rewrites every
//! label-referencing instruction into its concrete form: branches get the
//! offset from the instruction after the branch to the label, jumps and
//! load-address instructions get the label's absolute index. Two passes
//! are used so that labels defined after the instructions that reference
//! them (forward references) resolve without backpatching.

use vstd::prelude::*;

use crate::isa::{Instr, ParsedInstr, ParsedInstrV};

verus! {

/// Resolution failures: a reference to a label that is never defined, or
/// a label defined more than once.
#[derive(Debug)]
pub enum ResolveError {
    UnresolvedLabel(String),
    DuplicateLabel(String),
}

/// Whether a decoded item occupies an instruction slot: labels and blank
/// lines do not.
pub open spec fn emits(p: ParsedInstrV) -> bool {
    !(p is Label) && !(p is Empty)
}

/// The items that occupy instruction slots, in source order: the program
/// before (pass two) and after (pass one counting) address rewriting.
pub open spec fn emitted(s: Seq<ParsedInstrV>) -> Seq<ParsedInstrV>
    decreases s.len(),
{
    if s.len() == 0 {
        Seq::empty()
    } else if emits(s.last()) {
        emitted(s.drop_last()).push(s.last())
    } else {
        emitted(s.drop_last())
    }
}

/// Whether `p` defines label `n`.
pub open spec fn is_label_def(p: ParsedInstrV, n: Seq<char>) -> bool {
    p matches ParsedInstrV::Label(m) && m == n
}

/// The address label `n` denotes: the number of instructions emitted
/// before its definition. A later definition shadows an earlier one, but
/// resolution only succeeds when no label is defined twice.
pub open spec fn label_addr(s: Seq<ParsedInstrV>, n: Seq<char>) -> Option<int>
    decreases s.len(),
{
    if s.len() == 0 {
        None
    } else if is_label_def(s.last(), n) {
        Some(emitted(s.drop_last()).len() as int)
    } else {
        label_addr(s.drop_last(), n)
    }
}

/// Whether some label is defined twice.
pub open spec fn has_dup_label(s: Seq<ParsedInstrV>) -> bool {
    exists|j: int, k: int, n: Seq<char>|
        #![trigger is_label_def(s[j], n), is_label_def(s[k], n)]
        0 <= j < k < s.len() && is_label_def(s[j], n) && is_label_def(s[k], n)
}

/// The label a decoded item references, if any.
pub open spec fn refs_label(p: ParsedInstrV) -> Option<Seq<char>> {
    match p {
        ParsedInstrV::Beq { label, .. } => Some(label),
        ParsedInstrV::Bne { label, .. } => Some(label),
        ParsedInstrV::Bgt { label, .. } => Some(label),
        ParsedInstrV::Bge { label, .. } => Some(label),
        ParsedInstrV::Blt { label, .. } => Some(label),
        ParsedInstrV::Ble { label, .. } => Some(label),
        ParsedInstrV::Jump { label, .. } => Some(label),
        ParsedInstrV::Jal { label, .. } => Some(label),
        ParsedInstrV::La { label, .. } => Some(label),
        _ => None,
    }
}

/// Every label reference has a definition.
pub open spec fn all_refs_resolve(s: Seq<ParsedInstrV>) -> bool {
    forall|j: int|
        0 <= j < s.len() ==> (#[trigger] refs_label(s[j]) matches Some(n) ==> label_addr(s, n)
            is Some)
}

/// The resolved form of the item at emitted index `idx`: a plain
/// instruction passes through unchanged; a branch gets offset
/// `label_addr - (idx + 1)`, measured from the instruction after the
/// branch; a jump or load-address gets the label's absolute index.
pub open spec fn resolve_entry(p: ParsedInstrV, idx: int, s: Seq<ParsedInstrV>) -> Option<Instr> {
    match p {
        ParsedInstrV::I(i) => Some(i),
        ParsedInstrV::Beq { rt, rs, label } => match label_addr(s, label) {
            Some(a) => Some(Instr::Beq { rt, rs, rel_addr: (a - (idx + 1)) as i32 }),
            None => None,
        },
        ParsedInstrV::Bne { rt, rs, label } => match label_addr(s, label) {
            Some(a) => Some(Instr::Bne { rt, rs, rel_addr: (a - (idx + 1)) as i32 }),
            None => None,
        },
        ParsedInstrV::Bgt { rt, rs, label } => match label_addr(s, label) {
            Some(a) => Some(Instr::Bgt { rt, rs, rel_addr: (a - (idx + 1)) as i32 }),
            None => None,
        },
        ParsedInstrV::Bge { rt, rs, label } => match label_addr(s, label) {
            Some(a) => Some(Instr::Bge { rt, rs, rel_addr: (a - (idx + 1)) as i32 }),
            None => None,
        },
        ParsedInstrV::Blt { rt, rs, label } => match label_addr(s, label) {
            Some(a) => Some(Instr::Blt { rt, rs, rel_addr: (a - (idx + 1)) as i32 }),
            None => None,
        },
        ParsedInstrV::Ble { rt, rs, label } => match label_addr(s, label) {
            Some(a) => Some(Instr::Ble { rt, rs, rel_addr: (a - (idx + 1)) as i32 }),
            None => None,
        },
        ParsedInstrV::Jump { label } => match label_addr(s, label) {
            Some(a) => Some(Instr::Jump { addr: a as u32 }),
            None => None,
        },
        ParsedInstrV::Jal { label } => match label_addr(s, label) {
            Some(a) => Some(Instr::Jal { addr: a as u32 }),
            None => None,
        },
        ParsedInstrV::La { rt, label } => match label_addr(s, label) {
            Some(a) => Some(Instr::La { rt, addr: a as u32 }),
            None => None,
        },
        ParsedInstrV::Label(_) => None,
        ParsedInstrV::Empty => None,
    }
}

/// A defined label address is the address of some definition in `s`.
proof fn lemma_label_addr_defined(s: Seq<ParsedInstrV>, n: Seq<char>)
    ensures
        label_addr(s, n) is Some <==> exists|j: int|
            0 <= j < s.len() && #[trigger] is_label_def(s[j], n),
    decreases s.len(),
{
    if s.len() > 0 {
        lemma_label_addr_defined(s.drop_last(), n);
        if is_label_def(s.last(), n) {
            assert(is_label_def(s[s.len() - 1], n));
        } else if label_addr(s.drop_last(), n) is Some {
            let j = choose|j: int|
                0 <= j < s.drop_last().len() && #[trigger] is_label_def(s.drop_last()[j], n);
            assert(is_label_def(s[j], n));
        } else {
            assert(forall|j: int| 0 <= j < s.len() - 1 ==> s[j] == s.drop_last()[j]);
        }
    }
}

/// The symbol table of pass one: the value of `get` on it equals
/// `label_addr` over the items walked so far.
spec fn tbl_get(t: Seq<(String, u32)>, n: Seq<char>) -> Option<u32>
    decreases t.len(),
{
    if t.len() == 0 {
        None
    } else if t.last().0@ == n {
        Some(t.last().1)
    } else {
        tbl_get(t.drop_last(), n)
    }
}

/// A table entry read as a mathematical address.
spec fn tbl_opt(o: Option<u32>) -> Option<int> {
    match o {
        Some(a) => Some(a as int),
        None => None,
    }
}

/// Linear lookup in the pass-one symbol table, latest entry first.
fn tbl_lookup(table: &Vec<(String, u32)>, name: &String) -> (r: Option<u32>)
    ensures
        r == tbl_get(table@, name@),
{
    proof {
        assert(table@.take(table@.len() as int) =~= table@);
    }
    let mut j = table.len();
    while j > 0
        invariant
            j <= table@.len(),
            tbl_get(table@, name@) == tbl_get(table@.take(j as int), name@),
        decreases j,
    {
        j = j - 1;
        proof {
            assert(table@.take(j + 1).drop_last() =~= table@.take(j as int));
            assert(table@.take(j + 1).last() == table@[j as int]);
        }
        let entry = &table[j];
        if entry.0 == *name {
            return Some(entry.1);
        }
    }
    None
}

/// Resolve a decoded item stream into an executable program.
///
/// Succeeds exactly when no label is defined twice and every referenced
/// label is defined; the program then holds, in order, every
/// slot-occupying item rewritten by `resolve_entry`. A duplicate label is
/// reported over an unresolved reference, each by name.
pub fn resolve(items: &Vec<ParsedInstr>) -> (r: Result<Vec<Instr>, ResolveError>)
    requires
        items@.len() <= 0x7FFF_FFFF,
    ensures
        match r {
            Ok(prog) => {
                &&& !has_dup_label(items.deep_view())
                &&& all_refs_resolve(items.deep_view())
                &&& prog@.len() == emitted(items.deep_view()).len()
                &&& forall|k: int|
                    0 <= k < prog@.len() ==> Some(#[trigger] prog@[k]) == resolve_entry(
                        emitted(items.deep_view())[k],
                        k,
                        items.deep_view(),
                    )
            },
            Err(ResolveError::DuplicateLabel(n)) => has_dup_label(items.deep_view())
                && (exists|j: int, k: int|
                    0 <= j < k < items.deep_view().len() && is_label_def(
                        #[trigger] items.deep_view()[j],
                        n@,
                    ) && is_label_def(#[trigger] items.deep_view()[k], n@)),
            Err(ResolveError::UnresolvedLabel(n)) => !has_dup_label(items.deep_view())
                && label_addr(items.deep_view(), n@) is None && (exists|j: int|
                0 <= j < items.deep_view().len() && refs_label(#[trigger] items.deep_view()[j])
                    == Some(n@)),
        },
{
    let ghost vs = items.deep_view();
    // Pass one: collect label addresses.
    let mut table: Vec<(String, u32)> = Vec::new();
    let mut counter: u32 = 0;
    let mut i: usize = 0;
    while i < items.len()
        invariant
            vs == items.deep_view(),
            items@.len() <= 0x7FFF_FFFF,
            i <= vs.len(),
            vs.len() == items@.len(),
            counter as int == emitted(vs.take(i as int)).len(),
            counter <= i,
            !has_dup_label(vs.take(i as int)),
            forall|n: Seq<char>|
                tbl_opt(#[trigger] tbl_get(table@, n)) == label_addr(vs.take(i as int), n),
            forall|n: Seq<char>|
                match #[trigger] tbl_get(table@, n) {
                    Some(a) => a <= i,
                    None => true,
                },
        decreases vs.len() - i,
    {
        proof {
            assert(vs.take(i + 1).drop_last() =~= vs.take(i as int));
            assert(vs.take(i + 1).last() == vs[i as int]);
        }
        let item = &items[i];
        proof {
            assert(item@ == vs[i as int]);
        }
        match item {
            ParsedInstr::Label(name) => {
                match tbl_lookup(&table, name) {
                    Some(_) => {
                        proof {
                            lemma_label_addr_defined(vs.take(i as int), name@);
                            let j = choose|j: int|
                                0 <= j < i && #[trigger] is_label_def(
                                    vs.take(i as int)[j],
                                    name@,
                                );
                            assert(is_label_def(vs[j], name@));
                            assert(is_label_def(vs[i as int], name@));
                        }
                        return Err(ResolveError::DuplicateLabel(name.clone()));
                    },
                    None => {
                        let ghost pre_table = table@;
                        table.push((name.clone(), counter));
                        proof {
                            assert(table@.drop_last() =~= pre_table);
                            assert forall|n: Seq<char>|
                                tbl_opt(#[trigger] tbl_get(table@, n)) == label_addr(
                                    vs.take(i + 1),
                                    n,
                                ) by {
                                if n == name@ {
                                    assert(tbl_get(table@, n) == Some(counter));
                                    assert(is_label_def(vs.take(i + 1).last(), n));
                                } else {
                                    assert(tbl_get(table@, n) == tbl_get(pre_table, n));
                                    assert(!is_label_def(vs.take(i + 1).last(), n));
                                    assert(tbl_opt(tbl_get(pre_table, n)) == label_addr(
                                        vs.take(i as int),
                                        n,
                                    ));
                                }
                            }
                            assert forall|n: Seq<char>|
                                match #[trigger] tbl_get(table@, n) {
                                    Some(a) => a <= i + 1,
                                    None => true,
                                } by {
                                if n != name@ {
                                    assert(tbl_get(table@, n) == tbl_get(pre_table, n));
                                }
                            }
                            lemma_label_addr_defined(vs.take(i as int), name@);
                            assert forall|k2: int, j2: int, n2: Seq<char>|
                                #![trigger is_label_def(vs.take(i + 1)[j2], n2), is_label_def(vs.take(i + 1)[k2], n2)]
                                0 <= j2 < k2 < i + 1 && is_label_def(vs.take(i + 1)[j2], n2)
                                    && is_label_def(vs.take(i + 1)[k2], n2) implies false by {
                                if k2 < i {
                                    assert(is_label_def(vs.take(i as int)[j2], n2));
                                    assert(is_label_def(vs.take(i as int)[k2], n2));
                                } else {
                                    assert(n2 == name@);
                                    assert(is_label_def(vs.take(i as int)[j2], n2));
                                }
                            }
                        }
                    },
                }
            },
            ParsedInstr::Empty => {},
            _ => {
                counter = counter + 1;
            },
        }
        i = i + 1;
    }
    proof {
        assert(vs.take(vs.len() as int) =~= vs);
    }
    // Pass two: rewrite label references into concrete addresses.
    let mut prog: Vec<Instr> = Vec::new();
    let mut k: u32 = 0;
    let mut i2: usize = 0;
    while i2 < items.len()
        invariant
            vs == items.deep_view(),
            items@.len() <= 0x7FFF_FFFF,
            i2 <= vs.len(),
            vs.len() == items@.len(),
            !has_dup_label(vs),
            forall|n: Seq<char>| tbl_opt(#[trigger] tbl_get(table@, n)) == label_addr(vs, n),
            forall|n: Seq<char>|
                match #[trigger] tbl_get(table@, n) {
                    Some(a) => a <= vs.len(),
                    None => true,
                },
            k as int == emitted(vs.take(i2 as int)).len(),
            k <= i2,
            prog@.len() == k as int,
            forall|j: int|
                0 <= j < k ==> Some(#[trigger] prog@[j]) == resolve_entry(
                    emitted(vs.take(i2 as int))[j],
                    j,
                    vs,
                ),
            forall|j: int|
                0 <= j < i2 ==> (#[trigger] refs_label(vs[j]) matches Some(n) ==> label_addr(
                    vs,
                    n,
                ) is Some),
        decreases vs.len() - i2,
    {
        proof {
            assert(vs.take(i2 + 1).drop_last() =~= vs.take(i2 as int));
            assert(vs.take(i2 + 1).last() == vs[i2 as int]);
        }
        let item = &items[i2];
        proof {
            assert(item@ == vs[i2 as int]);
        }
        match item {
            ParsedInstr::Label(_) => {},
            ParsedInstr::Empty => {},
            ParsedInstr::I(inner) => {
                prog.push(*inner);
                k = k + 1;
            },
            ParsedInstr::Beq { rt, rs, label } => {
                let a = match tbl_lookup(&table, label) {
                    Some(a) => a,
                    None => return Err(ResolveError::UnresolvedLabel(label.clone())),
                };
                prog.push(Instr::Beq { rt: *rt, rs: *rs, rel_addr: rel_of(a, k) });
                k = k + 1;
            },
            ParsedInstr::Bne { rt, rs, label } => {
                let a = match tbl_lookup(&table, label) {
                    Some(a) => a,
                    None => return Err(ResolveError::UnresolvedLabel(label.clone())),
                };
                prog.push(Instr::Bne { rt: *rt, rs: *rs, rel_addr: rel_of(a, k) });
                k = k + 1;
            },
            ParsedInstr::Bgt { rt, rs, label } => {
                let a = match tbl_lookup(&table, label) {
                    Some(a) => a,
                    None => return Err(ResolveError::UnresolvedLabel(label.clone())),
                };
                prog.push(Instr::Bgt { rt: *rt, rs: *rs, rel_addr: rel_of(a, k) });
                k = k + 1;
            },
            ParsedInstr::Bge { rt, rs, label } => {
                let a = match tbl_lookup(&table, label) {
                    Some(a) => a,
                    None => return Err(ResolveError::UnresolvedLabel(label.clone())),
                };
                prog.push(Instr::Bge { rt: *rt, rs: *rs, rel_addr: rel_of(a, k) });
                k = k + 1;
            },
            ParsedInstr::Blt { rt, rs, label } => {
                let a = match tbl_lookup(&table, label) {
                    Some(a) => a,
                    None => return Err(ResolveError::UnresolvedLabel(label.clone())),
                };
                prog.push(Instr::Blt { rt: *rt, rs: *rs, rel_addr: rel_of(a, k) });
                k = k + 1;
            },
            ParsedInstr::Ble { rt, rs, label } => {
                let a = match tbl_lookup(&table, label) {
                    Some(a) => a,
                    None => return Err(ResolveError::UnresolvedLabel(label.clone())),
                };
                prog.push(Instr::Ble { rt: *rt, rs: *rs, rel_addr: rel_of(a, k) });
                k = k + 1;
            },
            ParsedInstr::Jump { label } => {
                let a = match tbl_lookup(&table, label) {
                    Some(a) => a,
                    None => return Err(ResolveError::UnresolvedLabel(label.clone())),
                };
                prog.push(Instr::Jump { addr: a });
                k = k + 1;
            },
            ParsedInstr::Jal { label } => {
                let a = match tbl_lookup(&table, label) {
                    Some(a) => a,
                    None => return Err(ResolveError::UnresolvedLabel(label.clone())),
                };
                prog.push(Instr::Jal { addr: a });
                k = k + 1;
            },
            ParsedInstr::La { rt, label } => {
                let a = match tbl_lookup(&table, label) {
                    Some(a) => a,
                    None => return Err(ResolveError::UnresolvedLabel(label.clone())),
                };
                prog.push(Instr::La { rt: *rt, addr: a });
                k = k + 1;
            },
        }
        i2 = i2 + 1;
    }
    proof {
        assert(vs.take(vs.len() as int) =~= vs);
    }
    Ok(prog)
}

/// The branch offset from emitted index `k` to label address `a`,
/// measured from the instruction after the branch.
fn rel_of(a: u32, k: u32) -> (r: i32)
    requires
        a <= 0x7FFF_FFFF,
        k < 0x7FFF_FFFF,
    ensures
        r as int == a - (k + 1),
{
    let diff = a as i64 - (k as i64 + 1);
    diff as i32
}

/// Resolving a branch lands it on its label: the relative offset, added
/// to the branch's own emitted index plus one, equals the address of the
/// label it references — whether the label is defined before or after the
/// branch in the source.
pub proof fn lemma_branch_offset(
    p: ParsedInstrV,
    idx: int,
    s: Seq<ParsedInstrV>,
    rt: u32,
    rs: u32,
    label: Seq<char>,
    a: int,
)
    requires
        p == (ParsedInstrV::Beq { rt, rs, label }) || p == (ParsedInstrV::Bne { rt, rs, label })
            || p == (ParsedInstrV::Bgt { rt, rs, label }) || p == (ParsedInstrV::Bge {
            rt,
            rs,
            label,
        }) || p == (ParsedInstrV::Blt { rt, rs, label }) || p == (ParsedInstrV::Ble {
            rt,
            rs,
            label,
        }),
        label_addr(s, label) == Some(a),
        0 <= a <= 0x7FFF_FFFF,
        0 <= idx < 0x7FFF_FFFF,
    ensures
        resolve_entry(p, idx, s) matches Some(i) && crate::cpu::branch_fields(i) matches Some(f)
            && f.0 == rt && f.1 == rs && f.2 + (idx + 1) == a,
{
}

/// An absolute jump resolves to the referenced label's own instruction
/// index, independent of where the jump stands in the program.
pub proof fn lemma_jump_absolute(idx: int, s: Seq<ParsedInstrV>, label: Seq<char>, a: int)
    requires
        label_addr(s, label) == Some(a),
        0 <= a <= 0xFFFF_FFFF,
    ensures
        resolve_entry(ParsedInstrV::Jump { label }, idx, s) == Some(
            Instr::Jump { addr: a as u32 },
        ),
        resolve_entry(ParsedInstrV::Jal { label }, idx, s) == Some(Instr::Jal { addr: a as u32 }),
{
}

} // verus!
