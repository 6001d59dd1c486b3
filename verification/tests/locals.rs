use std::cmp::Ordering;

use hack_textual::ir::{
    Block, EnforcedTy, Func, Hhbc, IncDecOp, Instr, InstrId, LocId, LocalId, MemberOp, Special,
    Terminator, Textual, UnnamedLocalId, ValueId,
};
use hack_textual::locals::{add_local, body_locals, cmp_lid, declared_locals, holds_local};
use hack_textual::strings::StringInterner;

fn unnamed(idx: usize) -> LocalId {
    LocalId::Unnamed(UnnamedLocalId { idx })
}

fn named(strings: &mut StringInterner, name: &str) -> LocalId {
    LocalId::Named(strings.intern_str(name))
}

/// A function whose one block lists all instructions.
fn func(instrs: Vec<Instr>) -> Func {
    let iids = (0..instrs.len()).map(InstrId).collect();
    Func {
        blocks: vec![Block { params: Vec::new(), iids, catch_target: None }],
        constants: Vec::new(),
        instrs,
        loc_id: LocId(0),
        locs: Vec::new(),
        params: Vec::new(),
        return_type: EnforcedTy(0),
    }
}

fn get(lid: LocalId) -> Instr {
    Instr::Hhbc(Hhbc::CGetL(lid, None))
}

#[test]
fn named_locals_are_ordered_by_their_names() {
    let mut strings = StringInterner::new();
    // Interned in another order than the one of the names.
    let b = named(&mut strings, "$b");
    let ab = named(&mut strings, "$ab");
    let a = named(&mut strings, "$a");
    assert_eq!(cmp_lid(&strings, &a, &b), Ordering::Less);
    assert_eq!(cmp_lid(&strings, &b, &a), Ordering::Greater);
    assert_eq!(cmp_lid(&strings, &a, &ab), Ordering::Less);
    assert_eq!(cmp_lid(&strings, &ab, &a), Ordering::Greater);
    assert_eq!(cmp_lid(&strings, &ab, &b), Ordering::Less);
    assert_eq!(cmp_lid(&strings, &a, &a), Ordering::Equal);
}

#[test]
fn names_are_ordered_by_bytes() {
    let mut strings = StringInterner::new();
    let high = LocalId::Named(strings.intern_bytes(b"$\xff"));
    let low = LocalId::Named(strings.intern_bytes(b"$\x01zzz"));
    let empty = LocalId::Named(strings.intern_bytes(b""));
    assert_eq!(cmp_lid(&strings, &low, &high), Ordering::Less);
    assert_eq!(cmp_lid(&strings, &empty, &low), Ordering::Less);
}

#[test]
fn named_locals_come_before_unnamed_ones() {
    let mut strings = StringInterner::new();
    let z = named(&mut strings, "$z");
    assert_eq!(cmp_lid(&strings, &z, &unnamed(0)), Ordering::Less);
    assert_eq!(cmp_lid(&strings, &unnamed(0), &z), Ordering::Greater);
    assert_eq!(cmp_lid(&strings, &unnamed(2), &unnamed(10)), Ordering::Less);
    assert_eq!(cmp_lid(&strings, &unnamed(10), &unnamed(2)), Ordering::Greater);
    assert_eq!(cmp_lid(&strings, &unnamed(2), &unnamed(2)), Ordering::Equal);
}

#[test]
fn the_order_of_names_is_the_same_under_other_ids() {
    let mut strings = StringInterner::new();
    let x = named(&mut strings, "$x");
    let y = named(&mut strings, "$y");
    let mut others = StringInterner::new();
    let w = named(&mut others, "$y");
    let v = named(&mut others, "$x");
    assert_eq!(cmp_lid(&strings, &x, &y), cmp_lid(&others, &v, &w));
}

#[test]
fn declared_locals_are_sorted_and_without_parameters() {
    let mut strings = StringInterner::new();
    let b = named(&mut strings, "$b");
    let a = named(&mut strings, "$a");
    let p = named(&mut strings, "$p");
    let f = func(vec![get(unnamed(7)), get(b), get(unnamed(3)), get(p), get(a), get(b)]);
    assert_eq!(
        declared_locals(&f, &vec![p], &strings),
        vec![a, b, unnamed(3), unnamed(7)]
    );
}

#[test]
fn the_order_of_the_instructions_does_not_matter() {
    let mut strings = StringInterner::new();
    let b = named(&mut strings, "$b");
    let a = named(&mut strings, "$a");
    let one = func(vec![get(unnamed(1)), get(b), get(a)]);
    let other = func(vec![get(a), get(unnamed(1)), get(b), get(a)]);
    assert_eq!(
        declared_locals(&one, &Vec::new(), &strings),
        declared_locals(&other, &Vec::new(), &strings)
    );
}

#[test]
fn instructions_that_name_locals() {
    let instrs = vec![
        Instr::Hhbc(Hhbc::CGetL(unnamed(0), None)),
        Instr::Hhbc(Hhbc::CUGetL(unnamed(1), None)),
        Instr::Hhbc(Hhbc::ConsumeL(unnamed(2), None)),
        Instr::Hhbc(Hhbc::IncDecL(unnamed(3), IncDecOp::PreInc, None)),
        Instr::Hhbc(Hhbc::SetL(ValueId::Absent, unnamed(4), None)),
        Instr::Hhbc(Hhbc::UnsetL(unnamed(5), None)),
        Instr::Hhbc(Hhbc::Other {
            text: "IsUnsetL".to_string(),
            operands: Vec::new(),
            locals: vec![unnamed(6), unnamed(7)],
            loc: None,
        }),
        Instr::MemberOp(MemberOp {
            operands: Vec::new(),
            locals: vec![unnamed(8)],
            loc: None,
        }),
        Instr::Special(Special::Textual(Textual::Deref(unnamed(9)))),
        Instr::Hhbc(Hhbc::This(None)),
        Instr::Terminator(Terminator::Other {
            text: "iter_init".to_string(),
            locals: vec![unnamed(10)],
            loc: None,
        }),
    ];
    let found = body_locals(&func(instrs));
    assert_eq!(found, (0..11).map(unnamed).collect::<Vec<_>>());
}

#[test]
fn only_listed_instructions_name_locals() {
    let mut f = func(vec![get(unnamed(0)), get(unnamed(1))]);
    f.blocks[0].iids.pop();
    assert_eq!(body_locals(&f), vec![unnamed(0)]);
}

#[test]
fn a_local_is_added_once() {
    let mut list = vec![unnamed(1)];
    add_local(&mut list, unnamed(2));
    add_local(&mut list, unnamed(1));
    assert_eq!(list, vec![unnamed(1), unnamed(2)]);
    assert!(holds_local(&list, unnamed(2)));
    assert!(!holds_local(&list, unnamed(3)));
}
