use hack_textual::check::{
    check_begin, check_blocks_end, check_body, check_iids, check_sids, check_strings, check_write,
};
use hack_textual::class::IsStatic;
use hack_textual::func::{begin_func, UnitState};
use hack_textual::ir::{
    ArrayId, Block, BlockId, Call, CallDetail, Class, ClassId, Constant, ConstantId, EnforcedTy,
    FCallArgsFlags, Func, Hhbc, Instr, InstrId, LocId, LocalId, MethodId, ObjMethodOp, Predicate,
    Special, SpecialClsRef, SrcLoc, Terminator, Textual, UnnamedLocalId, ValueId,
};
use hack_textual::state::MethodInfo;
use hack_textual::strings::{StringInterner, UnitBytesId};
use hack_textual::textual::Ty;

fn unnamed(idx: usize) -> LocalId {
    LocalId::Unnamed(UnnamedLocalId { idx })
}

/// A function whose one block lists the instructions and then stops.
fn func(mut instrs: Vec<Instr>, constants: Vec<Constant>) -> Func {
    instrs.push(Instr::Terminator(Terminator::Unreachable));
    let iids = (0..instrs.len()).map(InstrId).collect();
    Func {
        blocks: vec![Block { params: Vec::new(), iids, catch_target: None }],
        constants,
        instrs,
        loc_id: LocId(0),
        locs: vec![SrcLoc {
            filename: UnitBytesId(0),
            line_begin: 1,
            col_begin: 1,
            line_end: 1,
            col_end: 1,
        }],
        params: Vec::new(),
        return_type: EnforcedTy(0),
    }
}

fn method() -> Option<MethodInfo> {
    let class = Class { name: ClassId { id: UnitBytesId(0) }, base: None };
    Some(MethodInfo { class, is_static: IsStatic::NonStatic })
}

fn emits(instr: Instr) -> bool {
    check_body(&func(vec![instr], Vec::new()), None, 0)
}

fn emits_in_method(instr: Instr) -> bool {
    check_body(&func(vec![instr], Vec::new()), method(), 0)
}

fn copies(constant: Constant) -> bool {
    let copy = Instr::Special(Special::Copy(ValueId::Constant(ConstantId(0))));
    check_body(&func(vec![copy], vec![constant]), None, 1)
}

fn call(detail: CallDetail) -> Call {
    Call {
        args: Vec::new(),
        context: None,
        detail,
        flags: FCallArgsFlags {
            has_unpack: false,
            has_generics: false,
            lock_while_unwinding: false,
            skip_repack: false,
            skip_coeffects_check: false,
            enforce_mutable_return: false,
            enforce_readonly_this: false,
            explicit_context: false,
            has_in_out: false,
            enforce_in_out: false,
            enforce_readonly: false,
            has_async_eager_offset: false,
            num_args_start: false,
        },
        num_rets: 1,
        inouts: None,
        readonly: None,
        loc: None,
    }
}

#[test]
fn operands_need_values() {
    let load = || Instr::Hhbc(Hhbc::CGetL(unnamed(0), None));
    let set = |vid| Instr::Hhbc(Hhbc::SetL(vid, unnamed(1), None));
    let value = ValueId::Instr(InstrId(0));
    assert!(check_body(&func(vec![load(), set(value)], Vec::new()), None, 0));
    // Not yet emitted, without a value, out of range, or absent.
    assert!(!check_body(&func(vec![set(ValueId::Instr(InstrId(1))), load()], Vec::new()), None, 0));
    let unset = Instr::Hhbc(Hhbc::UnsetL(unnamed(0), None));
    assert!(!check_body(&func(vec![unset, set(value)], Vec::new()), None, 0));
    assert!(!emits(set(ValueId::Instr(InstrId(9)))));
    assert!(!emits(set(ValueId::Constant(ConstantId(0)))));
    assert!(!emits(set(ValueId::Absent)));
}

#[test]
fn a_local_for_use_as_an_operand_needs_no_order() {
    let set = Instr::Hhbc(Hhbc::SetL(ValueId::Instr(InstrId(1)), unnamed(1), None));
    let deref = Instr::Special(Special::Textual(Textual::Deref(unnamed(0))));
    assert!(check_body(&func(vec![set, deref], Vec::new()), None, 0));
}

#[test]
fn strings_need_to_be_interned() {
    let string = || Instr::Special(Special::Textual(Textual::String(UnitBytesId(2))));
    assert!(check_body(&func(vec![string()], Vec::new()), None, 3));
    assert!(!check_body(&func(vec![string()], Vec::new()), None, 2));
    assert!(copies(Constant::String(UnitBytesId(0))));
    assert!(!copies(Constant::String(UnitBytesId(1))));
}

#[test]
fn some_constants_cannot_be_copied() {
    assert!(copies(Constant::Array(ArrayId(0))));
    assert!(copies(Constant::Int(1)));
    assert!(copies(Constant::Uninit));
    assert!(!copies(Constant::Dir));
    assert!(!copies(Constant::File));
    assert!(!copies(Constant::FuncCred));
    assert!(!copies(Constant::Method));
    assert!(!copies(Constant::Named(UnitBytesId(0))));
    assert!(!copies(Constant::NewCol(hack_textual::ir::CollectionType::Pair)));
}

#[test]
fn constants_can_be_operands() {
    let takes = |constant| {
        let set = Instr::Hhbc(Hhbc::SetL(ValueId::Constant(ConstantId(0)), unnamed(1), None));
        check_body(&func(vec![set], vec![constant]), None, 1)
    };
    assert!(takes(Constant::Array(ArrayId(0))));
    assert!(takes(Constant::NewCol(hack_textual::ir::CollectionType::Pair)));
    assert!(takes(Constant::Null));
    assert!(takes(Constant::Uninit));
    assert!(takes(Constant::String(UnitBytesId(0))));
    assert!(!takes(Constant::String(UnitBytesId(1))));
    assert!(takes(Constant::Dir));
    assert!(takes(Constant::File));
    assert!(takes(Constant::FuncCred));
    assert!(takes(Constant::Method));
    assert!(takes(Constant::Named(UnitBytesId(0))));
}

#[test]
fn no_string_is_held_twice() {
    let mut strings = StringInterner::new();
    assert!(check_strings(&strings));
    for text in ["a", "b", "a", "ab", ""] {
        strings.intern_str(text);
    }
    assert!(check_strings(&strings));
    strings.strings.push(b"ab".to_vec());
    assert!(!check_strings(&strings));
}

#[test]
fn instructions_of_other_passes_cannot_be_emitted() {
    assert!(!emits(Instr::Special(Special::IrToBc)));
    assert!(!emits(Instr::Special(Special::Param)));
    assert!(!emits(Instr::Special(Special::Tmp)));
    assert!(!emits(Instr::Special(Special::Tombstone)));
    assert!(!emits(Instr::Terminator(Terminator::Unreachable)));
}

#[test]
fn some_instructions_need_a_method() {
    assert!(!emits(Instr::Hhbc(Hhbc::This(None))));
    assert!(emits_in_method(Instr::Hhbc(Hhbc::This(None))));
    assert!(!emits(Instr::Hhbc(Hhbc::SelfCls(None))));
    assert!(emits_in_method(Instr::Hhbc(Hhbc::SelfCls(None))));
    let sd = || {
        Instr::Call(call(CallDetail::FCallClsMethodSD {
            clsref: SpecialClsRef::SelfCls,
            method: MethodId { id: UnitBytesId(0) },
        }))
    };
    assert!(!emits(sd()));
    assert!(emits_in_method(sd()));
}

#[test]
fn calls_that_cannot_be_emitted() {
    assert!(emits(Instr::Call(call(CallDetail::FCallFunc))));
    assert!(!emits(Instr::Call(call(CallDetail::FCallCtor))));

    let mut readonly = call(CallDetail::FCallFunc);
    readonly.readonly = Some(vec![0]);
    assert!(!emits(Instr::Call(readonly)));

    let mut context = call(CallDetail::FCallFunc);
    context.context = Some(UnitBytesId(0));
    assert!(!emits(Instr::Call(context)));

    for (flavor, expected) in
        [(ObjMethodOp::NullThrows, true), (ObjMethodOp::NullSafe, false)]
    {
        let obj = call(CallDetail::FCallObjMethodD {
            flavor,
            method: MethodId { id: UnitBytesId(0) },
            obj: ValueId::Constant(ConstantId(0)),
        });
        let f = func(vec![Instr::Call(obj)], vec![Constant::Null]);
        assert_eq!(check_body(&f, None, 1), expected);
    }
}

#[test]
fn locations_need_to_exist() {
    assert!(emits(Instr::Hhbc(Hhbc::CGetL(unnamed(0), Some(LocId(0))))));
    assert!(!emits(Instr::Hhbc(Hhbc::CGetL(unnamed(0), Some(LocId(1))))));
}

#[test]
fn no_instruction_has_two_values() {
    let mut f = func(vec![Instr::Hhbc(Hhbc::CGetL(unnamed(0), None))], Vec::new());
    assert!(check_body(&f, None, 0));
    f.blocks[0].iids.insert(0, InstrId(0));
    assert!(!check_body(&f, None, 0));

    let mut f = func(Vec::new(), Vec::new());
    f.blocks[0].params = vec![InstrId(4), InstrId(5)];
    assert!(check_body(&f, None, 0));
    f.blocks[0].params = vec![InstrId(4), InstrId(4)];
    assert!(!check_body(&f, None, 0));
}

#[test]
fn blocks_end_with_terminators() {
    let mut f = func(Vec::new(), Vec::new());
    assert!(check_blocks_end(&f));
    f.blocks[0].iids.clear();
    assert!(!check_blocks_end(&f));
    assert!(!check_body(&f, None, 0));

    let mut f = func(vec![Instr::Hhbc(Hhbc::CGetL(unnamed(0), None))], Vec::new());
    f.blocks[0].iids.pop();
    assert!(!check_blocks_end(&f));
    assert!(!check_body(&f, None, 0));

    let mut f = func(Vec::new(), Vec::new());
    f.blocks[0].iids[0] = InstrId(3);
    assert!(!check_blocks_end(&f));
}

#[test]
fn conditional_jumps_go_to_blocks() {
    for (target, expected) in [(0, true), (1, false)] {
        let mut f = func(Vec::new(), Vec::new());
        f.instrs[0] = Instr::Terminator(Terminator::JmpOp {
            cond: ValueId::Constant(ConstantId(0)),
            pred: Predicate::Zero,
            true_bid: BlockId(0),
            false_bid: BlockId(target),
            loc: None,
        });
        assert_eq!(check_blocks_end(&f), expected);
    }
}

#[test]
fn listed_instructions_exist() {
    let mut f = func(Vec::new(), Vec::new());
    assert!(check_iids(&f));
    f.blocks[0].iids.insert(0, InstrId(1));
    assert!(!check_iids(&f));
}

#[test]
fn values_are_counted() {
    assert!(check_sids(&func(Vec::new(), Vec::new())));
}

#[test]
fn what_can_be_prepared_and_written() {
    let mut unit = UnitState { strings: StringInterner::new(), base_var: unnamed(9) };
    let named = |id| Instr::Hhbc(Hhbc::CGetL(LocalId::Named(UnitBytesId(id)), None));
    // The name of the local is not interned.
    assert!(!check_begin(&unit, &func(vec![named(0)], Vec::new())));
    unit.strings.intern_str("$a");
    assert!(check_begin(&unit, &func(vec![named(0)], Vec::new())));
    assert!(!check_begin(&unit, &func(vec![named(1)], Vec::new())));

    let mut f = func(Vec::new(), Vec::new());
    f.loc_id = LocId(1);
    assert!(!check_begin(&unit, &f));

    let f = func(vec![named(0)], Vec::new());
    let mut prepared = begin_func(&mut unit, UnitBytesId(0), Ty::VoidPtr, f, None);
    assert!(check_write(&prepared, &unit.strings));
    prepared.body.blocks[0].iids.insert(0, InstrId(0));
    assert!(!check_write(&prepared, &unit.strings));
    prepared.body.blocks[0].iids.remove(0);
    prepared.params.clear();
    assert!(!check_write(&prepared, &unit.strings));
}
