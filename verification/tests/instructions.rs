use hack_textual::class::IsStatic;
use hack_textual::constants::write_constants;
use hack_textual::hack::{Builtin, Hhbc as BuiltinHhbc};
use hack_textual::instr::{write_copy, write_instr, write_terminator};
use hack_textual::ir::{
    ArrayId, Block, BlockId, Class, ClassId, CollectionType, ConstId, Constant, ConstantId, EnforcedTy,
    FloatBits, Func, Hhbc, IncDecOp, Instr, InstrId, LocId, LocalId, MemberOp, MethodId, Special,
    SrcLoc, Terminator, Textual, UnnamedLocalId, ValueId,
};
use hack_textual::state::{FuncState, MethodInfo};
use hack_textual::strings::{StringInterner, UnitBytesId};
use hack_textual::textual::{
    ClassRef, Const, Expr, FuncBuilder, Member, Name, Sid, Stmt, Ty, Var,
};

fn func_with(instrs: Vec<Instr>, constants: Vec<Constant>) -> Func {
    Func {
        blocks: Vec::new(),
        constants,
        instrs,
        loc_id: LocId(0),
        locs: vec![loc(1), loc(2)],
        params: Vec::new(),
        return_type: EnforcedTy(0),
    }
}

fn loc(line: i32) -> SrcLoc {
    SrcLoc {
        filename: UnitBytesId(0),
        line_begin: line,
        col_begin: 1,
        line_end: line,
        col_end: 9,
    }
}

fn local(idx: usize) -> LocalId {
    LocalId::Unnamed(UnnamedLocalId { idx })
}

fn deref(lid: LocalId) -> Expr {
    Expr::Deref(Var::Local(lid))
}

fn class(id: usize) -> ClassId {
    ClassId { id: UnitBytesId(id) }
}

fn call_expr(target: Builtin, args: Vec<Expr>) -> Expr {
    Expr::Call { target: Name::Builtin(target), args }
}

fn int_const(i: i64) -> Expr {
    Expr::Const(Const::Int(i))
}

fn method(is_static: IsStatic) -> MethodInfo {
    MethodInfo { class: Class { name: class(5), base: None }, is_static }
}

/// The statements that the instructions become, one after the other, and what
/// stands for the value of the last one.
fn emit(func: &Func, strings: StringInterner, method: Option<MethodInfo>) -> (Vec<Stmt>, Option<Expr>) {
    let mut state = FuncState::new(FuncBuilder::new(), strings, func, method);
    for i in 0..func.instrs.len() {
        write_instr(&mut state, InstrId(i));
    }
    let last = func.instrs.len() - 1;
    let value = state.iid_mapping.remove(&last);
    (state.fb.stmts, value)
}

fn emit_one(instr: Instr) -> (Vec<Stmt>, Option<Expr>) {
    emit(&func_with(vec![instr], Vec::new()), StringInterner::new(), None)
}

#[test]
fn a_local_is_loaded() {
    for instr in [
        Hhbc::CGetL(local(3), None),
        Hhbc::CUGetL(local(3), None),
        Hhbc::ConsumeL(local(3), None),
    ] {
        let (stmts, value) = emit_one(Instr::Hhbc(instr));
        assert_eq!(
            stmts,
            vec![Stmt::Load { dst: Sid(0), ty: Ty::Mixed, src: deref(local(3)) }]
        );
        assert_eq!(value, Some(Expr::Sid(Sid(0))));
    }
}

#[test]
fn the_source_location_comes_first() {
    let (stmts, _) = emit_one(Instr::Hhbc(Hhbc::CGetL(local(3), Some(LocId(1)))));
    assert_eq!(
        stmts,
        vec![
            Stmt::Loc(loc(2)),
            Stmt::Load { dst: Sid(0), ty: Ty::Mixed, src: deref(local(3)) },
        ]
    );
}

fn inc_dec(op: IncDecOp) -> (Vec<Stmt>, Option<Expr>) {
    emit_one(Instr::Hhbc(Hhbc::IncDecL(local(1), op, None)))
}

fn inc_dec_stmts(op: BuiltinHhbc) -> Vec<Stmt> {
    vec![
        Stmt::Load { dst: Sid(0), ty: Ty::Mixed, src: deref(local(1)) },
        Stmt::Call { dst: Sid(1), target: Name::Builtin(Builtin::Int), args: vec![int_const(1)] },
        Stmt::Call {
            dst: Sid(2),
            target: Name::Builtin(Builtin::Hhbc(op)),
            args: vec![Expr::Sid(Sid(0)), Expr::Sid(Sid(1))],
        },
        Stmt::Store { place: deref(local(1)), src: Expr::Sid(Sid(2)), ty: Ty::Mixed },
    ]
}

#[test]
fn increments_and_decrements() {
    let (stmts, value) = inc_dec(IncDecOp::PreInc);
    assert_eq!(stmts, inc_dec_stmts(BuiltinHhbc::Add));
    assert_eq!(value, Some(Expr::Sid(Sid(0))));

    let (stmts, value) = inc_dec(IncDecOp::PostInc);
    assert_eq!(stmts, inc_dec_stmts(BuiltinHhbc::Add));
    assert_eq!(value, Some(Expr::Sid(Sid(2))));

    let (stmts, value) = inc_dec(IncDecOp::PreDec);
    assert_eq!(stmts, inc_dec_stmts(BuiltinHhbc::Sub));
    assert_eq!(value, Some(Expr::Sid(Sid(0))));

    let (stmts, value) = inc_dec(IncDecOp::PostDec);
    assert_eq!(stmts, inc_dec_stmts(BuiltinHhbc::Sub));
    assert_eq!(value, Some(Expr::Sid(Sid(2))));
}

#[test]
fn a_class_constant_is_a_global() {
    let cid = ConstId { id: UnitBytesId(7) };
    let (stmts, value) = emit_one(Instr::Hhbc(Hhbc::ClsCnsD(cid, class(2), None)));
    let global = Name::Member {
        class: ClassRef::Id(class(2)),
        is_static: IsStatic::Static,
        member: Member::Const(cid),
    };
    assert_eq!(
        stmts,
        vec![Stmt::Load { dst: Sid(0), ty: Ty::Mixed, src: Expr::Deref(Var::Global(global)) }]
    );
    assert_eq!(value, Some(Expr::Sid(Sid(0))));
}

#[test]
fn a_closure_is_allocated_and_constructed() {
    let instr = Instr::Hhbc(Hhbc::CreateCl {
        operands: vec![ValueId::Constant(ConstantId(0))],
        clsid: class(4),
        loc: None,
    });
    let func = func_with(vec![instr], vec![Constant::Int(8)]);
    let mut strings = StringInterner::new();
    strings.intern_str("first");
    let (stmts, value) = emit(&func, strings, None);
    assert_eq!(
        stmts,
        vec![
            Stmt::Eval {
                dst: Sid(0),
                src: Expr::Alloc(Ty::Class { class: class(4), is_static: IsStatic::NonStatic }),
            },
            Stmt::CallStatic {
                dst: Sid(1),
                target: Name::Member {
                    class: ClassRef::Id(class(4)),
                    is_static: IsStatic::NonStatic,
                    member: Member::Method(MethodId { id: UnitBytesId(1) }),
                },
                this: Expr::Sid(Sid(0)),
                args: vec![call_expr(Builtin::Int, vec![int_const(8)])],
            },
        ]
    );
    // The value is the object, not what the constructor returns.
    assert_eq!(value, Some(Expr::Sid(Sid(0))));
}

#[test]
fn static_classes_are_loaded() {
    let (stmts, value) = emit_one(Instr::Hhbc(Hhbc::ResolveClass(class(9), None)));
    assert_eq!(stmts, vec![Stmt::LoadStaticClass { dst: Sid(0), class: class(9) }]);
    assert_eq!(value, Some(Expr::Sid(Sid(0))));

    let func = func_with(vec![Instr::Hhbc(Hhbc::SelfCls(None))], Vec::new());
    let (stmts, value) = emit(&func, StringInterner::new(), Some(method(IsStatic::NonStatic)));
    assert_eq!(stmts, vec![Stmt::LoadStaticClass { dst: Sid(0), class: class(5) }]);
    assert_eq!(value, Some(Expr::Sid(Sid(0))));
}

#[test]
fn setting_a_local_yields_the_input() {
    let instrs = vec![
        Instr::Hhbc(Hhbc::CGetL(local(1), None)),
        Instr::Hhbc(Hhbc::SetL(ValueId::Instr(InstrId(0)), local(2), None)),
    ];
    let (stmts, value) = emit(&func_with(instrs, Vec::new()), StringInterner::new(), None);
    assert_eq!(
        stmts[1],
        Stmt::Store { place: deref(local(2)), src: Expr::Sid(Sid(0)), ty: Ty::Mixed }
    );
    assert_eq!(stmts.len(), 2);
    assert_eq!(value, Some(Expr::Sid(Sid(0))));
}

#[test]
fn this_has_the_type_of_the_method() {
    for is_static in [IsStatic::Static, IsStatic::NonStatic] {
        let func = func_with(vec![Instr::Hhbc(Hhbc::This(None))], Vec::new());
        let mut strings = StringInterner::new();
        strings.intern_str("first");
        let (stmts, value) = emit(&func, strings, Some(method(is_static)));
        assert_eq!(
            stmts,
            vec![Stmt::Load {
                dst: Sid(0),
                ty: Ty::ClassPtr { class: class(5), is_static },
                src: deref(LocalId::Named(UnitBytesId(1))),
            }]
        );
        assert_eq!(value, Some(Expr::Sid(Sid(0))));
    }
}

#[test]
fn unsetting_a_local_stores_null_and_has_no_value() {
    let (stmts, value) = emit_one(Instr::Hhbc(Hhbc::UnsetL(local(6), None)));
    assert_eq!(
        stmts,
        vec![Stmt::Store {
            place: deref(local(6)),
            src: Expr::Const(Const::Null),
            ty: Ty::Mixed,
        }]
    );
    assert_eq!(value, None);
}

#[test]
fn other_instructions_call_a_function_of_their_name() {
    let instr = Instr::Hhbc(Hhbc::Other {
        text: "Idx".to_string(),
        operands: vec![ValueId::Constant(ConstantId(0)), ValueId::Constant(ConstantId(1))],
        locals: Vec::new(),
        loc: None,
    });
    let func = func_with(vec![instr], vec![Constant::Null, Constant::Bool(true)]);
    let (stmts, value) = emit(&func, StringInterner::new(), None);
    assert_eq!(
        stmts,
        vec![Stmt::Call {
            dst: Sid(0),
            target: Name::Text("TODO_hhbc_Idx".to_string()),
            args: vec![
                Expr::Const(Const::Null),
                call_expr(Builtin::Bool, vec![Expr::Const(Const::True)]),
            ],
        }]
    );
    assert_eq!(value, Some(Expr::Sid(Sid(0))));
}

#[test]
fn a_member_operation_takes_its_operands() {
    let instrs = vec![
        Instr::Hhbc(Hhbc::CGetL(local(1), None)),
        Instr::MemberOp(MemberOp {
            operands: vec![ValueId::Instr(InstrId(0))],
            locals: vec![local(1)],
            loc: Some(LocId(0)),
        }),
    ];
    let (stmts, value) = emit(&func_with(instrs, Vec::new()), StringInterner::new(), None);
    assert_eq!(stmts[1], Stmt::Loc(loc(1)));
    assert_eq!(
        stmts[2],
        Stmt::MemberOp { dst: Sid(1), iid: InstrId(1), operands: vec![Expr::Sid(Sid(0))] }
    );
    assert_eq!(value, Some(Expr::Sid(Sid(1))));
}

#[test]
fn assertions_prune_paths() {
    let instrs = vec![
        Instr::Hhbc(Hhbc::CGetL(local(1), None)),
        Instr::Special(Special::Textual(Textual::AssertTrue(ValueId::Instr(InstrId(0)), None))),
        Instr::Special(Special::Textual(Textual::AssertFalse(
            ValueId::Instr(InstrId(0)),
            Some(LocId(1)),
        ))),
    ];
    let (stmts, value) = emit(&func_with(instrs, Vec::new()), StringInterner::new(), None);
    let is_true = || call_expr(Builtin::IsTrue, vec![Expr::Sid(Sid(0))]);
    assert_eq!(stmts[1], Stmt::Prune(is_true()));
    assert_eq!(stmts[2], Stmt::Loc(loc(2)));
    assert_eq!(stmts[3], Stmt::PruneNot(is_true()));
    assert_eq!(value, None);
}

#[test]
fn a_local_for_use_as_an_operand_is_written_in_place() {
    let instrs = vec![
        Instr::Special(Special::Textual(Textual::Deref(local(4)))),
        Instr::Special(Special::Textual(Textual::HackBuiltin {
            target: "$builtins.f".to_string(),
            values: vec![ValueId::Instr(InstrId(0))],
            loc: None,
        })),
    ];
    let (stmts, value) = emit(&func_with(instrs, Vec::new()), StringInterner::new(), None);
    assert_eq!(
        stmts,
        vec![Stmt::Call {
            dst: Sid(0),
            target: Name::Text("$builtins.f".to_string()),
            args: vec![deref(local(4))],
        }]
    );
    assert_eq!(value, Some(Expr::Sid(Sid(0))));
}

#[test]
fn a_string_is_copied() {
    let mut strings = StringInterner::new();
    let id = strings.intern_bytes(b"a\"b");
    let func =
        func_with(vec![Instr::Special(Special::Textual(Textual::String(id)))], Vec::new());
    let (stmts, value) = emit(&func, strings, None);
    assert_eq!(
        stmts,
        vec![Stmt::Copy {
            dst: Sid(0),
            src: call_expr(
                Builtin::String,
                vec![Expr::Const(Const::String(b"a\"b".to_vec()))],
            ),
        }]
    );
    assert_eq!(value, Some(Expr::Sid(Sid(0))));
}

#[test]
fn a_selected_value_is_copied() {
    let instrs = vec![
        Instr::Hhbc(Hhbc::CGetL(local(1), None)),
        Instr::Special(Special::Select(ValueId::Instr(InstrId(0)), 1)),
    ];
    let (stmts, value) = emit(&func_with(instrs, Vec::new()), StringInterner::new(), None);
    assert_eq!(stmts[1], Stmt::Copy { dst: Sid(1), src: Expr::Sid(Sid(0)) });
    assert_eq!(value, Some(Expr::Sid(Sid(1))));
}

#[test]
fn copying_an_instruction_emits_nothing() {
    let instrs = vec![
        Instr::Hhbc(Hhbc::CGetL(local(1), None)),
        Instr::Special(Special::Copy(ValueId::Instr(InstrId(0)))),
    ];
    let (stmts, value) = emit(&func_with(instrs, Vec::new()), StringInterner::new(), None);
    assert_eq!(stmts.len(), 1);
    assert_eq!(value, Some(Expr::Sid(Sid(0))));
}

fn copied(constant: Constant, strings: StringInterner) -> Expr {
    let func = func_with(vec![Instr::Special(Special::Tombstone)], vec![constant]);
    let mut state = FuncState::new(FuncBuilder::new(), strings, &func, None);
    write_copy(&mut state, InstrId(0), ValueId::Constant(ConstantId(0)));
    assert_eq!(state.iid_mapping.get(&0), Some(&Expr::Sid(Sid(0))));
    match state.fb.stmts.pop() {
        Some(Stmt::Eval { dst: Sid(0), src }) => src,
        other => panic!("unexpected {:?}", other),
    }
}

#[test]
fn copied_constants() {
    let none = StringInterner::new;
    assert_eq!(copied(Constant::Array(ArrayId(6)), none()), Expr::Array(ArrayId(6)));
    assert_eq!(copied(Constant::Bool(false), none()), Expr::Const(Const::False));
    assert_eq!(copied(Constant::Bool(true), none()), Expr::Const(Const::True));
    let bits = FloatBits(1.5f64.to_bits());
    assert_eq!(copied(Constant::Float(bits), none()), Expr::Const(Const::Float(bits)));
    assert_eq!(copied(Constant::Int(-3), none()), call_expr(Builtin::Int, vec![int_const(-3)]));
    assert_eq!(copied(Constant::Null, none()), Expr::Const(Const::Null));
    assert_eq!(copied(Constant::Uninit, none()), Expr::Const(Const::Null));
    let mut strings = StringInterner::new();
    let id = strings.intern_str("x");
    assert_eq!(
        copied(Constant::String(id), strings),
        call_expr(Builtin::String, vec![Expr::Const(Const::String(b"x".to_vec()))])
    );
}

fn looked_up(constant: Constant, strings: StringInterner) -> Expr {
    let func = func_with(Vec::new(), vec![constant]);
    let state = FuncState::new(FuncBuilder::new(), strings, &func, None);
    state.lookup_vid(ValueId::Constant(ConstantId(0)))
}

#[test]
fn constants_as_operands() {
    let none = StringInterner::new;
    assert_eq!(
        looked_up(Constant::Bool(false), none()),
        call_expr(Builtin::Bool, vec![Expr::Const(Const::False)])
    );
    assert_eq!(
        looked_up(Constant::Bool(true), none()),
        call_expr(Builtin::Bool, vec![Expr::Const(Const::True)])
    );
    assert_eq!(
        looked_up(Constant::Int(42), none()),
        call_expr(Builtin::Int, vec![int_const(42)])
    );
    let bits = FloatBits((-0.0f64).to_bits());
    assert_eq!(
        looked_up(Constant::Float(bits), none()),
        call_expr(Builtin::Float, vec![Expr::Const(Const::Float(bits))])
    );
    let mut strings = StringInterner::new();
    let id = strings.intern_str("x");
    assert_eq!(
        looked_up(Constant::String(id), strings),
        call_expr(Builtin::String, vec![Expr::Const(Const::String(b"x".to_vec()))])
    );
}

#[test]
fn constants_without_a_form_are_null() {
    for constant in [
        Constant::Null,
        Constant::Dir,
        Constant::File,
        Constant::FuncCred,
        Constant::Method,
        Constant::Named(UnitBytesId(0)),
        Constant::Uninit,
    ] {
        assert_eq!(looked_up(constant, StringInterner::new()), Expr::Const(Const::Null));
    }
}

#[test]
fn array_literals_are_emitted_once_and_then_looked_up() {
    let constants = vec![
        Constant::Array(ArrayId(6)),
        Constant::Int(1),
        Constant::Array(ArrayId(3)),
    ];
    let constant = |c| ValueId::Constant(ConstantId(c));
    let instr = Instr::MemberOp(MemberOp {
        operands: vec![constant(2), constant(1), constant(0), constant(2)],
        locals: Vec::new(),
        loc: None,
    });
    let mut func = func_with(vec![instr], constants);
    func.blocks.push(Block {
        params: Vec::new(),
        iids: vec![InstrId(0)],
        catch_target: None,
    });
    let mut state = FuncState::new(FuncBuilder::new(), StringInterner::new(), &func, None);
    write_constants(&mut state);
    let emitted = || {
        vec![
            Stmt::Eval { dst: Sid(0), src: Expr::Array(ArrayId(6)) },
            Stmt::Eval { dst: Sid(1), src: Expr::Array(ArrayId(3)) },
        ]
    };
    assert_eq!(state.fb.stmts, emitted());
    assert_eq!(state.lookup_vid(constant(0)), Expr::Sid(Sid(0)));
    assert_eq!(state.lookup_vid(constant(2)), Expr::Sid(Sid(1)));
    assert_eq!(state.lookup_vid(constant(0)), Expr::Sid(Sid(0)));
    assert_eq!(state.lookup_vid(constant(1)), call_expr(Builtin::Int, vec![int_const(1)]));
    assert_eq!(state.fb.stmts, emitted());
}

#[test]
fn a_value_can_be_set_for_a_constant() {
    let func = func_with(Vec::new(), vec![Constant::Null, Constant::Array(ArrayId(0))]);
    let mut state = FuncState::new(FuncBuilder::new(), StringInterner::new(), &func, None);
    let sid = state.fb.alloc_sid();
    state.set_constant(ConstantId(1), sid);
    assert_eq!(state.lookup_vid(ValueId::Constant(ConstantId(1))), Expr::Sid(sid));
}

#[test]
fn new_collections() {
    for (ty, hhbc) in [
        (CollectionType::ImmMap, BuiltinHhbc::NewColImmMap),
        (CollectionType::ImmSet, BuiltinHhbc::NewColImmSet),
        (CollectionType::ImmVector, BuiltinHhbc::NewColImmVector),
        (CollectionType::MutMap, BuiltinHhbc::NewColMap),
        (CollectionType::MutSet, BuiltinHhbc::NewColSet),
        (CollectionType::Pair, BuiltinHhbc::NewColPair),
        (CollectionType::Vector, BuiltinHhbc::NewColVector),
    ] {
        assert_eq!(
            looked_up(Constant::NewCol(ty), StringInterner::new()),
            call_expr(Builtin::Hhbc(hhbc), Vec::new())
        );
    }
}

#[test]
fn a_new_value_for_an_instruction() {
    let func = func_with(Vec::new(), Vec::new());
    let mut state = FuncState::new(FuncBuilder::new(), StringInterner::new(), &func, None);
    assert_eq!(state.alloc_sid_for_iid(InstrId(4)), Sid(0));
    assert_eq!(state.alloc_sid_for_iid(InstrId(2)), Sid(1));
    assert_eq!(state.lookup_iid(InstrId(4)), Expr::Sid(Sid(0)));
    assert_eq!(state.lookup_iid(InstrId(2)), Expr::Sid(Sid(1)));
    assert!(state.fb.stmts.is_empty());
}

/// What a terminator becomes, after one load whose value it may use.
fn terminate(terminator: Terminator) -> Vec<Stmt> {
    let instrs =
        vec![Instr::Hhbc(Hhbc::CGetL(local(1), None)), Instr::Terminator(terminator)];
    let func = func_with(instrs, vec![Constant::Int(2)]);
    let mut state = FuncState::new(FuncBuilder::new(), StringInterner::new(), &func, None);
    write_instr(&mut state, InstrId(0));
    write_terminator(&mut state, InstrId(1));
    assert_eq!(state.iid_mapping.len(), 1);
    state.fb.stmts.split_off(1)
}

fn value() -> ValueId {
    ValueId::Instr(InstrId(0))
}

fn sid0() -> Expr {
    Expr::Sid(Sid(0))
}

#[test]
fn jumps() {
    let jmp = |targets, args| vec![Stmt::Jmp { targets, args }];
    assert_eq!(
        terminate(Terminator::Enter(BlockId(3), None)),
        jmp(vec![BlockId(3)], Vec::new())
    );
    assert_eq!(
        terminate(Terminator::Jmp(BlockId(4), None)),
        jmp(vec![BlockId(4)], Vec::new())
    );
    assert_eq!(
        terminate(Terminator::JmpArgs(
            BlockId(5),
            vec![value(), ValueId::Constant(ConstantId(0))],
            None
        )),
        jmp(vec![BlockId(5)], vec![sid0(), call_expr(Builtin::Int, vec![int_const(2)])])
    );
}

#[test]
fn a_jump_has_its_location() {
    assert_eq!(
        terminate(Terminator::Jmp(BlockId(4), Some(LocId(0)))),
        vec![Stmt::Loc(loc(1)), Stmt::Jmp { targets: vec![BlockId(4)], args: Vec::new() }]
    );
}

#[test]
fn a_conditional_jump_goes_to_both_targets() {
    for pred in [hack_textual::ir::Predicate::Zero, hack_textual::ir::Predicate::NonZero] {
        assert_eq!(
            terminate(Terminator::JmpOp {
                cond: value(),
                pred,
                true_bid: BlockId(7),
                false_bid: BlockId(6),
                loc: None,
            }),
            vec![Stmt::Jmp { targets: vec![BlockId(7), BlockId(6)], args: Vec::new() }]
        );
    }
}

#[test]
fn returns_and_ends() {
    assert_eq!(terminate(Terminator::Ret(value(), None)), vec![Stmt::Ret(sid0())]);
    assert_eq!(terminate(Terminator::Unreachable), vec![Stmt::Unreachable]);
    for (terminator, target) in [
        (
            Terminator::Exit(value(), None),
            Name::Builtin(Builtin::Hhbc(BuiltinHhbc::Exit)),
        ),
        (
            Terminator::Fatal(value(), None),
            Name::Builtin(Builtin::Hhbc(BuiltinHhbc::Fatal)),
        ),
        (Terminator::Throw(value(), None), Name::Text("TODO_throw".to_string())),
    ] {
        assert_eq!(
            terminate(terminator),
            vec![Stmt::Call { dst: Sid(1), target, args: vec![sid0()] }, Stmt::Unreachable]
        );
    }
}

#[test]
fn other_terminators_call_a_placeholder() {
    assert_eq!(
        terminate(Terminator::Other {
            text: "ret_c_suspended %0".to_string(),
            locals: Vec::new(),
            loc: None,
        }),
        vec![
            Stmt::Call {
                dst: Sid(1),
                target: Name::Text("$todo.ret_c_suspended %0".to_string()),
                args: Vec::new(),
            },
            Stmt::Unreachable,
        ]
    );
}
