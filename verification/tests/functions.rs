use std::str::FromStr;

use ascii::AsciiString;
use hack_textual::block::{write_block, write_blocks};
use hack_textual::check::{check_begin, check_write};
use hack_textual::class::{class_ty, non_static_ty, IsStatic};
use hack_textual::constants::array_operands;
use hack_textual::func::{
    begin_func, begin_function, compute_func_params, convert_ty, write_body, write_func,
    write_instance_stub, ParamDecl, TextualFile, UnitState,
};
use hack_textual::hack::Builtin;
use hack_textual::ir::{
    ArrayId, Block, BlockId, Class, ClassId, Constant, ConstantId, EnforcedTy, Func, FunctionId, Hhbc,
    Instr, InstrId, LocId, LocalId, MemberOp, MethodId, Param, Predicate, Special, SrcLoc, Terminator,
    Textual, UnnamedLocalId, ValueId,
};
use hack_textual::state::{FuncState, MethodInfo};
use hack_textual::strings::{StringInterner, UnitBytesId};
use hack_textual::textual::{
    ClassRef, Const, Expr, FuncBuilder, Member, Name, Sid, Stmt, Ty, Var,
};

fn text(s: &str) -> AsciiString {
    AsciiString::from_str(s).unwrap()
}

fn loc(line: i32) -> SrcLoc {
    SrcLoc {
        filename: UnitBytesId(0),
        line_begin: line,
        col_begin: 0,
        line_end: line,
        col_end: 0,
    }
}

fn unnamed(idx: usize) -> LocalId {
    LocalId::Unnamed(UnnamedLocalId { idx })
}

fn deref(lid: LocalId) -> Expr {
    Expr::Deref(Var::Local(lid))
}

fn class() -> ClassId {
    ClassId { id: UnitBytesId(50) }
}

fn method(is_static: IsStatic) -> MethodInfo {
    MethodInfo { class: Class { name: class(), base: None }, is_static }
}

fn method_name(name: UnitBytesId, is_static: IsStatic) -> Name {
    Name::Member {
        class: ClassRef::Id(class()),
        is_static,
        member: Member::Method(MethodId { id: name }),
    }
}

fn block(params: &[usize], iids: &[usize], catch_target: Option<usize>) -> Block {
    Block {
        params: params.iter().map(|i| InstrId(*i)).collect(),
        iids: iids.iter().map(|i| InstrId(*i)).collect(),
        catch_target: catch_target.map(BlockId),
    }
}

/// if ($p) { return $x; } else { return null; }, with a parameter `$p`.
fn branching(unit: &mut UnitState) -> Func {
    let p = unit.strings.intern_str("$p");
    let x = LocalId::Named(unit.strings.intern_str("$x"));
    Func {
        blocks: vec![
            block(&[], &[0, 1], None),
            block(&[], &[2, 3], Some(2)),
            block(&[], &[4], None),
        ],
        constants: vec![Constant::Null],
        instrs: vec![
            Instr::Hhbc(Hhbc::CGetL(LocalId::Named(p), None)),
            Instr::Terminator(Terminator::JmpOp {
                cond: ValueId::Instr(InstrId(0)),
                pred: Predicate::NonZero,
                true_bid: BlockId(1),
                false_bid: BlockId(2),
                loc: Some(LocId(1)),
            }),
            Instr::Hhbc(Hhbc::CGetL(x, None)),
            Instr::Terminator(Terminator::Ret(ValueId::Instr(InstrId(2)), None)),
            Instr::Terminator(Terminator::Ret(ValueId::Constant(ConstantId(0)), None)),
        ],
        loc_id: LocId(0),
        locs: vec![loc(10), loc(11)],
        params: vec![Param { name: p, escaped: text("$p"), ty: EnforcedTy(4) }],
        return_type: EnforcedTy(5),
    }
}

fn unit() -> UnitState {
    UnitState { strings: StringInterner::new(), base_var: unnamed(99) }
}

/// The statements of the body of `branching`.
fn branching_body(p: LocalId, x: LocalId) -> Vec<Stmt> {
    let is_true = || Expr::Call {
        target: Name::Builtin(Builtin::IsTrue),
        args: vec![Expr::Sid(Sid(0))],
    };
    vec![
        Stmt::Load { dst: Sid(0), ty: Ty::Mixed, src: deref(p) },
        Stmt::Loc(loc(11)),
        Stmt::Jmp { targets: vec![BlockId(1), BlockId(2)], args: Vec::new() },
        Stmt::Label { bid: BlockId(1), params: Vec::new() },
        Stmt::Loc(loc(11)),
        Stmt::Prune(is_true()),
        Stmt::Load { dst: Sid(1), ty: Ty::Mixed, src: deref(x) },
        Stmt::Ret(Expr::Sid(Sid(1))),
        Stmt::Handler(BlockId(2)),
        Stmt::Label { bid: BlockId(2), params: Vec::new() },
        Stmt::Loc(loc(11)),
        Stmt::PruneNot(is_true()),
        Stmt::Ret(Expr::Const(Const::Null)),
    ]
}

#[test]
fn a_top_level_function() {
    let mut unit = unit();
    let func = branching(&mut unit);
    assert!(check_begin(&unit, &func));
    let name = FunctionId { id: unit.strings.intern_str("f") };
    let verified: Result<(), String> = Ok(());
    let prepared = begin_function(&mut unit, name, func, verified).unwrap();
    assert!(check_write(&prepared, &unit.strings));
    let mut txf = TextualFile::new();
    let body = write_func(&mut txf, &mut unit, prepared);
    // The body holds the two assertions besides what it had before.
    assert_eq!(body.instrs.len(), 7);

    let p = LocalId::Named(UnitBytesId(0));
    let x = LocalId::Named(UnitBytesId(1));
    assert_eq!(txf.functions.len(), 1);
    let def = &txf.functions[0];
    assert_eq!(def.name, Name::Function(name));
    assert_eq!(def.span, loc(10));
    assert_eq!(
        def.params,
        vec![
            ParamDecl { name: text("$this"), ty: Ty::VoidPtr },
            ParamDecl { name: text("$p"), ty: Ty::Enforced(EnforcedTy(4)) },
        ]
    );
    assert_eq!(def.ret_ty, Ty::Enforced(EnforcedTy(5)));
    // The parameter is no local; the scratch local comes last.
    assert_eq!(def.locals, vec![(x, Ty::VoidPtr), (unnamed(99), Ty::Mixed)]);
    assert_eq!(def.body, branching_body(p, x));
}

#[test]
fn a_function_that_does_not_verify_is_not_prepared() {
    let mut unit = unit();
    let func = branching(&mut unit);
    let n = unit.strings.strings.len();
    let verified: Result<(), String> = Err("bad block".to_string());
    let r = begin_function(&mut unit, FunctionId { id: UnitBytesId(0) }, func, verified);
    assert_eq!(r.err(), Some("bad block".to_string()));
    assert_eq!(unit.strings.strings.len(), n);
}

#[test]
fn an_instance_method_gets_no_stub() {
    let mut unit = unit();
    let func = branching(&mut unit);
    let name = unit.strings.intern_str("m");
    let mi = method(IsStatic::NonStatic);
    let prepared = begin_func(&mut unit, name, mi.class_ty(), func, Some(mi));
    let mut txf = TextualFile::new();
    write_func(&mut txf, &mut unit, prepared);
    assert_eq!(txf.functions.len(), 1);
    assert_eq!(txf.functions[0].name, method_name(name, IsStatic::NonStatic));
    assert_eq!(txf.functions[0].params[0].ty, non_static_ty(class()));
}

#[test]
fn a_static_method_gets_a_stub() {
    let mut unit = unit();
    let func = branching(&mut unit);
    let name = unit.strings.intern_str("m");
    let mi = method(IsStatic::Static);
    let prepared = begin_func(&mut unit, name, mi.class_ty(), func, Some(mi));
    assert!(check_write(&prepared, &unit.strings));
    let mut txf = TextualFile::new();
    write_func(&mut txf, &mut unit, prepared);
    assert_eq!(txf.functions.len(), 2);
    let own = &txf.functions[0];
    let stub = &txf.functions[1];
    assert_eq!(own.name, method_name(name, IsStatic::Static));
    assert_eq!(own.params[0].ty, class_ty(class(), IsStatic::Static));
    assert_eq!(own.body, branching_body(LocalId::Named(UnitBytesId(0)), LocalId::Named(UnitBytesId(1))));

    assert_eq!(stub.name, method_name(name, IsStatic::NonStatic));
    assert_eq!(stub.span, own.span);
    assert_eq!(stub.ret_ty, own.ret_ty);
    assert!(stub.locals.is_empty());
    assert_eq!(
        stub.params,
        vec![
            ParamDecl { name: text("$this"), ty: non_static_ty(class()) },
            ParamDecl { name: text("$p"), ty: Ty::Enforced(EnforcedTy(4)) },
        ]
    );
    let this = LocalId::Named(unit.strings.intern_str("$this"));
    let p = LocalId::Named(unit.strings.intern_str("$p"));
    assert_eq!(
        stub.body,
        vec![
            Stmt::Comment("forward to the static method".to_string()),
            Stmt::Load { dst: Sid(0), ty: non_static_ty(class()), src: deref(this) },
            Stmt::Call {
                dst: Sid(1),
                target: Name::Builtin(Builtin::GetStaticClass),
                args: vec![Expr::Sid(Sid(0))],
            },
            Stmt::Load { dst: Sid(2), ty: Ty::Enforced(EnforcedTy(4)), src: deref(p) },
            Stmt::Call {
                dst: Sid(3),
                target: method_name(name, IsStatic::Static),
                args: vec![Expr::Sid(Sid(1)), Expr::Sid(Sid(2))],
            },
            Stmt::Ret(Expr::Sid(Sid(3))),
        ]
    );
}

#[test]
fn a_stub_finds_parameters_by_their_escaped_names() {
    let mut unit = unit();
    unit.strings.intern_str("first");
    let params = vec![
        ParamDecl { name: text("$this"), ty: class_ty(class(), IsStatic::Static) },
        ParamDecl { name: text("$a_x20_b"), ty: Ty::Enforced(EnforcedTy(1)) },
        ParamDecl { name: text("$c"), ty: Ty::Enforced(EnforcedTy(2)) },
    ];
    let mut txf = TextualFile::new();
    let mi = method(IsStatic::Static);
    let ret = Ty::Enforced(EnforcedTy(3));
    write_instance_stub(&mut txf, &mut unit, UnitBytesId(0), &mi, &params, ret, loc(1));
    assert_eq!(unit.strings.lookup_bytes(UnitBytesId(1)), b"$this");
    assert_eq!(unit.strings.lookup_bytes(UnitBytesId(2)), b"$a_x20_b");
    assert_eq!(unit.strings.lookup_bytes(UnitBytesId(3)), b"$c");
    let body = &txf.functions[0].body;
    assert_eq!(body.len(), 7);
    assert_eq!(
        body[3],
        Stmt::Load {
            dst: Sid(2),
            ty: Ty::Enforced(EnforcedTy(1)),
            src: deref(LocalId::Named(UnitBytesId(2))),
        }
    );
    assert_eq!(
        body[5],
        Stmt::Call {
            dst: Sid(4),
            target: method_name(UnitBytesId(0), IsStatic::Static),
            args: vec![Expr::Sid(Sid(1)), Expr::Sid(Sid(2)), Expr::Sid(Sid(3))],
        }
    );
}

#[test]
fn parameters_have_this_in_front() {
    let mut unit = unit();
    let a = unit.strings.intern_str("$a b");
    let params = vec![Param { name: a, escaped: text("$a_x20_b"), ty: EnforcedTy(8) }];
    let (names, tys, lids) = compute_func_params(&params, &mut unit, Ty::VoidPtr);
    assert_eq!(names, vec![text("$this"), text("$a_x20_b")]);
    assert_eq!(tys, vec![Ty::VoidPtr, Ty::Enforced(EnforcedTy(8))]);
    assert_eq!(lids, vec![LocalId::Named(UnitBytesId(1)), LocalId::Named(a)]);
    assert_eq!(unit.strings.lookup_bytes(UnitBytesId(1)), b"$this");
    assert_eq!(convert_ty(EnforcedTy(8)), Ty::Enforced(EnforcedTy(8)));
}

#[test]
fn without_parameters_there_is_only_this() {
    let mut unit = unit();
    let (names, tys, lids) = compute_func_params(&Vec::new(), &mut unit, Ty::Mixed);
    assert_eq!(names, vec![text("$this")]);
    assert_eq!(tys, vec![Ty::Mixed]);
    assert_eq!(lids, vec![LocalId::Named(UnitBytesId(0))]);
}

#[test]
fn locals_come_in_order_whatever_the_body_does_first() {
    let mut unit = unit();
    let z = LocalId::Named(unit.strings.intern_str("$z"));
    let a = LocalId::Named(unit.strings.intern_str("$a"));
    let func = Func {
        blocks: vec![block(&[], &[0, 1, 2, 3], None)],
        constants: Vec::new(),
        instrs: vec![
            Instr::Hhbc(Hhbc::CGetL(unnamed(1), None)),
            Instr::Hhbc(Hhbc::CGetL(z, None)),
            Instr::Hhbc(Hhbc::CGetL(a, None)),
            Instr::Terminator(Terminator::Unreachable),
        ],
        loc_id: LocId(0),
        locs: vec![loc(1)],
        params: Vec::new(),
        return_type: EnforcedTy(0),
    };
    let prepared = begin_func(&mut unit, UnitBytesId(0), Ty::VoidPtr, func, None);
    assert_eq!(
        prepared.locals,
        vec![
            (a, Ty::VoidPtr),
            (z, Ty::VoidPtr),
            (unnamed(1), Ty::VoidPtr),
            (unnamed(99), Ty::Mixed),
        ]
    );
}

/// A loop: the second block has a parameter, which it hands back to itself.
fn looping() -> Func {
    Func {
        blocks: vec![block(&[], &[0], None), block(&[1], &[2], Some(1))],
        constants: vec![Constant::Int(1)],
        instrs: vec![
            Instr::Terminator(Terminator::JmpArgs(
                BlockId(1),
                vec![ValueId::Constant(ConstantId(0))],
                None,
            )),
            Instr::Special(Special::Param),
            Instr::Terminator(Terminator::JmpArgs(
                BlockId(1),
                vec![ValueId::Instr(InstrId(1))],
                None,
            )),
        ],
        loc_id: LocId(0),
        locs: vec![loc(1)],
        params: Vec::new(),
        return_type: EnforcedTy(0),
    }
}

#[test]
fn a_block_with_parameters() {
    let func = looping();
    let mut state = FuncState::new(FuncBuilder::new(), StringInterner::new(), &func, None);
    write_blocks(&mut state);
    let one = Expr::Call {
        target: Name::Builtin(Builtin::Int),
        args: vec![Expr::Const(Const::Int(1))],
    };
    assert_eq!(
        state.fb.stmts,
        vec![
            Stmt::Jmp { targets: vec![BlockId(1)], args: vec![one] },
            Stmt::Label { bid: BlockId(1), params: vec![Sid(0)] },
            Stmt::Jmp { targets: vec![BlockId(1)], args: vec![Expr::Sid(Sid(0))] },
            Stmt::Handler(BlockId(1)),
        ]
    );
}

#[test]
fn the_entry_block_has_no_label_even_with_parameters() {
    let mut func = looping();
    func.blocks[0].params.push(InstrId(7));
    let mut state = FuncState::new(FuncBuilder::new(), StringInterner::new(), &func, None);
    write_block(&mut state, BlockId(0));
    assert_eq!(state.fb.stmts.len(), 1);
    assert_eq!(state.fb.next_sid, 1);
    write_block(&mut state, BlockId(1));
    assert_eq!(state.fb.stmts[1], Stmt::Label { bid: BlockId(1), params: vec![Sid(1)] });
}

/// The value that a statement defines, where it defines one.
fn defined(stmt: &Stmt) -> Vec<usize> {
    match stmt {
        Stmt::Call { dst, .. }
        | Stmt::CallStatic { dst, .. }
        | Stmt::CallVirtual { dst, .. }
        | Stmt::Copy { dst, .. }
        | Stmt::Eval { dst, .. }
        | Stmt::Load { dst, .. }
        | Stmt::LoadStaticClass { dst, .. }
        | Stmt::MemberOp { dst, .. } => vec![dst.0],
        Stmt::Label { params, .. } => params.iter().map(|s| s.0).collect(),
        _ => Vec::new(),
    }
}

fn mentioned_in(e: &Expr) -> Vec<usize> {
    match e {
        Expr::Sid(sid) => vec![sid.0],
        Expr::Call { args, .. } => args.iter().flat_map(mentioned_in).collect(),
        _ => Vec::new(),
    }
}

/// The values that a statement mentions other than to define them.
fn mentioned(stmt: &Stmt) -> Vec<usize> {
    let mut out = Vec::new();
    match stmt {
        Stmt::Call { args, .. } | Stmt::Jmp { args, .. } => {
            for e in args {
                out.extend(mentioned_in(e));
            }
        }
        Stmt::CallStatic { this, args, .. } | Stmt::CallVirtual { this, args, .. } => {
            out.extend(mentioned_in(this));
            for e in args {
                out.extend(mentioned_in(e));
            }
        }
        Stmt::MemberOp { operands, .. } => {
            for e in operands {
                out.extend(mentioned_in(e));
            }
        }
        Stmt::Copy { src, .. } | Stmt::Eval { src, .. } | Stmt::Load { src, .. } => {
            out.extend(mentioned_in(src));
        }
        Stmt::Prune(e) | Stmt::PruneNot(e) | Stmt::Ret(e) => out.extend(mentioned_in(e)),
        Stmt::Store { place, src, .. } => {
            out.extend(mentioned_in(place));
            out.extend(mentioned_in(src));
        }
        _ => {}
    }
    out
}

/// Three blocks, the second one with parameters.
fn three_blocks() -> Func {
    Func {
        blocks: vec![
            block(&[], &[0, 1], None),
            block(&[2, 3], &[4, 5, 6], None),
            block(&[], &[7], None),
        ],
        constants: vec![Constant::Int(1), Constant::Null],
        instrs: vec![
            Instr::Hhbc(Hhbc::CGetL(unnamed(0), None)),
            Instr::Terminator(Terminator::JmpArgs(
                BlockId(1),
                vec![ValueId::Instr(InstrId(0)), ValueId::Constant(ConstantId(1))],
                None,
            )),
            Instr::Special(Special::Param),
            Instr::Special(Special::Param),
            Instr::Special(Special::Copy(ValueId::Constant(ConstantId(0)))),
            Instr::Special(Special::Textual(Textual::HackBuiltin {
                target: "g".to_string(),
                values: vec![ValueId::Instr(InstrId(3)), ValueId::Instr(InstrId(4))],
                loc: None,
            })),
            Instr::Terminator(Terminator::Jmp(BlockId(2), None)),
            Instr::Terminator(Terminator::Exit(ValueId::Instr(InstrId(5)), None)),
        ],
        loc_id: LocId(0),
        locs: vec![loc(1)],
        params: Vec::new(),
        return_type: EnforcedTy(0),
    }
}

#[test]
fn every_mentioned_value_has_an_earlier_definition() {
    let mut unit = unit();
    let stmts = write_body(&mut unit, &three_blocks(), None);
    let mut known: Vec<usize> = Vec::new();
    let mut count = 0;
    for stmt in &stmts {
        for sid in mentioned(stmt) {
            assert!(known.contains(&sid));
            count += 1;
        }
        known.extend(defined(stmt));
    }
    assert_eq!(count, 4);
}

#[test]
fn an_operand_keeps_its_value() {
    let instrs = vec![
        Instr::Hhbc(Hhbc::CGetL(unnamed(0), None)),
        Instr::Hhbc(Hhbc::SetL(ValueId::Instr(InstrId(0)), unnamed(1), None)),
        Instr::Hhbc(Hhbc::SetL(ValueId::Instr(InstrId(1)), unnamed(2), None)),
        Instr::Terminator(Terminator::Ret(ValueId::Instr(InstrId(0)), None)),
    ];
    let mut func = three_blocks();
    func.blocks = vec![block(&[], &[0, 1, 2, 3], None)];
    func.instrs = instrs;
    let mut unit = unit();
    let stmts = write_body(&mut unit, &func, None);
    let store = |idx| Stmt::Store {
        place: deref(unnamed(idx)),
        src: Expr::Sid(Sid(0)),
        ty: Ty::Mixed,
    };
    assert_eq!(stmts[1], store(1));
    assert_eq!(stmts[2], store(2));
    assert_eq!(stmts[3], Stmt::Ret(Expr::Sid(Sid(0))));
}

#[test]
fn values_are_numbered_in_the_order_of_their_definitions() {
    let mut unit = unit();
    let stmts = write_body(&mut unit, &three_blocks(), None);
    let mut all = Vec::new();
    for stmt in &stmts {
        all.extend(defined(stmt));
    }
    assert_eq!(all, (0..6).collect::<Vec<_>>());
    let mut labels = Vec::new();
    for stmt in &stmts {
        if let Stmt::Label { bid, .. } = stmt {
            labels.push(bid.0);
        }
    }
    assert_eq!(labels, vec![1, 2]);
}

#[test]
fn array_literals_come_before_the_blocks() {
    let func = Func {
        blocks: vec![block(&[], &[0, 1], None), block(&[], &[2, 3], None)],
        constants: vec![Constant::Null, Constant::Array(ArrayId(8))],
        instrs: vec![
            Instr::Special(Special::Textual(Textual::HackBuiltin {
                target: "g".to_string(),
                values: vec![ValueId::Constant(ConstantId(1)), ValueId::Constant(ConstantId(0))],
                loc: None,
            })),
            Instr::Terminator(Terminator::Jmp(BlockId(1), None)),
            Instr::Special(Special::Copy(ValueId::Constant(ConstantId(1)))),
            Instr::Terminator(Terminator::Ret(ValueId::Constant(ConstantId(1)), None)),
        ],
        loc_id: LocId(0),
        locs: vec![loc(1)],
        params: Vec::new(),
        return_type: EnforcedTy(0),
    };
    let mut unit = unit();
    assert_eq!(
        write_body(&mut unit, &func, None),
        vec![
            Stmt::Eval { dst: Sid(0), src: Expr::Array(ArrayId(8)) },
            Stmt::Call {
                dst: Sid(1),
                target: Name::Text("g".to_string()),
                args: vec![Expr::Sid(Sid(0)), Expr::Const(Const::Null)],
            },
            Stmt::Jmp { targets: vec![BlockId(1)], args: Vec::new() },
            Stmt::Label { bid: BlockId(1), params: Vec::new() },
            Stmt::Eval { dst: Sid(2), src: Expr::Array(ArrayId(8)) },
            Stmt::Ret(Expr::Sid(Sid(0))),
        ]
    );
}

/// The array literals that are operands, where one block lists the instructions.
fn found_arrays(mut instrs: Vec<Instr>) -> Vec<bool> {
    instrs.push(Instr::Terminator(Terminator::Unreachable));
    let mut func = three_blocks();
    func.blocks = vec![Block {
        params: Vec::new(),
        iids: (0..instrs.len()).map(InstrId).collect(),
        catch_target: None,
    }];
    func.constants = vec![Constant::Array(ArrayId(0)), Constant::Null, Constant::Array(ArrayId(1))];
    func.instrs = instrs;
    array_operands(&func)
}

fn last_array() -> ValueId {
    ValueId::Constant(ConstantId(2))
}

#[test]
fn array_literals_that_are_operands_are_found() {
    let lid = unnamed(0);
    let values = || vec![ValueId::Constant(ConstantId(1)), last_array()];
    for instr in [
        Instr::Hhbc(Hhbc::SetL(last_array(), lid, None)),
        Instr::Hhbc(Hhbc::CreateCl { operands: values(), clsid: class(), loc: None }),
        Instr::Hhbc(Hhbc::Other {
            text: "Idx".to_string(),
            operands: values(),
            locals: Vec::new(),
            loc: None,
        }),
        Instr::MemberOp(MemberOp { operands: values(), locals: Vec::new(), loc: None }),
        Instr::Special(Special::Select(last_array(), 0)),
        Instr::Special(Special::Textual(Textual::AssertTrue(last_array(), None))),
        Instr::Special(Special::Textual(Textual::AssertFalse(last_array(), None))),
        Instr::Special(Special::Textual(Textual::HackBuiltin {
            target: "g".to_string(),
            values: values(),
            loc: None,
        })),
        Instr::Terminator(Terminator::Exit(last_array(), None)),
        Instr::Terminator(Terminator::Fatal(last_array(), None)),
        Instr::Terminator(Terminator::Throw(last_array(), None)),
        Instr::Terminator(Terminator::Ret(last_array(), None)),
        Instr::Terminator(Terminator::JmpArgs(BlockId(0), values(), None)),
    ] {
        assert_eq!(found_arrays(vec![instr]), vec![false, false, true]);
    }
}

#[test]
fn copied_or_unused_array_literals_are_not_evaluated_first() {
    let copy = Instr::Special(Special::Copy(last_array()));
    assert_eq!(found_arrays(vec![copy]), vec![false, false, false]);
    assert_eq!(found_arrays(Vec::new()), vec![false, false, false]);

    let mut func = three_blocks();
    func.blocks = vec![block(&[], &[0, 1], None)];
    func.constants = vec![Constant::Array(ArrayId(4)), Constant::Array(ArrayId(5))];
    func.instrs = vec![
        Instr::Special(Special::Copy(ValueId::Constant(ConstantId(1)))),
        Instr::Terminator(Terminator::Ret(ValueId::Instr(InstrId(0)), None)),
    ];
    let mut unit = unit();
    assert_eq!(
        write_body(&mut unit, &func, None),
        vec![
            Stmt::Eval { dst: Sid(0), src: Expr::Array(ArrayId(5)) },
            Stmt::Ret(Expr::Sid(Sid(0))),
        ]
    );
}

#[test]
fn writing_a_body_keeps_the_strings() {
    let mut unit = unit();
    let a = unit.strings.intern_str("a");
    let func = Func {
        blocks: vec![block(&[], &[0, 1], None)],
        constants: Vec::new(),
        instrs: vec![
            Instr::Hhbc(Hhbc::This(None)),
            Instr::Terminator(Terminator::Ret(ValueId::Instr(InstrId(0)), None)),
        ],
        loc_id: LocId(0),
        locs: vec![loc(1)],
        params: Vec::new(),
        return_type: EnforcedTy(0),
    };
    let stmts = write_body(&mut unit, &func, Some(method(IsStatic::NonStatic)));
    assert_eq!(stmts.len(), 2);
    assert_eq!(unit.strings.strings.len(), 2);
    assert_eq!(unit.strings.lookup_bytes(a), b"a");
    assert_eq!(unit.strings.lookup_bytes(UnitBytesId(1)), b"$this");
}

#[test]
fn definitions_are_added_behind_earlier_ones() {
    let mut unit = unit();
    let mut txf = TextualFile::new();
    for name in ["f", "g"] {
        let func = branching(&mut unit);
        let id = unit.strings.intern_str(name);
        let prepared = begin_func(&mut unit, id, Ty::VoidPtr, func, None);
        write_func(&mut txf, &mut unit, prepared);
    }
    let f = unit.strings.intern_str("f");
    let g = unit.strings.intern_str("g");
    assert_eq!(txf.functions.len(), 2);
    assert_eq!(txf.functions[0].name, Name::Function(FunctionId { id: f }));
    assert_eq!(txf.functions[1].name, Name::Function(FunctionId { id: g }));
}
