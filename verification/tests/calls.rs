use hack_textual::call::{is_listed, write_call};
use hack_textual::class::IsStatic;
use hack_textual::hack::Builtin;
use hack_textual::ir::{
    Call, CallDetail, Class, ClassId, Constant, ConstantId, EnforcedTy, FCallArgsFlags, Func,
    FunctionId, Instr, InstrId, LocId, LocalId, MethodId, ObjMethodOp, SpecialClsRef, ValueId,
};
use hack_textual::state::{FuncState, MethodInfo};
use hack_textual::strings::{StringInterner, UnitBytesId};
use hack_textual::textual::{
    ClassRef, Const, Expr, FuncBuilder, Member, Name, Sid, Stmt, Ty, Var,
};

fn no_flags() -> FCallArgsFlags {
    FCallArgsFlags {
        has_unpack: false,
        has_generics: false,
        lock_while_unwinding: false,
        skip_repack: false,
        skip_coeffects_check: false,
        enforce_mutable_return: false,
        enforce_readonly_this: false,
        explicit_context: false,
        has_in_out: false,
        enforce_in_out: false,
        enforce_readonly: false,
        has_async_eager_offset: false,
        num_args_start: false,
    }
}

fn all_flags() -> FCallArgsFlags {
    FCallArgsFlags {
        has_unpack: true,
        has_generics: true,
        lock_while_unwinding: true,
        skip_repack: true,
        skip_coeffects_check: true,
        enforce_mutable_return: true,
        enforce_readonly_this: true,
        explicit_context: true,
        has_in_out: true,
        enforce_in_out: true,
        enforce_readonly: true,
        has_async_eager_offset: true,
        num_args_start: true,
    }
}

fn call_of(detail: CallDetail) -> Call {
    Call {
        args: vec![ValueId::Constant(ConstantId(0))],
        context: None,
        detail,
        flags: no_flags(),
        num_rets: 1,
        inouts: None,
        readonly: None,
        loc: None,
    }
}

fn class(id: usize) -> ClassId {
    ClassId { id: UnitBytesId(id) }
}

fn method_id() -> MethodId {
    MethodId { id: UnitBytesId(30) }
}

fn method_in(class: ClassRef, is_static: IsStatic) -> Name {
    Name::Member { class, is_static, member: Member::Method(method_id()) }
}

fn info(base: Option<ClassId>, is_static: IsStatic) -> Option<MethodInfo> {
    Some(MethodInfo { class: Class { name: class(20), base }, is_static })
}

/// The one argument of the calls here.
fn args() -> Vec<Expr> {
    vec![Expr::Call {
        target: Name::Builtin(Builtin::Int),
        args: vec![Expr::Const(Const::Int(5))],
    }]
}

fn emit(call: &Call, strings: StringInterner, method: Option<MethodInfo>) -> (Vec<Stmt>, Expr) {
    let func = Func {
        blocks: Vec::new(),
        constants: vec![Constant::Int(5), Constant::Null],
        instrs: Vec::new(),
        loc_id: LocId(0),
        locs: Vec::new(),
        params: Vec::new(),
        return_type: EnforcedTy(0),
    };
    let mut state = FuncState::new(FuncBuilder::new(), strings, &func, method);
    write_call(&mut state, InstrId(0), call);
    let value = state.iid_mapping.remove(&0).unwrap();
    (state.fb.stmts, value)
}

fn emit_plain(detail: CallDetail) -> (Vec<Stmt>, Expr) {
    emit(&call_of(detail), StringInterner::new(), None)
}

fn load_this(dst: usize, id: usize, is_static: IsStatic) -> Stmt {
    Stmt::Load {
        dst: Sid(dst),
        ty: Ty::ClassPtr { class: class(20), is_static },
        src: Expr::Deref(Var::Local(LocalId::Named(UnitBytesId(id)))),
    }
}

#[test]
fn a_function_is_called_with_a_null_this() {
    let func = FunctionId { id: UnitBytesId(3) };
    let (stmts, value) = emit_plain(CallDetail::FCallFuncD { func });
    assert_eq!(
        stmts,
        vec![Stmt::CallStatic {
            dst: Sid(0),
            target: Name::Function(func),
            this: Expr::Const(Const::Null),
            args: args(),
        }]
    );
    assert_eq!(value, Expr::Sid(Sid(0)));
}

#[test]
fn a_class_method_is_called_with_the_static_class() {
    let (stmts, value) =
        emit_plain(CallDetail::FCallClsMethodD { clsid: class(8), method: method_id() });
    assert_eq!(
        stmts,
        vec![
            Stmt::LoadStaticClass { dst: Sid(0), class: class(8) },
            Stmt::CallStatic {
                dst: Sid(1),
                target: method_in(ClassRef::Id(class(8)), IsStatic::Static),
                this: Expr::Sid(Sid(0)),
                args: args(),
            },
        ]
    );
    assert_eq!(value, Expr::Sid(Sid(1)));
}

#[test]
fn self_is_a_static_call_in_the_current_class() {
    for is_static in [IsStatic::Static, IsStatic::NonStatic] {
        let call = call_of(CallDetail::FCallClsMethodSD {
            clsref: SpecialClsRef::SelfCls,
            method: method_id(),
        });
        let (stmts, value) = emit(&call, StringInterner::new(), info(None, is_static));
        assert_eq!(
            stmts,
            vec![
                load_this(0, 0, is_static),
                Stmt::CallStatic {
                    dst: Sid(1),
                    target: method_in(ClassRef::Id(class(20)), is_static),
                    this: Expr::Sid(Sid(0)),
                    args: args(),
                },
            ]
        );
        assert_eq!(value, Expr::Sid(Sid(1)));
    }
}

#[test]
fn static_is_a_virtual_call_in_the_current_class() {
    let call = call_of(CallDetail::FCallClsMethodSD {
        clsref: SpecialClsRef::LateBoundCls,
        method: method_id(),
    });
    let (stmts, _) = emit(&call, StringInterner::new(), info(None, IsStatic::Static));
    assert_eq!(
        stmts,
        vec![
            load_this(0, 0, IsStatic::Static),
            Stmt::CallVirtual {
                dst: Sid(1),
                target: method_in(ClassRef::Id(class(20)), IsStatic::Static),
                this: Expr::Sid(Sid(0)),
                args: args(),
            },
        ]
    );
}

#[test]
fn parent_is_a_static_call_in_the_base_class() {
    let call = call_of(CallDetail::FCallClsMethodSD {
        clsref: SpecialClsRef::ParentCls,
        method: method_id(),
    });
    let (stmts, _) =
        emit(&call, StringInterner::new(), info(Some(class(21)), IsStatic::NonStatic));
    assert_eq!(
        stmts,
        vec![
            load_this(0, 0, IsStatic::NonStatic),
            Stmt::CallStatic {
                dst: Sid(1),
                target: method_in(ClassRef::Id(class(21)), IsStatic::NonStatic),
                this: Expr::Sid(Sid(0)),
                args: args(),
            },
        ]
    );
}

#[test]
fn an_unknown_parent_has_a_placeholder() {
    let call = call_of(CallDetail::FCallClsMethodSD {
        clsref: SpecialClsRef::ParentCls,
        method: method_id(),
    });
    let mut strings = StringInterner::new();
    strings.intern_str("first");
    let (stmts, _) = emit(&call, strings, info(None, IsStatic::NonStatic));
    // "__parent__" is interned before "$this".
    assert_eq!(
        stmts,
        vec![
            load_this(0, 2, IsStatic::NonStatic),
            Stmt::CallStatic {
                dst: Sid(1),
                target: method_in(ClassRef::Id(class(1)), IsStatic::NonStatic),
                this: Expr::Sid(Sid(0)),
                args: args(),
            },
        ]
    );
}

#[test]
fn an_object_method_is_a_virtual_call() {
    let (stmts, value) = emit_plain(CallDetail::FCallObjMethodD {
        flavor: ObjMethodOp::NullThrows,
        method: method_id(),
        obj: ValueId::Constant(ConstantId(1)),
    });
    assert_eq!(
        stmts,
        vec![Stmt::CallVirtual {
            dst: Sid(0),
            target: method_in(ClassRef::Name("HackMixed".to_string()), IsStatic::NonStatic),
            this: Expr::Const(Const::Null),
            args: args(),
        }]
    );
    assert_eq!(value, Expr::Sid(Sid(0)));
}

#[test]
fn indirect_calls_have_placeholders() {
    for (detail, target) in [
        (CallDetail::FCallClsMethod, "$todo.FCallClsMethod"),
        (CallDetail::FCallClsMethodM, "$todo.TODO_FCallClsMethodM"),
        (CallDetail::FCallClsMethodS, "$todo.TODO_FCallClsMethodS"),
        (CallDetail::FCallFunc, "$todo.TODO_FCallFunc"),
        (CallDetail::FCallObjMethod, "$todo.FCallObjMethod"),
    ] {
        let (stmts, value) = emit_plain(detail);
        assert_eq!(
            stmts,
            vec![Stmt::Call {
                dst: Sid(0),
                target: Name::Text(target.to_string()),
                args: Vec::new(),
            }]
        );
        assert_eq!(value, Expr::Sid(Sid(0)));
    }
}

fn comments(stmts: &[Stmt]) -> Vec<String> {
    let mut out = Vec::new();
    for stmt in stmts {
        if let Stmt::Comment(text) = stmt {
            out.push(text.clone());
        }
    }
    out
}

#[test]
fn what_has_no_form_gets_a_comment() {
    let mut strings = StringInterner::new();
    let context = strings.intern_str("ctx");
    let mut call = call_of(CallDetail::FCallFunc);
    call.inouts = Some(vec![0]);
    call.num_rets = 2;
    call.context = Some(context);
    call.flags = all_flags();
    let (stmts, value) = emit(&call, strings, None);
    assert_eq!(
        comments(&stmts),
        vec![
            "TODO: inouts",
            "TODO: num_rets >= 2",
            "TODO: write_call(Context: {context:?})",
            "TODO: FCallArgsFlags::HasUnpack",
            "TODO: FCallArgsFlags::HasGenerics",
            "TODO: FCallArgsFlags::SkipRepack",
            "TODO: FCallArgsFlags::SkipCoeffectsCheck",
            "TODO: FCallArgsFlags::EnforceReadonlyThis",
            "TODO: FCallArgsFlags::ExplicitContext",
            "TODO: FCallArgsFlags::HasInOut",
            "TODO: FCallArgsFlags::EnforceInOut",
            "TODO: FCallArgsFlags::EnforceReadonly",
            "TODO: FCallArgsFlags::NumArgsStart",
        ]
    );
    assert_eq!(stmts.len(), 15);
    assert_eq!(value, Expr::Sid(Sid(1)));
}

#[test]
fn plain_calls_get_no_comment() {
    let mut strings = StringInterner::new();
    let empty = strings.intern_str("");
    let mut call = call_of(CallDetail::FCallFunc);
    call.inouts = Some(Vec::new());
    call.readonly = Some(Vec::new());
    call.context = Some(empty);
    call.flags.lock_while_unwinding = true;
    call.flags.enforce_mutable_return = true;
    let (stmts, _) = emit(&call, strings, None);
    assert_eq!(stmts.len(), 1);
}

#[test]
fn an_asynchronous_call_is_awaited() {
    let mut call =
        call_of(CallDetail::FCallClsMethodD { clsid: class(8), method: method_id() });
    call.flags.has_async_eager_offset = true;
    let (stmts, value) = emit(&call, StringInterner::new(), None);
    assert_eq!(
        stmts[2],
        Stmt::Call {
            dst: Sid(2),
            target: Name::Builtin(Builtin::Await),
            args: vec![Expr::Sid(Sid(1))],
        }
    );
    assert_eq!(stmts.len(), 3);
    assert_eq!(value, Expr::Sid(Sid(2)));
}

#[test]
fn the_operands_of_a_call() {
    let plain = Instr::Call(call_of(CallDetail::FCallFunc));
    assert_eq!(plain.mentioned_operands(), vec![ValueId::Constant(ConstantId(0))]);
    let method = Instr::Call(call_of(CallDetail::FCallObjMethodD {
        flavor: ObjMethodOp::NullThrows,
        method: method_id(),
        obj: ValueId::Constant(ConstantId(7)),
    }));
    assert_eq!(
        method.mentioned_operands(),
        vec![ValueId::Constant(ConstantId(0)), ValueId::Constant(ConstantId(7))]
    );
}

#[test]
fn a_list_counts_where_it_has_an_element() {
    assert!(!is_listed(&None));
    assert!(!is_listed(&Some(Vec::new())));
    assert!(is_listed(&Some(vec![4])));
}
