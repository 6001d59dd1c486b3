//! Emitting whole functions.

use ascii::AsciiString;
use vstd::prelude::*;
use vstd::utf8::encode_utf8;

use crate::ascii_text::{ascii_as_str, ascii_chars, ascii_clone, ascii_from_str};
use crate::block::{blocks_sids, blocks_written, body_ready, write_blocks};
use crate::class::IsStatic;
use crate::constants::{body_scope, constants_written, write_constants};
use crate::hack::Builtin;
use crate::instr::{mangle_method, method_name};
use crate::ir::{EnforcedTy, Func, FunctionId, LocalId, MethodId, Param, SrcLoc};
use crate::jmp::{all_asserts, blocks_end, has_asserts, rewrite_jmp_ops};
use crate::locals::{add_local, declared_locals, declares, iids_exist, locals_known};
use crate::state::{call_builtin, FuncState, MethodInfo, StateView};
use crate::strings::{lemma_text_id, text_id, with_text, StringInterner, UnitBytesId};
use crate::textual::{
    exprs_view, local_view, one_arg, starts_with, stmts_view, BodyView, ClassRef, ClassRefView,
    Expr, ExprView, FuncBuilder, Name, NameView, Stmt, StmtView, Ty,
};

verus! {

/// What the functions of a unit share: the interned strings, and the local that
/// member operations keep their intermediate results in.
#[derive(Debug)]
pub struct UnitState {
    pub strings: StringInterner,
    pub base_var: LocalId,
}

/// A parameter of a Textual function.
#[derive(Debug, PartialEq, Eq)]
pub struct ParamDecl {
    pub name: AsciiString,
    pub ty: Ty,
}

pub ghost struct ParamView {
    pub name: Seq<char>,
    pub ty: Ty,
}

impl View for ParamDecl {
    type V = ParamView;

    open spec fn view(&self) -> ParamView {
        ParamView { name: ascii_chars(self.name), ty: self.ty }
    }
}

/// The definition of a Textual function.
#[derive(Debug, PartialEq, Eq)]
pub struct FunctionDef {
    pub name: Name,
    pub span: SrcLoc,
    pub params: Vec<ParamDecl>,
    pub ret_ty: Ty,
    pub locals: Vec<(LocalId, Ty)>,
    pub body: Vec<Stmt>,
}

pub ghost struct FunctionView {
    pub name: NameView,
    pub span: SrcLoc,
    pub params: Seq<ParamView>,
    pub ret_ty: Ty,
    pub locals: Seq<(LocalId, Ty)>,
    pub body: Seq<StmtView>,
}

/// The views of a sequence of parameters.
pub open spec fn params_view(params: Seq<ParamDecl>) -> Seq<ParamView> {
    params.map_values(|p: ParamDecl| p@)
}

impl View for FunctionDef {
    type V = FunctionView;

    open spec fn view(&self) -> FunctionView {
        FunctionView {
            name: self.name@,
            span: self.span,
            params: params_view(self.params@),
            ret_ty: self.ret_ty,
            locals: self.locals@,
            body: stmts_view(self.body@),
        }
    }
}

/// The functions of a Textual file, in the order in which they are defined.
#[derive(Debug)]
pub struct TextualFile {
    pub functions: Vec<FunctionDef>,
}

impl View for TextualFile {
    type V = Seq<FunctionView>;

    open spec fn view(&self) -> Seq<FunctionView> {
        self.functions@.map_values(|f: FunctionDef| f@)
    }
}

impl TextualFile {
    pub fn new() -> (r: TextualFile)
        ensures
            r@ == Seq::<FunctionView>::empty(),
    {
        let r = TextualFile { functions: Vec::new() };
        assert(r@ =~= Seq::<FunctionView>::empty());
        r
    }

    /// Add a definition.
    pub fn define_function(&mut self, def: FunctionDef)
        ensures
            final(self)@ == old(self)@.push(def@),
    {
        self.functions.push(def);
        assert(self@ =~= old(self)@.push(def@));
    }
}

// ---------------------------------------------------------------------------
// Parameters
// ---------------------------------------------------------------------------

/// The names of a function's parameters: `$this`, then those of the source.
pub open spec fn param_names(params: Seq<Param>) -> Seq<Seq<char>> {
    seq!["$this"@] + params.map_values(|p: Param| ascii_chars(p.escaped))
}

/// Their types.
pub open spec fn param_tys(params: Seq<Param>, this_ty: Ty) -> Seq<Ty> {
    seq![this_ty] + params.map_values(|p: Param| Ty::Enforced(p.ty))
}

/// The locals that they are.
pub open spec fn param_locals(strings: Seq<Seq<u8>>, params: Seq<Param>) -> Set<LocalId> {
    Set::new(
        |l: LocalId|
            l == LocalId::Named(text_id(strings, "$this"@)) || exists|i: int|
                0 <= i < params.len() && l == LocalId::Named((#[trigger] params[i]).name),
    )
}

/// What an IR type becomes.
pub fn convert_ty(ty: EnforcedTy) -> (r: Ty)
    ensures
        r == Ty::Enforced(ty),
{
    Ty::Enforced(ty)
}

/// The names, the types and the locals of a function's parameters, with `$this`
/// in front.
pub fn compute_func_params(
    params: &Vec<Param>,
    unit_state: &mut UnitState,
    this_ty: Ty,
) -> (r: (Vec<AsciiString>, Vec<Ty>, Vec<LocalId>))
    requires
        old(unit_state).strings.wf(),
    ensures
        final(unit_state).strings.wf(),
        final(unit_state).strings@ == with_text(old(unit_state).strings@, "$this"@),
        final(unit_state).base_var == old(unit_state).base_var,
        r.0@.map_values(|s: AsciiString| ascii_chars(s)) == param_names(params@),
        r.1@ == param_tys(params@, this_ty),
        r.2@.no_duplicates(),
        r.2@.to_set() == param_locals(old(unit_state).strings@, params@),
{
    // Prepend the 'this' parameter.
    proof {
        reveal_strlit("$this");
    }
    let this_name = ascii_from_str("$this").unwrap();
    let this_lid = LocalId::Named(unit_state.strings.intern_str("$this"));
    let mut names: Vec<AsciiString> = vec![this_name];
    let mut tys: Vec<Ty> = vec![this_ty];
    let mut lids: Vec<LocalId> = vec![this_lid];
    let mut i: usize = 0;
    while i < params.len()
        invariant
            i <= params@.len(),
            names@.len() == i + 1,
            tys@.len() == i + 1,
            ascii_chars(names@[0]) == "$this"@,
            tys@[0] == this_ty,
            forall|k: int|
                0 <= k < i ==> ascii_chars(#[trigger] names@[k + 1]) == ascii_chars(
                    params@[k].escaped,
                ),
            forall|k: int| 0 <= k < i ==> #[trigger] tys@[k + 1] == Ty::Enforced(params@[k].ty),
            lids@.no_duplicates(),
            forall|l: LocalId| #[trigger]
                lids@.contains(l) <==> l == this_lid || exists|k: int|
                    0 <= k < i && l == LocalId::Named((#[trigger] params@[k]).name),
        decreases params.len() - i,
    {
        let p = &params[i];
        names.push(ascii_clone(&p.escaped));
        tys.push(convert_ty(p.ty));
        add_local(&mut lids, LocalId::Named(p.name));
        i += 1;
    }
    proof {
        assert(names@.map_values(|s: AsciiString| ascii_chars(s)) =~= param_names(params@)) by {
            assert forall|k: int| 0 < k < names@.len() implies ascii_chars(
                #[trigger] names@[k],
            ) == param_names(params@)[k] by {
                assert(ascii_chars(names@[(k - 1) + 1]) == ascii_chars(params@[k - 1].escaped));
            }
        }
        assert(tys@ =~= param_tys(params@, this_ty)) by {
            assert forall|k: int| 0 < k < tys@.len() implies #[trigger] tys@[k] == param_tys(
                params@,
                this_ty,
            )[k] by {
                assert(tys@[(k - 1) + 1] == Ty::Enforced(params@[k - 1].ty));
            }
        }
        assert(lids@.to_set() =~= param_locals(old(unit_state).strings@, params@));
    }
    (names, tys, lids)
}

/// Pair the names of parameters with their types.
fn declare_params(names: Vec<AsciiString>, tys: &Vec<Ty>) -> (r: Vec<ParamDecl>)
    requires
        names@.len() == tys@.len(),
    ensures
        r@.len() == names@.len(),
        forall|i: int|
            0 <= i < r@.len() ==> (#[trigger] r@[i])@ == (ParamView {
                name: ascii_chars(names@[i]),
                ty: tys@[i],
            }),
{
    let mut out: Vec<ParamDecl> = Vec::new();
    let mut i: usize = 0;
    while i < names.len()
        invariant
            i <= names@.len(),
            names@.len() == tys@.len(),
            out@.len() == i,
            forall|k: int|
                0 <= k < i ==> (#[trigger] out@[k])@ == (ParamView {
                    name: ascii_chars(names@[k]),
                    ty: tys@[k],
                }),
        decreases names.len() - i,
    {
        out.push(ParamDecl { name: ascii_clone(&names[i]), ty: tys[i] });
        i += 1;
    }
    out
}

// ---------------------------------------------------------------------------
// Instance stubs
// ---------------------------------------------------------------------------

/// The strings after the texts have been interned in order.
pub open spec fn texts_interned(strings: Seq<Seq<u8>>, texts: Seq<Seq<char>>) -> Seq<Seq<u8>>
    decreases texts.len(),
{
    if texts.len() == 0 {
        strings
    } else {
        with_text(texts_interned(strings, texts.drop_last()), texts.last())
    }
}

/// The names of parameters from the second one on, after `$this`.
pub open spec fn stub_names(params: Seq<ParamView>) -> Seq<Seq<char>> {
    seq!["$this"@] + params.drop_first().map_values(|p: ParamView| p.name)
}

/// The parameters of an instance stub: those of the static method, with the type
/// of an instance for the first one.
pub open spec fn stub_params(mi: MethodInfo, params: Seq<ParamView>) -> Seq<ParamView> {
    params.update(0, ParamView { name: params[0].name, ty: instance_ty(mi) })
}

/// The type of an instance of the class of a method.
pub open spec fn instance_ty(mi: MethodInfo) -> Ty {
    Ty::ClassPtr { class: mi.class.name, is_static: IsStatic::NonStatic }
}

/// The body of an instance stub: it loads `$this` and gets its static class, loads
/// the other parameters, calls the static method with all of them, and returns
/// what that returns.
pub open spec fn stub_body(
    strings: Seq<Seq<u8>>,
    name: UnitBytesId,
    mi: MethodInfo,
    params: Seq<ParamView>,
) -> Seq<StmtView> {
    let n = params.len();
    seq![
        StmtView::Comment("forward to the static method"@),
        StmtView::Load {
            dst: 0,
            ty: instance_ty(mi),
            src: local_view(LocalId::Named(text_id(strings, "$this"@))),
        },
        StmtView::Call {
            dst: 1,
            target: NameView::Builtin(Builtin::GetStaticClass),
            args: seq![ExprView::Sid(0)],
        },
    ] + Seq::new(
        (n - 1) as nat,
        |i: int|
            StmtView::Load {
                dst: (i + 2) as nat,
                ty: params[i + 1].ty,
                src: local_view(LocalId::Named(text_id(strings, params[i + 1].name))),
            },
    ) + seq![
        StmtView::Call {
            dst: n + 1,
            target: method_name(
                ClassRefView::Id(mi.class.name),
                IsStatic::Static,
                MethodId { id: name },
            ),
            args: Seq::new(n, |i: int| ExprView::Sid((i + 1) as nat)),
        },
        StmtView::Ret(ExprView::Sid(n + 1)),
    ]
}

/// The definition of an instance stub, where `strings` holds the names of the
/// parameters.
pub open spec fn stub_def(
    strings: Seq<Seq<u8>>,
    name: UnitBytesId,
    mi: MethodInfo,
    params: Seq<ParamView>,
    ret_ty: Ty,
    span: SrcLoc,
) -> FunctionView {
    FunctionView {
        name: method_name(
            ClassRefView::Id(mi.class.name),
            IsStatic::NonStatic,
            MethodId { id: name },
        ),
        span,
        params: stub_params(mi, params),
        ret_ty,
        locals: Seq::empty(),
        body: stub_body(strings, name, mi, params),
    }
}

/// Copies of parameters.
fn copy_params(params: &Vec<ParamDecl>) -> (r: Vec<ParamDecl>)
    ensures
        r@.len() == params@.len(),
        params_view(r@) == params_view(params@),
{
    let mut out: Vec<ParamDecl> = Vec::new();
    let mut i: usize = 0;
    while i < params.len()
        invariant
            i <= params@.len(),
            out@.len() == i,
            forall|k: int| 0 <= k < i ==> (#[trigger] out@[k])@ == params@[k]@,
        decreases params.len() - i,
    {
        out.push(ParamDecl { name: ascii_clone(&params[i].name), ty: params[i].ty });
        i += 1;
    }
    assert(params_view(out@) =~= params_view(params@));
    out
}

/// Copies of parameters, with another type for the first one.
fn retype_first(params: &Vec<ParamDecl>, ty: Ty) -> (r: Vec<ParamDecl>)
    requires
        params@.len() > 0,
    ensures
        params_view(r@) == params_view(params@).update(
            0,
            ParamView { name: params_view(params@)[0].name, ty },
        ),
{
    let mut out = copy_params(params);
    let ghost copied = params_view(out@);
    out[0].ty = ty;
    proof {
        assert(copied[0] == params_view(params@)[0]);
        assert(params_view(out@) =~= params_view(params@).update(
            0,
            ParamView { name: params_view(params@)[0].name, ty },
        ));
    }
    out
}

/// For each static method we also write a non-static version of the method so
/// that callers of 'self::foo()' don't have to know if foo is static or
/// non-static.
pub fn write_instance_stub(
    txf: &mut TextualFile,
    unit_state: &mut UnitState,
    name: UnitBytesId,
    method_info: &MethodInfo,
    tx_params: &Vec<ParamDecl>,
    ret_ty: Ty,
    span: SrcLoc,
)
    requires
        old(unit_state).strings.wf(),
        tx_params@.len() > 0,
        tx_params@.len() + 2 <= usize::MAX,
    ensures
        final(unit_state).strings.wf(),
        final(unit_state).base_var == old(unit_state).base_var,
        final(unit_state).strings@ == texts_interned(
            old(unit_state).strings@,
            stub_names(params_view(tx_params@)),
        ),
        final(txf)@ == old(txf)@.push(
            stub_def(
                final(unit_state).strings@,
                name,
                *method_info,
                params_view(tx_params@),
                ret_ty,
                span,
            ),
        ),
{
    let ghost params = params_view(tx_params@);
    let ghost names = stub_names(params);
    let n: usize = tx_params.len();
    let name_str = mangle_method(
        MethodId { id: name },
        ClassRef::Id(method_info.class.name),
        IsStatic::NonStatic,
    );
    let inst_ty = method_info.non_static_ty();
    let stub = retype_first(tx_params, inst_ty);

    let mut fb = FuncBuilder::new();
    fb.comment("forward to the static method");
    let this_str = unit_state.strings.intern_str("$this");
    let this_lid = LocalId::Named(this_str);
    let this = fb.load(inst_ty, Expr::local(this_lid));
    let static_this = call_builtin(&mut fb, Builtin::GetStaticClass, one_arg(Expr::Sid(this)));
    let target = mangle_method(
        MethodId { id: name },
        ClassRef::Id(method_info.class.name),
        IsStatic::Static,
    );

    let mut args: Vec<Expr> = vec![Expr::Sid(static_this)];
    let mut i: usize = 1;
    let ghost head = fb@.stmts;
    let ghost mut ids: Seq<UnitBytesId> = Seq::empty();
    proof {
        assert(names.take(1).drop_last() =~= Seq::<Seq<char>>::empty());
        reveal_with_fuel(texts_interned, 2);
    }
    while i < n
        invariant
            1 <= i <= n,
            n == tx_params@.len(),
            n + 2 <= usize::MAX,
            params == params_view(tx_params@),
            names == stub_names(params),
            unit_state.strings.wf(),
            unit_state.base_var == old(unit_state).base_var,
            unit_state.strings@ == texts_interned(old(unit_state).strings@, names.take(i as int)),
            this_str.0 < unit_state.strings@.len(),
            unit_state.strings@[this_str.0 as int] == encode_utf8("$this"@),
            ids.len() == i - 1,
            forall|k: int|
                0 <= k < i - 1 ==> (#[trigger] ids[k]).0 < unit_state.strings@.len()
                    && unit_state.strings@[ids[k].0 as int] == encode_utf8(params[k + 1].name),
            args@.len() == i,
            forall|k: int|
                0 <= k < i ==> (#[trigger] args@[k])@ == ExprView::Sid((k + 1) as nat),
            head.len() == 3,
            fb@.next == i + 1,
            fb@.stmts.len() == 3 + (i - 1),
            starts_with(fb@.stmts, head),
            forall|k: int|
                0 <= k < i - 1 ==> #[trigger] fb@.stmts[k + 3] == (StmtView::Load {
                    dst: (k + 2) as nat,
                    ty: params[k + 1].ty,
                    src: local_view(LocalId::Named(ids[k])),
                }),
        decreases n - i,
    {
        let p = &tx_params[i];
        let ghost before = fb@;
        let ghost strings_before = unit_state.strings@;
        let ghost ids_before = ids;
        proof {
            assert(params[i as int].name == ascii_chars(p.name));
            assert(names[i as int] == params[i as int].name);
            assert(names.take(i + 1).drop_last() =~= names.take(i as int));
            assert(names.take(i + 1).last() == names[i as int]);
        }
        let id = unit_state.strings.intern_str(ascii_as_str(&p.name));
        let lid = LocalId::Named(id);
        let sid = fb.load(p.ty, Expr::local(lid));
        args.push(Expr::Sid(sid));
        proof {
            ids = ids.push(id);
            assert forall|k: int| 0 <= k < i implies (#[trigger] ids[k]).0
                < unit_state.strings@.len() && unit_state.strings@[ids[k].0 as int] == encode_utf8(
                params[k + 1].name,
            ) by {
                if k < i - 1 {
                    assert(ids[k] == ids_before[k]);
                }
            }
            assert forall|k: int| 0 <= k < i implies #[trigger] fb@.stmts[k + 3] == (
            StmtView::Load {
                dst: (k + 2) as nat,
                ty: params[k + 1].ty,
                src: local_view(LocalId::Named(ids[k])),
            }) by {
                if k < i - 1 {
                    assert(fb@.stmts[k + 3] == before.stmts[k + 3]);
                    assert(ids[k] == ids_before[k]);
                }
            }
        }
        i += 1;
    }
    let ghost loaded = fb@.stmts;
    let ghost strings = unit_state.strings@;
    proof {
        assert(names.take(n as int) =~= names);
        assert(exprs_view(args@) =~= Seq::new(
            n as nat,
            |i: int| ExprView::Sid((i + 1) as nat),
        ));
    }
    let call = fb.call(target, args);
    fb.ret(Expr::Sid(call));
    proof {
        lemma_text_id(strings, "$this"@, this_str);
        let body = stub_body(strings, name, *method_info, params);
        assert(fb@.stmts.len() == body.len());
        assert forall|k: int| 0 <= k < body.len() implies fb@.stmts[k] == body[k] by {
            if k < 3 {
                assert(fb@.stmts[k] == loaded[k]);
                assert(loaded[k] == head[k]);
            } else if k < n + 2 {
                let j = k - 3;
                assert(fb@.stmts[k] == loaded[j + 3]);
                lemma_text_id(strings, params[j + 1].name, ids[j]);
            }
        }
        assert(fb@.stmts =~= body);
    }
    txf.define_function(
        FunctionDef {
            name: name_str,
            span,
            params: stub,
            ret_ty,
            locals: Vec::new(),
            body: fb.stmts,
        },
    );
}

// ---------------------------------------------------------------------------
// Functions
// ---------------------------------------------------------------------------

/// A function that is ready to be written, with all but the statements of its
/// body.
///
/// `body` is what the statements come from. Between `begin_func` and
/// `write_func` it may be replaced by a cleaned-up form of itself.
#[derive(Debug)]
pub struct PreparedFunc {
    pub name: UnitBytesId,
    pub name_str: Name,
    pub span: SrcLoc,
    pub params: Vec<ParamDecl>,
    pub ret_ty: Ty,
    pub locals: Vec<(LocalId, Ty)>,
    pub method_info: Option<MethodInfo>,
    pub body: Func,
}

/// The name of a function, or of a method where it is one.
pub open spec fn func_name(name: UnitBytesId, method_info: Option<MethodInfo>) -> NameView {
    match method_info {
        Some(mi) => method_name(
            ClassRefView::Id(mi.class.name),
            mi.is_static,
            MethodId { id: name },
        ),
        None => NameView::Function(FunctionId { id: name }),
    }
}

/// The parameters of a function.
pub open spec fn func_params(params: Seq<Param>, this_ty: Ty) -> Seq<ParamView> {
    Seq::new(
        params.len() + 1,
        |i: int|
            ParamView { name: param_names(params)[i], ty: param_tys(params, this_ty)[i] },
    )
}

/// Whether the function `func` can be prepared where `strings` are interned: its
/// blocks end as they should, what it refers to exists, and the names of its
/// locals are interned.
pub open spec fn can_begin(strings: Seq<Seq<u8>>, func: Func) -> bool {
    &&& blocks_end(func)
    &&& iids_exist(func)
    &&& locals_known(strings, func)
    &&& func.loc_id.0 < func.locs@.len()
}

/// The locals of a function: those that it declares, as untyped pointers, and then
/// the one that member operations use.
pub open spec fn typed_locals(declared: Seq<LocalId>, base_var: LocalId) -> Seq<(LocalId, Ty)> {
    declared.map_values(|l: LocalId| (l, Ty::VoidPtr)).push((base_var, Ty::Mixed))
}

/// `p` is the function `func` made ready where the unit is as given: with its name,
/// its parameters and the locals that it declares, and with assertions in place of
/// conditional jumps.
pub open spec fn is_prepared(
    unit: UnitState,
    name: UnitBytesId,
    this_ty: Ty,
    func: Func,
    method_info: Option<MethodInfo>,
    p: PreparedFunc,
) -> bool {
    let strings = with_text(unit.strings@, "$this"@);
    let params = param_locals(unit.strings@, func.params@);
    &&& p.name == name
    &&& p.name_str@ == func_name(name, method_info)
    &&& p.span == func.locs@[func.loc_id.0 as int]
    &&& params_view(p.params@) == func_params(func.params@, this_ty)
    &&& p.ret_ty == Ty::Enforced(func.return_type)
    &&& exists|declared: Seq<LocalId>| #[trigger]
        declares(strings, func, params, declared) && p.locals@ == typed_locals(
            declared,
            unit.base_var,
        )
    &&& p.method_info == method_info
    &&& has_asserts(func, p.body, all_asserts(func))
}

/// Prepare a function: work out its name, parameters and locals, and replace
/// conditional jumps in its body.
pub fn begin_func(
    unit_state: &mut UnitState,
    name: UnitBytesId,
    this_ty: Ty,
    func: Func,
    method_info: Option<MethodInfo>,
) -> (r: PreparedFunc)
    requires
        old(unit_state).strings.wf(),
        can_begin(old(unit_state).strings@, func),
    ensures
        final(unit_state).strings.wf(),
        final(unit_state).strings@ == with_text(old(unit_state).strings@, "$this"@),
        final(unit_state).base_var == old(unit_state).base_var,
        is_prepared(*old(unit_state), name, this_ty, func, method_info, r),
{
    let (param_names, param_tys, param_lids) = compute_func_params(
        &func.params,
        unit_state,
        this_ty,
    );
    proof {
        let v = param_names@.map_values(|s: AsciiString| ascii_chars(s));
        assert(v.len() == param_names@.len());
    }
    let params = declare_params(param_names, &param_tys);
    proof {
        assert forall|i: int| 0 <= i < params@.len() implies (#[trigger] params@[i])@
            == func_params(func.params@, this_ty)[i] by {
            let v = param_names@.map_values(|s: AsciiString| ascii_chars(s));
            assert(v[i] == ascii_chars(param_names@[i]));
        }
        assert(params_view(params@) =~= func_params(func.params@, this_ty));
    }
    let ret_ty = convert_ty(func.return_type);

    let declared = declared_locals(&func, &param_lids, &unit_state.strings);
    let mut locals: Vec<(LocalId, Ty)> = Vec::new();
    let mut i: usize = 0;
    while i < declared.len()
        invariant
            i <= declared@.len(),
            locals@.len() == i,
            forall|k: int| 0 <= k < i ==> #[trigger] locals@[k] == (declared@[k], Ty::VoidPtr),
        decreases declared.len() - i,
    {
        locals.push((declared[i], Ty::VoidPtr));
        i += 1;
    }
    // Always add a temp var for use by member operations.
    locals.push((unit_state.base_var, Ty::Mixed));
    assert(locals@ =~= typed_locals(declared@, unit_state.base_var));

    let name_str = match method_info {
        Some(mi) => mangle_method(
            MethodId { id: name },
            ClassRef::Id(mi.class.name),
            mi.is_static,
        ),
        None => Name::Function(FunctionId { id: name }),
    };
    let span = func.locs[func.loc_id.0];
    let body = rewrite_jmp_ops(func);
    PreparedFunc { name, name_str, span, params, ret_ty, locals, method_info, body }
}

/// Prepare a top-level function that has been lowered, where `verified` says what
/// came of checking the lowered form. Where the check failed nothing is prepared
/// and its error is returned.
///
/// A top-level function takes an untyped `$this` and then each of its parameters, and
/// returns what its return type becomes.
pub fn begin_function<E>(
    unit_state: &mut UnitState,
    name: FunctionId,
    lowered: Func,
    verified: Result<(), E>,
) -> (r: Result<PreparedFunc, E>)
    requires
        old(unit_state).strings.wf(),
        verified is Ok ==> can_begin(old(unit_state).strings@, lowered),
    ensures
        final(unit_state).strings.wf(),
        r is Ok <==> verified is Ok,
        verified matches Err(e) ==> r == Err::<PreparedFunc, E>(e) && *final(unit_state) == *old(
            unit_state,
        ),
        r matches Ok(p) ==> {
            &&& is_prepared(*old(unit_state), name.id, Ty::VoidPtr, lowered, None, p)
            &&& final(unit_state).strings@ == with_text(old(unit_state).strings@, "$this"@)
            &&& final(unit_state).base_var == old(unit_state).base_var
        },
{
    match verified {
        Ok(()) => Ok(begin_func(unit_state, name.id, Ty::VoidPtr, lowered, None)),
        Err(e) => Err(e),
    }
}

/// The state in which the body of a function starts.
pub open spec fn body_start(
    body: Func,
    method_info: Option<MethodInfo>,
    strings: Seq<Seq<u8>>,
) -> StateView {
    StateView {
        func: body,
        method: method_info,
        body: BodyView { stmts: Seq::empty(), next: 0 },
        values: Map::empty(),
        constants: Map::empty(),
        strings,
    }
}

/// The state in which its first block starts: the array literals that are operands
/// have been evaluated.
pub open spec fn blocks_start(
    body: Func,
    method_info: Option<MethodInfo>,
    strings: Seq<Seq<u8>>,
) -> StateView {
    constants_written(body_start(body, method_info, strings), body.constants@.len())
}

/// The most values that the body of a function defines: one for each constant, and
/// those of its blocks.
pub open spec fn body_sids(body: Func) -> nat {
    body.constants@.len() + blocks_sids(body, body.blocks@.len())
}

/// The state in which it ends.
#[verifier::opaque]
pub open spec fn body_end(
    body: Func,
    method_info: Option<MethodInfo>,
    strings: Seq<Seq<u8>>,
) -> StateView {
    blocks_written(blocks_start(body, method_info, strings), body.blocks@.len())
}

/// The statements of the body of a function: the array literals that are operands
/// are evaluated, and then its blocks follow. Each value is defined once, and before
/// it is mentioned.
pub fn write_body(
    unit_state: &mut UnitState,
    body: &Func,
    method_info: Option<MethodInfo>,
) -> (r: Vec<Stmt>)
    requires
        old(unit_state).strings.wf(),
        body_ready(*body, method_info, body_scope(*body, old(unit_state).strings@.len())),
        body_sids(*body) <= usize::MAX,
    ensures
        final(unit_state).strings.wf(),
        final(unit_state).base_var == old(unit_state).base_var,
        final(unit_state).strings@ == body_end(
            *body,
            method_info,
            old(unit_state).strings@,
        ).strings,
        stmts_view(r@) == body_end(*body, method_info, old(unit_state).strings@).body.stmts,
        body_end(*body, method_info, old(unit_state).strings@).sound(),
{
    proof {
        reveal(body_end);
    }
    let mut strings = StringInterner::new();
    std::mem::swap(&mut strings, &mut unit_state.strings);
    let mut state = FuncState::new(FuncBuilder::new(), strings, body, method_info);
    assert(state@ == body_start(*body, method_info, old(unit_state).strings@));
    write_constants(&mut state);
    write_blocks(&mut state);
    let FuncState { fb, strings, .. } = state;
    unit_state.strings = strings;
    fb.stmts
}

/// The definition of a function.
pub open spec fn func_def(p: PreparedFunc, strings: Seq<Seq<u8>>) -> FunctionView {
    FunctionView {
        name: p.name_str@,
        span: p.span,
        params: params_view(p.params@),
        ret_ty: p.ret_ty,
        locals: p.locals@,
        body: body_end(p.body, p.method_info, strings).body.stmts,
    }
}

/// Whether a function is a static method.
pub open spec fn is_static_method(method_info: Option<MethodInfo>) -> bool {
    method_info matches Some(mi) && mi.is_static == IsStatic::Static
}

/// The strings after a function has been written.
pub open spec fn func_strings(p: PreparedFunc, strings: Seq<Seq<u8>>) -> Seq<Seq<u8>> {
    let after = body_end(p.body, p.method_info, strings).strings;
    if is_static_method(p.method_info) {
        texts_interned(after, stub_names(params_view(p.params@)))
    } else {
        after
    }
}

/// The definitions that a function becomes: its own, and for a static method the
/// instance stub that forwards to it.
pub open spec fn func_defs(p: PreparedFunc, strings: Seq<Seq<u8>>) -> Seq<FunctionView> {
    if is_static_method(p.method_info) {
        seq![
            func_def(p, strings),
            stub_def(
                func_strings(p, strings),
                p.name,
                p.method_info->0,
                params_view(p.params@),
                p.ret_ty,
                p.span,
            ),
        ]
    } else {
        seq![func_def(p, strings)]
    }
}

/// Whether a prepared function can be written: every instruction of its body can
/// be emitted where it stands, and there are numbers enough for its values.
pub open spec fn can_write(p: PreparedFunc, strings: Seq<Seq<u8>>) -> bool {
    &&& body_ready(p.body, p.method_info, body_scope(p.body, strings.len()))
    &&& body_sids(p.body) <= usize::MAX
    &&& 0 < p.params@.len() < usize::MAX - 1
}

/// Write a prepared function, and for a static method also an instance stub which
/// forwards to the static method. The body is given back: the statements of member
/// operations refer to its instructions.
pub fn write_func(
    txf: &mut TextualFile,
    unit_state: &mut UnitState,
    prepared: PreparedFunc,
) -> (r: Func)
    requires
        old(unit_state).strings.wf(),
        can_write(prepared, old(unit_state).strings@),
    ensures
        r == prepared.body,
        final(unit_state).strings.wf(),
        final(unit_state).base_var == old(unit_state).base_var,
        final(unit_state).strings@ == func_strings(prepared, old(unit_state).strings@),
        final(txf)@ == old(txf)@ + func_defs(prepared, old(unit_state).strings@),
        body_end(prepared.body, prepared.method_info, old(unit_state).strings@).sound(),
{
    let ghost p = prepared;
    let PreparedFunc { name, name_str, span, params, ret_ty, locals, method_info, body } = prepared;

    let stmts = write_body(unit_state, &body, method_info);
    let stub_params = match method_info {
        Some(mi) => if mi.is_static == IsStatic::Static {
            Some(copy_params(&params))
        } else {
            None
        },
        None => None,
    };
    txf.define_function(FunctionDef { name: name_str, span, params, ret_ty, locals, body: stmts });

    // For a static method also generate an instance stub which forwards to the
    // static method.
    if let Some(mi) = method_info {
        if let Some(params) = stub_params {
            write_instance_stub(txf, unit_state, name, &mi, &params, ret_ty, span);
        }
    }
    assert(txf@ =~= old(txf)@ + func_defs(p, old(unit_state).strings@));
    body
}

} // verus!
