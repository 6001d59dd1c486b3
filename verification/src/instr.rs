//! Emitting single instructions.

use vstd::prelude::*;

use crate::call::{call_ready, call_written, write_call};
use crate::class;
use crate::class::IsStatic;
use crate::hack;
use crate::hack::{builtin_view, expr_builtin, Builtin};
use crate::ir::{
    instr_loc, terminator_loc, ClassId, ConstId, Constant, Func, Hhbc, IncDecOp, Instr,
    InstrId, LocId, LocalId, MethodId, Special, Terminator, Textual, ValueId,
};
use crate::state::{
    text_known, value_ready, values_ready, FuncState, MethodInfo, Scope, StateView,
};
use crate::strings::{slice_to_vec, text_id};
use crate::textual::{
    expr_below, expr_uses, int_view, local_view, no_args, null_view, one_arg, two_args, ClassRef,
    ClassRefView, Const, ConstView, Expr, ExprView, Member, Name, NameView, Sid, StmtView, Ty, Var,
    VarView,
};

verus! {

/// The name of a method of a class.
pub open spec fn method_name(
    class: ClassRefView,
    is_static: IsStatic,
    method: MethodId,
) -> NameView {
    NameView::Member { class, is_static, member: Member::Method(method) }
}

/// The name of a method of a class.
pub fn mangle_method(method: MethodId, class: ClassRef, is_static: IsStatic) -> (r: Name)
    ensures
        r@ == method_name(class@, is_static, method),
{
    Name::Member { class, is_static, member: Member::Method(method) }
}

/// The expression for a string.
pub open spec fn string_view(bytes: Seq<u8>) -> ExprView {
    builtin_view(Builtin::String, seq![ExprView::Const(ConstView::String(bytes))])
}

/// The last value that was defined, as an expression.
pub open spec fn last_sid(s: StateView) -> ExprView {
    ExprView::Sid((s.body.next - 1) as nat)
}

// ---------------------------------------------------------------------------
// Loads and stores
// ---------------------------------------------------------------------------

/// Read a constant of a class.
pub fn write_get_class_const(state: &mut FuncState<'_>, class: ClassId, cid: ConstId) -> (r: Sid)
    requires
        old(state)@.room(1),
    ensures
        r.0 == old(state)@.body.next,
        final(state)@ == old(state)@.with_body(
            old(state)@.body.load(Ty::Mixed, class_const_view(class, cid)),
        ),
        old(state)@.sound() ==> final(state)@.sound(),
{
    let name = Name::Member {
        class: ClassRef::Id(class),
        is_static: IsStatic::Static,
        member: Member::Const(cid),
    };
    state.load_mixed(Expr::Deref(Var::Global(name)))
}

/// The global that holds a constant of a class.
pub open spec fn class_const_view(class: ClassId, cid: ConstId) -> ExprView {
    ExprView::Deref(
        VarView::Global(
            NameView::Member {
                class: ClassRefView::Id(class),
                is_static: IsStatic::Static,
                member: Member::Const(cid),
            },
        ),
    )
}

/// Let the value of `iid` be `$this`.
pub fn write_load_this(state: &mut FuncState<'_>, iid: InstrId)
    requires
        old(state)@.wf(),
        old(state)@.room(1),
        old(state)@.method is Some,
        !old(state)@.values.dom().contains(iid.0),
    ensures
        final(state)@.wf(),
        final(state)@ == old(state)@.this_loaded(old(state)@.method->0).bind(
            iid,
            old(state)@.body.next_sid(),
        ),
        old(state)@.sound() ==> final(state)@.sound(),
{
    let sid = state.load_this();
    state.set_iid(iid, Expr::Sid(sid));
}

/// Let the value of `iid` be what the local holds.
pub fn write_load_var(state: &mut FuncState<'_>, iid: InstrId, lid: LocalId)
    requires
        old(state)@.room(1),
        !old(state)@.values.dom().contains(iid.0),
    ensures
        final(state)@ == old(state)@.with_body(
            old(state)@.body.load(Ty::Mixed, local_view(lid)),
        ).bind(iid, old(state)@.body.next_sid()),
        old(state)@.sound() ==> final(state)@.sound(),
{
    let sid = state.load_mixed(Expr::local(lid));
    state.set_iid(iid, Expr::Sid(sid));
}

/// Store a value in a local.
pub fn write_set_var(state: &mut FuncState<'_>, lid: LocalId, vid: ValueId)
    requires
        old(state)@.ready(vid),
    ensures
        final(state)@ == old(state)@.with_body(
            old(state)@.body.store(local_view(lid), old(state)@.value_expr(vid), Ty::Mixed),
        ),
        old(state)@.sound() ==> final(state)@.sound(),
{
    let value = state.lookup_vid(vid);
    state.store_mixed(Expr::local(lid), value);
}

/// Call the built-in function `target`.
pub fn write_builtin(state: &mut FuncState<'_>, iid: InstrId, target: &str, values: &Vec<ValueId>)
    requires
        old(state)@.room(1),
        old(state)@.all_ready(values@),
        !old(state)@.values.dom().contains(iid.0),
    ensures
        final(state)@ == old(state)@.with_body(
            old(state)@.body.call(NameView::Text(target@), old(state)@.value_exprs(values@)),
        ).bind(iid, old(state)@.body.next_sid()),
        old(state)@.sound() ==> final(state)@.sound(),
{
    let params = state.lookup_vids(values);
    let output = state.fb.call(Name::Text(target.to_owned()), params);
    state.set_iid(iid, Expr::Sid(output));
}

// ---------------------------------------------------------------------------
// Increment and decrement
// ---------------------------------------------------------------------------

/// The arithmetic of an increment or decrement.
pub open spec fn inc_dec_builtin(op: IncDecOp) -> Builtin {
    match op {
        IncDecOp::PreInc | IncDecOp::PostInc => Builtin::Hhbc(hack::Hhbc::Add),
        IncDecOp::PreDec | IncDecOp::PostDec => Builtin::Hhbc(hack::Hhbc::Sub),
    }
}

/// After an increment or decrement of a local: the local is read, one is added or
/// subtracted, and the local is written. The value of the instruction is the one
/// that was read for a `Pre` operation and the one that was written for a `Post`
/// operation.
pub open spec fn inc_dec_written(
    s: StateView,
    iid: InstrId,
    lid: LocalId,
    op: IncDecOp,
) -> StateView {
    let n = s.body.next;
    let body = s.body.load(Ty::Mixed, local_view(lid)).call(
        NameView::Builtin(Builtin::Int),
        seq![int_view(1)],
    ).call(
        NameView::Builtin(inc_dec_builtin(op)),
        seq![ExprView::Sid(n), ExprView::Sid(n + 1)],
    ).store(local_view(lid), ExprView::Sid(n + 2), Ty::Mixed);
    let value = match op {
        IncDecOp::PreInc | IncDecOp::PreDec => ExprView::Sid(n),
        IncDecOp::PostInc | IncDecOp::PostDec => ExprView::Sid(n + 2),
    };
    s.with_body(body).bind(iid, value)
}

pub fn write_inc_dec_l(state: &mut FuncState<'_>, iid: InstrId, lid: LocalId, op: IncDecOp)
    requires
        old(state)@.room(3),
        !old(state)@.values.dom().contains(iid.0),
    ensures
        final(state)@ == inc_dec_written(old(state)@, iid, lid, op),
        old(state)@.sound() ==> final(state)@.sound(),
{
    let builtin = match op {
        IncDecOp::PreInc => hack::Hhbc::Add,
        IncDecOp::PostInc => hack::Hhbc::Add,
        IncDecOp::PreDec => hack::Hhbc::Sub,
        IncDecOp::PostDec => hack::Hhbc::Sub,
    };

    let pre = state.load_mixed(Expr::local(lid));
    let one = state.call_builtin(Builtin::Int, one_arg(Expr::Const(Const::Int(1))));
    let post = state.call_builtin(
        Builtin::Hhbc(builtin),
        two_args(Expr::Sid(pre), Expr::Sid(one)),
    );
    state.store_mixed(Expr::local(lid), Expr::Sid(post));

    let sid = match op {
        IncDecOp::PreInc | IncDecOp::PreDec => pre,
        IncDecOp::PostInc | IncDecOp::PostDec => post,
    };
    state.set_iid(iid, Expr::Sid(sid));
}

// ---------------------------------------------------------------------------
// Copies
// ---------------------------------------------------------------------------

/// Whether a constant can be copied.
pub open spec fn copyable(c: Constant) -> bool {
    match c {
        Constant::Array(_)
        | Constant::Bool(_)
        | Constant::Float(_)
        | Constant::Int(_)
        | Constant::Null
        | Constant::String(_)
        | Constant::Uninit => true,
        _ => false,
    }
}

/// The expression whose value is a copied constant.
pub open spec fn copied_constant(strings: Seq<Seq<u8>>, c: Constant) -> ExprView
    recommends
        copyable(c),
{
    match c {
        Constant::Array(id) => ExprView::Array(id),
        Constant::Bool(false) => ExprView::Const(ConstView::False),
        Constant::Bool(true) => ExprView::Const(ConstView::True),
        Constant::Float(bits) => ExprView::Const(ConstView::Float(bits)),
        Constant::Int(i) => builtin_view(Builtin::Int, seq![int_view(i)]),
        Constant::Null | Constant::Uninit => null_view(),
        Constant::String(s) => string_view(strings[s.0 as int]),
        _ => arbitrary(),
    }
}

/// Whether an operand can be copied.
pub open spec fn copy_ready(func: Func, scope: Scope, values: Set<usize>, vid: ValueId) -> bool {
    match vid {
        ValueId::Constant(c) => {
            &&& c.0 < func.constants@.len()
            &&& copyable(func.constants@[c.0 as int])
            &&& text_known(scope, func.constants@[c.0 as int])
        },
        _ => value_ready(func, scope, values, vid),
    }
}

/// After a copy: a constant is evaluated and the result is the value of `iid`;
/// the value of another instruction is the value of `iid` as it is.
pub open spec fn copy_written(s: StateView, iid: InstrId, vid: ValueId) -> StateView {
    match vid {
        ValueId::Constant(c) => s.with_body(
            s.body.eval(copied_constant(s.strings, s.func.constants@[c.0 as int])),
        ).bind(iid, s.body.next_sid()),
        _ => s.bind(iid, s.value_expr(vid)),
    }
}

pub fn write_copy(state: &mut FuncState<'_>, iid: InstrId, vid: ValueId)
    requires
        old(state)@.room(1),
        copy_ready(
            old(state)@.func,
            old(state)@.scope(),
            old(state)@.values.dom(),
            vid,
        ),
        !old(state)@.values.dom().contains(iid.0),
    ensures
        final(state)@ == copy_written(old(state)@, iid, vid),
        old(state)@.sound() ==> final(state)@.sound(),
{
    match vid {
        ValueId::Constant(cid) => {
            let constant = state.func.constants[cid.0];
            let expr = match constant {
                Constant::Array(id) => Expr::Array(id),
                Constant::Bool(false) => Expr::Const(Const::False),
                Constant::Bool(true) => Expr::Const(Const::True),
                Constant::Float(bits) => Expr::Const(Const::Float(bits)),
                Constant::Int(i) => expr_builtin(
                    Builtin::Int,
                    one_arg(Expr::Const(Const::Int(i))),
                ),
                Constant::String(s) => {
                    let bytes = slice_to_vec(state.strings.lookup_bytes(s));
                    expr_builtin(Builtin::String, one_arg(Expr::Const(Const::String(bytes))))
                },
                _ => Expr::null(),
            };
            proof {
                reveal_with_fuel(expr_uses, 2);
            }
            let sid = state.fb.write_expr_stmt(expr);
            state.set_iid(iid, Expr::Sid(sid));
        },
        ValueId::Instr(instr) => state.copy_iid(iid, ValueId::Instr(instr)),
        ValueId::Absent => {},
    }
}

// ---------------------------------------------------------------------------
// Instructions of the virtual machine
// ---------------------------------------------------------------------------

/// After a closure object has been made: it is allocated, its constructor is
/// called with the captured values, and it is the value of `iid`.
pub open spec fn closure_written(
    s: StateView,
    iid: InstrId,
    clsid: ClassId,
    operands: Seq<ValueId>,
) -> StateView {
    let obj = s.body.next_sid();
    let cons = method_name(
        ClassRefView::Id(clsid),
        IsStatic::NonStatic,
        MethodId { id: text_id(s.strings, "__construct"@) },
    );
    let t = s.intern("__construct"@);
    let body = s.body.eval(
        ExprView::Alloc(Ty::Class { class: clsid, is_static: IsStatic::NonStatic }),
    ).call_static(cons, obj, t.value_exprs(operands));
    t.with_body(body).bind(iid, obj)
}

/// After an instruction of the virtual machine.
pub open spec fn hhbc_written(s: StateView, iid: InstrId, h: Hhbc) -> StateView {
    let next = s.body.next_sid();
    match h {
        Hhbc::ClsCnsD(const_id, cid, _) => s.with_body(
            s.body.load(Ty::Mixed, class_const_view(cid, const_id)),
        ).bind(iid, next),
        Hhbc::CreateCl { operands, clsid, .. } => closure_written(s, iid, clsid, operands@),
        Hhbc::CGetL(lid, _) | Hhbc::CUGetL(lid, _) | Hhbc::ConsumeL(lid, _) => s.with_body(
            s.body.load(Ty::Mixed, local_view(lid)),
        ).bind(iid, next),
        Hhbc::IncDecL(lid, op, _) => inc_dec_written(s, iid, lid, op),
        Hhbc::ResolveClass(cid, _) => s.with_body(s.body.load_static_class(cid)).bind(iid, next),
        Hhbc::SelfCls(_) => s.with_body(
            s.body.load_static_class(s.method->0.class.name),
        ).bind(iid, next),
        Hhbc::SetL(vid, lid, _) => s.with_body(
            s.body.store(local_view(lid), s.value_expr(vid), Ty::Mixed),
        ).bind(iid, s.value_expr(vid)),
        Hhbc::This(_) => s.this_loaded(s.method->0).bind(iid, next),
        Hhbc::UnsetL(lid, _) => s.with_body(
            s.body.store(local_view(lid), null_view(), Ty::Mixed),
        ),
        Hhbc::Other { text, operands, .. } => s.with_body(
            s.body.call(NameView::Text("TODO_hhbc_"@ + text@), s.value_exprs(operands@)),
        ).bind(iid, next),
    }
}

/// Whether an instruction of the virtual machine has a value.
pub open spec fn hhbc_has_value(h: Hhbc) -> bool {
    !(h is UnsetL)
}

/// Whether an instruction of the virtual machine can be emitted.
pub open spec fn hhbc_ready(
    func: Func,
    method: Option<MethodInfo>,
    scope: Scope,
    values: Set<usize>,
    h: Hhbc,
) -> bool {
    match h {
        Hhbc::CreateCl { operands, .. } => values_ready(func, scope, values, operands@),
        Hhbc::SelfCls(_) => method is Some,
        Hhbc::SetL(vid, _, _) => value_ready(func, scope, values, vid),
        Hhbc::This(_) => method is Some,
        Hhbc::Other { operands, .. } => values_ready(func, scope, values, operands@),
        _ => true,
    }
}

pub fn write_hhbc(state: &mut FuncState<'_>, iid: InstrId, hhbc: &Hhbc)
    requires
        old(state)@.wf(),
        old(state)@.room(3),
        hhbc_ready(
            old(state)@.func,
            old(state)@.method,
            old(state)@.scope(),
            old(state)@.values.dom(),
            *hhbc,
        ),
        hhbc_has_value(*hhbc) ==> !old(state)@.values.dom().contains(iid.0),
    ensures
        final(state)@.wf(),
        final(state)@ == hhbc_written(old(state)@, iid, *hhbc),
        old(state)@.sound() ==> final(state)@.sound(),
{
    match hhbc {
        Hhbc::ClsCnsD(const_id, cid, _) => {
            let sid = write_get_class_const(state, *cid, *const_id);
            state.set_iid(iid, Expr::Sid(sid));
        },
        Hhbc::CreateCl { operands, clsid, loc: _ } => {
            write_create_cl(state, iid, *clsid, operands);
        },
        Hhbc::CGetL(lid, _) | Hhbc::CUGetL(lid, _) | Hhbc::ConsumeL(lid, _) => {
            write_load_var(state, iid, *lid);
        },
        Hhbc::IncDecL(lid, op, _) => {
            write_inc_dec_l(state, iid, *lid, *op);
        },
        Hhbc::ResolveClass(cid, _) => {
            let sid = state.load_static_class(*cid);
            state.set_iid(iid, Expr::Sid(sid));
        },
        Hhbc::SelfCls(_) => {
            let method_info = state.expect_method_info();
            let sid = state.load_static_class(method_info.class.name);
            state.set_iid(iid, Expr::Sid(sid));
        },
        Hhbc::SetL(vid, lid, _) => {
            write_set_var(state, *lid, *vid);
            // SetL emits the input as the output.
            state.copy_iid(iid, *vid);
        },
        Hhbc::This(_) => {
            write_load_this(state, iid);
        },
        Hhbc::UnsetL(lid, _) => {
            state.store_mixed(Expr::local(*lid), Expr::null());
        },
        Hhbc::Other { text, operands, locals: _, loc: _ } => {
            // Only what cannot be rewritten into a simpler form is left here.
            let mut name: String = "TODO_hhbc_".to_owned();
            name.append(text.as_str());
            write_builtin(state, iid, name.as_str(), operands);
        },
    }
}

/// Make a closure object.
fn write_create_cl(
    state: &mut FuncState<'_>,
    iid: InstrId,
    clsid: ClassId,
    operands: &Vec<ValueId>,
)
    requires
        old(state)@.wf(),
        old(state)@.room(2),
        old(state)@.all_ready(operands@),
        !old(state)@.values.dom().contains(iid.0),
    ensures
        final(state)@.wf(),
        final(state)@ == closure_written(old(state)@, iid, clsid, operands@),
        old(state)@.sound() ==> final(state)@.sound(),
{
    let ty = class::non_static_ty(clsid).deref();
    let construct = MethodId { id: state.strings.intern_str("__construct") };
    let cons = mangle_method(construct, ClassRef::Id(clsid), IsStatic::NonStatic);
    let obj = state.fb.write_expr_stmt(Expr::Alloc(ty));
    let ghost allocated = state@;
    proof {
        assert forall|i: int| 0 <= i < operands@.len() implies allocated.ready(
            #[trigger] operands@[i],
        ) by {
            assert(old(state)@.ready(operands@[i]));
        }
    }
    let args = state.lookup_vids(operands);
    proof {
        assert(allocated.value_exprs(operands@) =~= old(state)@.intern(
            "__construct"@,
        ).value_exprs(operands@));
    }
    state.fb.call_static(cons, Expr::Sid(obj), args);
    state.set_iid(iid, Expr::Sid(obj));
}

// ---------------------------------------------------------------------------
// Special instructions
// ---------------------------------------------------------------------------

/// The test whether a value is true.
pub open spec fn is_true_view(e: ExprView) -> ExprView {
    builtin_view(Builtin::IsTrue, seq![e])
}

/// After a special instruction.
pub open spec fn special_written(s: StateView, iid: InstrId, sp: Special) -> StateView {
    let next = s.body.next_sid();
    match sp {
        Special::Copy(vid) => copy_written(s, iid, vid),
        Special::Select(vid, _) => s.with_body(s.body.copy(s.value_expr(vid))).bind(iid, next),
        Special::Textual(Textual::AssertFalse(vid, _)) => s.with_body(
            s.body.plus(StmtView::PruneNot(is_true_view(s.value_expr(vid)))),
        ),
        Special::Textual(Textual::AssertTrue(vid, _)) => s.with_body(
            s.body.plus(StmtView::Prune(is_true_view(s.value_expr(vid)))),
        ),
        Special::Textual(Textual::Deref(_)) => s,
        Special::Textual(Textual::HackBuiltin { target, values, .. }) => s.with_body(
            s.body.call(NameView::Text(target@), s.value_exprs(values@)),
        ).bind(iid, next),
        Special::Textual(Textual::String(id)) => s.with_body(
            s.body.copy(string_view(s.strings[id.0 as int])),
        ).bind(iid, next),
        _ => s,
    }
}

/// Whether a special instruction has a value of its own.
pub open spec fn special_has_value(sp: Special) -> bool {
    match sp {
        Special::Copy(_) => true,
        Special::Select(_, _) => true,
        Special::Textual(Textual::HackBuiltin { .. }) => true,
        Special::Textual(Textual::String(_)) => true,
        _ => false,
    }
}

/// Whether a special instruction can be emitted. Those that belong to other
/// passes cannot.
pub open spec fn special_ready(
    func: Func,
    scope: Scope,
    values: Set<usize>,
    sp: Special,
) -> bool {
    match sp {
        Special::Copy(vid) => copy_ready(func, scope, values, vid),
        Special::Select(vid, _) => value_ready(func, scope, values, vid),
        Special::Textual(Textual::AssertFalse(vid, _)) => value_ready(
            func,
            scope,
            values,
            vid,
        ),
        Special::Textual(Textual::AssertTrue(vid, _)) => value_ready(
            func,
            scope,
            values,
            vid,
        ),
        Special::Textual(Textual::Deref(_)) => true,
        Special::Textual(Textual::HackBuiltin { values: args, .. }) => values_ready(
            func,
            scope,
            values,
            args@,
        ),
        Special::Textual(Textual::String(id)) => id.0 < scope.n_strings,
        _ => false,
    }
}

/// A test of an expression mentions what the expression mentions.
proof fn lemma_is_true_below(e: ExprView, n: nat)
    requires
        expr_below(e, n),
    ensures
        expr_below(is_true_view(e), n),
{
    assert forall|sid: nat| #[trigger] expr_uses(is_true_view(e), sid) implies sid < n by {
        assert(is_true_view(e)->args[0] == e);
        assert(expr_uses(e, sid));
    }
}

/// The test whether the value of an operand is true.
fn is_true(state: &FuncState<'_>, vid: ValueId) -> (r: Expr)
    requires
        state@.ready(vid),
    ensures
        r@ == is_true_view(state@.value_expr(vid)),
        state@.sound() ==> expr_below(r@, state@.body.next),
{
    let e = state.lookup_vid(vid);
    proof {
        if state@.sound() {
            lemma_is_true_below(e@, state@.body.next);
        }
    }
    expr_builtin(Builtin::IsTrue, one_arg(e))
}

pub fn write_special(state: &mut FuncState<'_>, iid: InstrId, special: &Special)
    requires
        old(state)@.wf(),
        old(state)@.room(1),
        special_ready(
            old(state)@.func,
            old(state)@.scope(),
            old(state)@.values.dom(),
            *special,
        ),
        special_has_value(*special) ==> !old(state)@.values.dom().contains(iid.0),
    ensures
        final(state)@.wf(),
        final(state)@ == special_written(old(state)@, iid, *special),
        old(state)@.sound() ==> final(state)@.sound(),
{
    match special {
        Special::Textual(Textual::AssertFalse(vid, _)) => {
            let pred = is_true(state, *vid);
            state.fb.prune_not(pred);
        },
        Special::Textual(Textual::AssertTrue(vid, _)) => {
            let pred = is_true(state, *vid);
            state.fb.prune(pred);
        },
        Special::Textual(Textual::Deref(_)) => {
            // Nothing to emit: the local is written in place wherever it is an
            // operand.
        },
        Special::Textual(Textual::HackBuiltin { target, values, loc: _ }) => {
            write_builtin(state, iid, target.as_str(), values);
        },
        Special::Textual(Textual::String(id)) => {
            let bytes = slice_to_vec(state.strings.lookup_bytes(*id));
            let expr = expr_builtin(Builtin::String, one_arg(Expr::Const(Const::String(bytes))));
            proof {
                reveal_with_fuel(expr_uses, 2);
            }
            let sid = state.fb.copy(expr);
            state.set_iid(iid, Expr::Sid(sid));
        },
        Special::Copy(vid) => {
            write_copy(state, iid, *vid);
        },
        Special::Select(vid, _idx) => {
            let value = state.lookup_vid(*vid);
            let sid = state.fb.copy(value);
            state.set_iid(iid, Expr::Sid(sid));
        },
        Special::IrToBc | Special::Param | Special::Tmp | Special::Tombstone => {},
    }
}

// ---------------------------------------------------------------------------
// Instructions
// ---------------------------------------------------------------------------

/// Whether an instruction that is not a terminator has a value of its own.
pub open spec fn has_value(instr: Instr) -> bool {
    match instr {
        Instr::Call(_) => true,
        Instr::Hhbc(h) => hhbc_has_value(h),
        Instr::MemberOp(_) => true,
        Instr::Special(sp) => special_has_value(sp),
        Instr::Terminator(_) => false,
    }
}

/// Whether the source location exists that an instruction gives.
pub open spec fn loc_ready(func: Func, loc: Option<LocId>) -> bool {
    loc matches Some(l) ==> l.0 < func.locs@.len()
}

/// Whether the instruction `iid` can be emitted where the instructions in
/// `values` have a value: it exists, its operands have values and it has none
/// yet.
pub open spec fn instr_ready(
    func: Func,
    method: Option<MethodInfo>,
    scope: Scope,
    values: Set<usize>,
    iid: InstrId,
) -> bool {
    &&& iid.0 < func.instrs@.len()
    &&& loc_ready(func, instr_loc(func.instrs@[iid.0 as int]))
    &&& has_value(func.instrs@[iid.0 as int]) ==> !values.contains(iid.0)
    &&& match func.instrs@[iid.0 as int] {
        Instr::Call(call) => call_ready(func, method, scope, values, call),
        Instr::Hhbc(h) => hhbc_ready(func, method, scope, values, h),
        Instr::MemberOp(mop) => values_ready(func, scope, values, mop.operands@),
        Instr::Special(sp) => special_ready(func, scope, values, sp),
        Instr::Terminator(_) => false,
    }
}

/// After the instruction `iid`: its source location, then what stands for it in
/// Textual.
pub open spec fn instr_written(s: StateView, iid: InstrId) -> StateView {
    let instr = s.func.instrs@[iid.0 as int];
    let s = s.at_loc(instr_loc(instr));
    match instr {
        Instr::Call(call) => call_written(s, iid, call),
        Instr::Hhbc(h) => hhbc_written(s, iid, h),
        Instr::MemberOp(mop) => s.with_body(
            s.body.member_op(iid, s.value_exprs(mop.operands@)),
        ).bind(iid, s.body.next_sid()),
        Instr::Special(sp) => special_written(s, iid, sp),
        Instr::Terminator(_) => s,
    }
}

pub fn write_instr(state: &mut FuncState<'_>, iid: InstrId)
    requires
        old(state)@.wf(),
        old(state)@.room(3),
        instr_ready(
            old(state)@.func,
            old(state)@.method,
            old(state)@.scope(),
            old(state)@.values.dom(),
            iid,
        ),
    ensures
        final(state)@.wf(),
        final(state)@ == instr_written(old(state)@, iid),
        old(state)@.sound() ==> final(state)@.sound(),
{
    let func = state.func;
    let instr = &func.instrs[iid.0];
    state.update_loc(instr.loc_id());
    match instr {
        Instr::Call(call) => {
            write_call(state, iid, call);
        },
        Instr::Hhbc(hhbc) => {
            write_hhbc(state, iid, hhbc);
        },
        Instr::MemberOp(mop) => {
            let operands = state.lookup_vids(&mop.operands);
            let sid = state.fb.member_op(iid, operands);
            state.set_iid(iid, Expr::Sid(sid));
        },
        Instr::Special(special) => {
            write_special(state, iid, special);
        },
        Instr::Terminator(_) => {},
    }
}

// ---------------------------------------------------------------------------
// Terminators
// ---------------------------------------------------------------------------

/// After a terminator: its source location, then what stands for it in Textual.
pub open spec fn terminator_written(s: StateView, t: Terminator) -> StateView {
    let s = s.at_loc(terminator_loc(t));
    let none = Seq::<ExprView>::empty();
    match t {
        Terminator::Enter(bid, _) | Terminator::Jmp(bid, _) => s.with_body(
            s.body.jmp(seq![bid], none),
        ),
        Terminator::Exit(msg, _) => s.with_body(
            s.body.call(
                NameView::Builtin(Builtin::Hhbc(hack::Hhbc::Exit)),
                seq![s.value_expr(msg)],
            ).plus(StmtView::Unreachable),
        ),
        Terminator::Fatal(msg, _) => s.with_body(
            s.body.call(
                NameView::Builtin(Builtin::Hhbc(hack::Hhbc::Fatal)),
                seq![s.value_expr(msg)],
            ).plus(StmtView::Unreachable),
        ),
        Terminator::JmpArgs(bid, params, _) => s.with_body(
            s.body.jmp(seq![bid], s.value_exprs(params@)),
        ),
        Terminator::JmpOp { true_bid, false_bid, .. } => s.with_body(
            s.body.jmp(seq![true_bid, false_bid], none),
        ),
        Terminator::Ret(vid, _) => s.with_body(s.body.plus(StmtView::Ret(s.value_expr(vid)))),
        Terminator::Throw(vid, _) => s.with_body(
            s.body.call(NameView::Text("TODO_throw"@), seq![s.value_expr(vid)]).plus(
                StmtView::Unreachable,
            ),
        ),
        Terminator::Unreachable => s.with_body(s.body.plus(StmtView::Unreachable)),
        Terminator::Other { text, .. } => {
            let t = s.todo_called(text@);
            t.with_body(t.body.plus(StmtView::Unreachable))
        },
    }
}

/// Whether a terminator can be emitted: its operands have values.
pub open spec fn terminator_ready(
    func: Func,
    scope: Scope,
    values: Set<usize>,
    t: Terminator,
) -> bool {
    &&& loc_ready(func, terminator_loc(t))
    &&& match t {
        Terminator::Exit(msg, _) => value_ready(func, scope, values, msg),
        Terminator::Fatal(msg, _) => value_ready(func, scope, values, msg),
        Terminator::JmpArgs(_, params, _) => values_ready(func, scope, values, params@),
        Terminator::Ret(vid, _) => value_ready(func, scope, values, vid),
        Terminator::Throw(vid, _) => value_ready(func, scope, values, vid),
        _ => true,
    }
}

/// Emit the terminator `iid`.
pub fn write_terminator(state: &mut FuncState<'_>, iid: InstrId)
    requires
        old(state)@.room(1),
        iid.0 < old(state)@.func.instrs@.len(),
        old(state)@.func.instrs@[iid.0 as int] matches Instr::Terminator(t) && terminator_ready(
            old(state)@.func,
            old(state)@.scope(),
            old(state)@.values.dom(),
            t,
        ),
    ensures
        final(state)@ == terminator_written(
            old(state)@,
            old(state)@.func.instrs@[iid.0 as int]->Terminator_0,
        ),
        old(state)@.sound() ==> final(state)@.sound(),
{
    let func = state.func;
    let terminator = match &func.instrs[iid.0] {
        Instr::Terminator(terminator) => terminator,
        _ => {
            assert(false);
            return ;
        },
    };
    state.update_loc(terminator.loc_id());
    match terminator {
        Terminator::Enter(bid, _) | Terminator::Jmp(bid, _) => {
            let targets = vec![*bid];
            assert(targets@ =~= seq![*bid]);
            state.fb.jmp(targets, no_args());
        },
        Terminator::Exit(msg, _) => {
            let msg = state.lookup_vid(*msg);
            state.call_builtin(Builtin::Hhbc(hack::Hhbc::Exit), one_arg(msg));
            state.fb.unreachable();
        },
        Terminator::Fatal(msg, _) => {
            let msg = state.lookup_vid(*msg);
            state.call_builtin(Builtin::Hhbc(hack::Hhbc::Fatal), one_arg(msg));
            state.fb.unreachable();
        },
        Terminator::JmpArgs(bid, params, _) => {
            let params = state.lookup_vids(params);
            let targets = vec![*bid];
            assert(targets@ =~= seq![*bid]);
            state.fb.jmp(targets, params);
        },
        Terminator::JmpOp { cond: _, pred: _, true_bid, false_bid, loc: _ } => {
            // Only the jump is needed here: the assertions stand at the start of
            // the targets already.
            let targets = vec![*true_bid, *false_bid];
            assert(targets@ =~= seq![*true_bid, *false_bid]);
            state.fb.jmp(targets, no_args());
        },
        Terminator::Ret(vid, _) => {
            let value = state.lookup_vid(*vid);
            state.fb.ret(value);
        },
        Terminator::Unreachable => {
            state.fb.unreachable();
        },
        Terminator::Other { text, locals: _, loc: _ } => {
            state.write_todo(text.as_str());
            state.fb.unreachable();
        },
        Terminator::Throw(vid, _) => {
            let expr = state.lookup_vid(*vid);
            state.fb.call(Name::Text("TODO_throw".to_owned()), one_arg(expr));
            state.fb.unreachable();
        },
    }
}

} // verus!
