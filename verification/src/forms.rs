//! What every operand, instruction, terminator and call becomes, written out.

use vstd::prelude::*;
use vstd::utf8::encode_utf8;

use crate::call::{awaited, call_notes, call_written, callee_called, commented, noted};
use crate::class::IsStatic;
use crate::hack;
use crate::hack::Builtin;
use crate::instr::{
    copied_constant, hhbc_written, instr_written, special_written, terminator_written,
};
use crate::ir::{
    instr_loc, ArrayId, BlockId, Call, CallDetail, ClassId, CollectionType, ConstId, Constant,
    ConstantId, FloatBits, Hhbc, IncDecOp, Instr, InstrId, LocId, LocalId, MemberOp, MethodId,
    Predicate, Special, SpecialClsRef, Terminator, Textual, ValueId,
};
use crate::state::{MethodInfo, StateView};
use crate::strings::{text_id, UnitBytesId};
use crate::textual::{
    expr_uses, stmt_uses, BodyView, ClassRefView, ConstView, ExprView, Member, NameView,
    StmtView, Ty, VarView,
};

verus! {

// ---------------------------------------------------------------------------
// Operands
// ---------------------------------------------------------------------------

/// A constant as an operand is the built-in that makes its value, applied to what
/// the constant holds: a string constant to the bytes that its own id names, a number
/// to its own value. An array literal is the value that was emitted for it, and what
/// has no form is null.
pub proof fn constants_as_operands(s: StateView, c: ConstantId)
    ensures
        s.value_expr(ValueId::Constant(c)) == match s.func.constants@[c.0 as int] {
            Constant::Array(_) => ExprView::Sid(s.constants[c.0]),
            Constant::Bool(b) => ExprView::Call {
                target: NameView::Builtin(Builtin::Bool),
                args: seq![
                    ExprView::Const(
                        if b {
                            ConstView::True
                        } else {
                            ConstView::False
                        },
                    ),
                ],
            },
            Constant::Float(bits) => ExprView::Call {
                target: NameView::Builtin(Builtin::Float),
                args: seq![ExprView::Const(ConstView::Float(bits))],
            },
            Constant::Int(i) => ExprView::Call {
                target: NameView::Builtin(Builtin::Int),
                args: seq![ExprView::Const(ConstView::Int(i))],
            },
            Constant::String(id) => ExprView::Call {
                target: NameView::Builtin(Builtin::String),
                args: seq![ExprView::Const(ConstView::String(s.strings[id.0 as int]))],
            },
            Constant::NewCol(ty) => ExprView::Call {
                target: NameView::Builtin(
                    Builtin::Hhbc(
                        match ty {
                            CollectionType::ImmMap => hack::Hhbc::NewColImmMap,
                            CollectionType::ImmSet => hack::Hhbc::NewColImmSet,
                            CollectionType::ImmVector => hack::Hhbc::NewColImmVector,
                            CollectionType::MutMap => hack::Hhbc::NewColMap,
                            CollectionType::MutSet => hack::Hhbc::NewColSet,
                            CollectionType::Pair => hack::Hhbc::NewColPair,
                            CollectionType::Vector => hack::Hhbc::NewColVector,
                        },
                    ),
                ),
                args: Seq::empty(),
            },
            Constant::Null
            | Constant::Uninit
            | Constant::Dir
            | Constant::File
            | Constant::FuncCred
            | Constant::Method
            | Constant::Named(_) => ExprView::Const(ConstView::Null),
        },
{
}

/// Constants that hold different strings, or different numbers, are different
/// operands.
pub proof fn different_constants_are_different_operands(
    s: StateView,
    c: ConstantId,
    d: ConstantId,
)
    requires
        match (s.func.constants@[c.0 as int], s.func.constants@[d.0 as int]) {
            (Constant::String(x), Constant::String(y)) => s.strings[x.0 as int]
                != s.strings[y.0 as int],
            (Constant::Int(x), Constant::Int(y)) => x != y,
            (Constant::Float(x), Constant::Float(y)) => x != y,
            (Constant::Bool(x), Constant::Bool(y)) => x != y,
            (Constant::NewCol(x), Constant::NewCol(y)) => x != y,
            _ => false,
        },
    ensures
        s.value_expr(ValueId::Constant(c)) != s.value_expr(ValueId::Constant(d)),
{
    let x = s.value_expr(ValueId::Constant(c));
    let y = s.value_expr(ValueId::Constant(d));
    if x == y && !(s.func.constants@[c.0 as int] is NewCol) {
        assert(x->args[0] == y->args[0]);
    }
}

/// An instruction as an operand is what was set for it. One for which nothing was set
/// is a local, which stands for itself.
pub proof fn instructions_as_operands(s: StateView, iid: InstrId)
    ensures
        s.values.dom().contains(iid.0) ==> s.value_expr(ValueId::Instr(iid)) == s.values[iid.0],
        !s.values.dom().contains(iid.0) ==> (s.func.instrs@[iid.0 as int] matches Instr::Special(
            Special::Textual(Textual::Deref(lid)),
        ) ==> s.value_expr(ValueId::Instr(iid)) == ExprView::Deref(VarView::Local(lid))),
{
}

/// `args` stand for `vids`: there are as many, and each stands for the operand at its
/// own place.
pub open spec fn stand_for(s: StateView, args: Seq<ExprView>, vids: Seq<ValueId>) -> bool {
    args.len() == vids.len() && forall|j: int|
        0 <= j < vids.len() ==> #[trigger] args[j] == s.value_expr(vids[j])
}

/// Operands keep their order and their number.
pub proof fn operands_stand_in_order(s: StateView, vids: Seq<ValueId>)
    ensures
        stand_for(s, s.value_exprs(vids), vids),
{
}

/// What was set for one instruction is what a lookup of it gives, and no other
/// instruction or constant is affected.
pub proof fn setting_a_value_affects_no_other(s: StateView, iid: InstrId, e: ExprView, vid: ValueId)
    ensures
        s.bind(iid, e).value_expr(ValueId::Instr(iid)) == e,
        vid != ValueId::Instr(iid) ==> s.bind(iid, e).value_expr(vid) == s.value_expr(vid),
        s.bind(iid, e).body == s.body,
        s.bind(iid, e).strings == s.strings,
{
}

// ---------------------------------------------------------------------------
// Source locations
// ---------------------------------------------------------------------------

/// A source location is one statement with the location that it names. Where there
/// is none, nothing is emitted.
pub proof fn a_location_is_one_statement(s: StateView, l: LocId)
    ensures
        s.at_loc(None) == s,
        s.at_loc(Some(l)) == (StateView {
            body: BodyView {
                stmts: s.body.stmts.push(StmtView::Loc(s.func.locs@[l.0 as int])),
                next: s.body.next,
            },
            ..s
        }),
{
}

/// Every instruction comes after its own source location.
pub proof fn instructions_come_after_their_location(s: StateView, iid: InstrId)
    ensures
        ({
            let instr = s.func.instrs@[iid.0 as int];
            let at = s.at_loc(instr_loc(instr));
            match instr {
                Instr::Call(call) => instr_written(s, iid) == call_written(at, iid, call),
                Instr::Hhbc(h) => instr_written(s, iid) == hhbc_written(at, iid, h),
                Instr::MemberOp(_) => true,
                Instr::Special(sp) => instr_written(s, iid) == special_written(at, iid, sp),
                Instr::Terminator(_) => instr_written(s, iid) == at,
            }
        }),
{
}

// ---------------------------------------------------------------------------
// Instructions of the virtual machine
// ---------------------------------------------------------------------------

/// `t` is `s` with one more statement, which defines the next value.
pub open spec fn defines_one(s: StateView, t: StateView, stmt: StmtView) -> bool {
    t == (StateView {
        body: BodyView { stmts: s.body.stmts.push(stmt), next: s.body.next + 1 },
        ..s
    })
}

/// `t` is `s` with one more statement, which defines the next value, and that value
/// is the one of `iid`.
pub open spec fn yields_one(s: StateView, t: StateView, iid: InstrId, stmt: StmtView) -> bool {
    t == (StateView {
        body: BodyView { stmts: s.body.stmts.push(stmt), next: s.body.next + 1 },
        values: s.values.insert(iid.0, ExprView::Sid(s.body.next)),
        ..s
    })
}

/// Reading a local loads that local, and the loaded value is the one of the
/// instruction.
pub proof fn reading_a_local_loads_it(s: StateView, iid: InstrId, lid: LocalId, loc: Option<LocId>)
    ensures
        ({
            let load = StmtView::Load {
                dst: s.body.next,
                ty: Ty::Mixed,
                src: ExprView::Deref(VarView::Local(lid)),
            };
            &&& yields_one(s, hhbc_written(s, iid, Hhbc::CGetL(lid, loc)), iid, load)
            &&& yields_one(s, hhbc_written(s, iid, Hhbc::CUGetL(lid, loc)), iid, load)
            &&& yields_one(s, hhbc_written(s, iid, Hhbc::ConsumeL(lid, loc)), iid, load)
        }),
{
}

/// Writing a local stores the operand in that local, and the operand is the value of
/// the instruction. Unsetting it stores null and has no value.
pub proof fn writing_a_local_stores_the_operand(
    s: StateView,
    iid: InstrId,
    vid: ValueId,
    lid: LocalId,
    loc: Option<LocId>,
)
    ensures
        hhbc_written(s, iid, Hhbc::SetL(vid, lid, loc)) == (StateView {
            body: BodyView {
                stmts: s.body.stmts.push(
                    StmtView::Store {
                        place: ExprView::Deref(VarView::Local(lid)),
                        src: s.value_expr(vid),
                        ty: Ty::Mixed,
                    },
                ),
                next: s.body.next,
            },
            values: s.values.insert(iid.0, s.value_expr(vid)),
            ..s
        }),
        hhbc_written(s, iid, Hhbc::UnsetL(lid, loc)) == (StateView {
            body: BodyView {
                stmts: s.body.stmts.push(
                    StmtView::Store {
                        place: ExprView::Deref(VarView::Local(lid)),
                        src: ExprView::Const(ConstView::Null),
                        ty: Ty::Mixed,
                    },
                ),
                next: s.body.next,
            },
            ..s
        }),
{
}

/// A constant of a class is loaded from the global of that class and that constant,
/// and a class is resolved to its own static side.
pub proof fn class_members_are_those_of_the_class(
    s: StateView,
    iid: InstrId,
    class: ClassId,
    cid: ConstId,
    loc: Option<LocId>,
)
    ensures
        yields_one(
            s,
            hhbc_written(s, iid, Hhbc::ClsCnsD(cid, class, loc)),
            iid,
            StmtView::Load {
                dst: s.body.next,
                ty: Ty::Mixed,
                src: ExprView::Deref(
                    VarView::Global(
                        NameView::Member {
                            class: ClassRefView::Id(class),
                            is_static: IsStatic::Static,
                            member: Member::Const(cid),
                        },
                    ),
                ),
            },
        ),
        yields_one(
            s,
            hhbc_written(s, iid, Hhbc::ResolveClass(class, loc)),
            iid,
            StmtView::LoadStaticClass { dst: s.body.next, class },
        ),
        s.method matches Some(mi) ==> yields_one(
            s,
            hhbc_written(s, iid, Hhbc::SelfCls(loc)),
            iid,
            StmtView::LoadStaticClass { dst: s.body.next, class: mi.class.name },
        ),
{
}

/// `t` is `s` where `text` is interned and a local with that name has been loaded with
/// the given type, as the next value.
pub open spec fn loads_named(s: StateView, t: StateView, text: Seq<char>, ty: Ty) -> bool {
    exists|id: UnitBytesId| #[trigger]
        names(t.strings, id, text) && t == (StateView {
            body: BodyView {
                stmts: s.body.stmts.push(
                    StmtView::Load {
                        dst: s.body.next,
                        ty,
                        src: ExprView::Deref(VarView::Local(LocalId::Named(id))),
                    },
                ),
                next: s.body.next + 1,
            },
            strings: t.strings,
            ..s
        }) && (t.strings == s.strings || t.strings == s.strings.push(encode_utf8(text)))
}

/// Whether `id` names the text.
pub open spec fn names(strings: Seq<Seq<u8>>, id: UnitBytesId, text: Seq<char>) -> bool {
    id.0 < strings.len() && strings[id.0 as int] == encode_utf8(text)
}

/// Where a text has been interned it is the string that its id names.
proof fn lemma_interned(s: StateView, text: Seq<char>)
    requires
        s.strings.len() < usize::MAX,
    ensures
        names(
            s.intern(text).strings,
            text_id(s.strings, text),
            text,
        ),
        s.intern(text).strings == s.strings || s.intern(text).strings == s.strings.push(
            encode_utf8(text),
        ),
{
    let bytes = encode_utf8(text);
    if s.strings.contains(bytes) {
        assert(s.strings[s.strings.index_of(bytes)] == bytes);
    }
}

/// `$this` is loaded from the local of that name, with the type of the side of the
/// class that the method belongs to.
pub proof fn this_is_loaded_with_its_type(s: StateView, mi: MethodInfo)
    requires
        s.strings.len() < usize::MAX,
    ensures
        loads_named(
            s,
            s.this_loaded(mi),
            "$this"@,
            Ty::ClassPtr { class: mi.class.name, is_static: mi.is_static },
        ),
{
    lemma_interned(s, "$this"@);
    let id = text_id(s.strings, "$this"@);
    assert(names(s.this_loaded(mi).strings, id, "$this"@));
}

/// `This` has what was loaded as its value.
pub proof fn this_yields_what_is_loaded(
    s: StateView,
    iid: InstrId,
    mi: MethodInfo,
    loc: Option<LocId>,
)
    requires
        s.method == Some(mi),
        s.strings.len() < usize::MAX,
    ensures
        hhbc_written(s, iid, Hhbc::This(loc)).values == s.values.insert(
            iid.0,
            ExprView::Sid(s.body.next),
        ),
        loads_named(
            s,
            (StateView { values: s.values, ..hhbc_written(s, iid, Hhbc::This(loc)) }),
            "$this"@,
            Ty::ClassPtr { class: mi.class.name, is_static: mi.is_static },
        ),
{
    this_is_loaded_with_its_type(s, mi);
    assert((StateView { values: s.values, ..hhbc_written(s, iid, Hhbc::This(loc)) })
        == s.this_loaded(mi));
}

/// An increment or decrement reads the local, makes one, adds or subtracts it, and
/// writes the result to the same local. It has the value before for a `Pre` operation
/// and the value after for a `Post` operation.
pub proof fn increments_write_back(
    s: StateView,
    iid: InstrId,
    lid: LocalId,
    op: IncDecOp,
    loc: Option<LocId>,
)
    ensures
        ({
            let n = s.body.next;
            let local = ExprView::Deref(VarView::Local(lid));
            let builtin = match op {
                IncDecOp::PreInc => hack::Hhbc::Add,
                IncDecOp::PostInc => hack::Hhbc::Add,
                IncDecOp::PreDec => hack::Hhbc::Sub,
                IncDecOp::PostDec => hack::Hhbc::Sub,
            };
            let value = match op {
                IncDecOp::PreInc => n,
                IncDecOp::PostInc => n + 2,
                IncDecOp::PreDec => n,
                IncDecOp::PostDec => n + 2,
            };
            hhbc_written(s, iid, Hhbc::IncDecL(lid, op, loc)) == (StateView {
                body: BodyView {
                    stmts: s.body.stmts.push(
                        StmtView::Load { dst: n, ty: Ty::Mixed, src: local },
                    ).push(
                        StmtView::Call {
                            dst: n + 1,
                            target: NameView::Builtin(Builtin::Int),
                            args: seq![ExprView::Const(ConstView::Int(1))],
                        },
                    ).push(
                        StmtView::Call {
                            dst: n + 2,
                            target: NameView::Builtin(Builtin::Hhbc(builtin)),
                            args: seq![ExprView::Sid(n), ExprView::Sid(n + 1)],
                        },
                    ).push(
                        StmtView::Store { place: local, src: ExprView::Sid(n + 2), ty: Ty::Mixed },
                    ),
                    next: n + 3,
                },
                values: s.values.insert(iid.0, ExprView::Sid(value)),
                ..s
            })
        }),
{
}

/// A closure is an object of its class, allocated as the next value. The constructor
/// of that class is called on it with the captured operands in order, and the object
/// is the value of the instruction.
pub proof fn closures_are_constructed(
    s: StateView,
    iid: InstrId,
    operands: Vec<ValueId>,
    clsid: ClassId,
    loc: Option<LocId>,
)
    requires
        s.strings.len() < usize::MAX,
        s.all_ready(operands@),
    ensures
        ({
            let t = hhbc_written(s, iid, Hhbc::CreateCl { operands, clsid, loc });
            let k = s.body.stmts.len() as int;
            &&& t.body.stmts.len() == k + 2
            &&& t.body.stmts.take(k) == s.body.stmts
            &&& t.body.next == s.body.next + 2
            &&& t.values == s.values.insert(iid.0, ExprView::Sid(s.body.next))
            &&& t.body.stmts[k] == (StmtView::Eval {
                dst: s.body.next,
                src: ExprView::Alloc(Ty::Class { class: clsid, is_static: IsStatic::NonStatic }),
            })
            &&& t.body.stmts[k + 1] matches StmtView::CallStatic { dst, target, this, args }
            &&& dst == s.body.next + 1
            &&& target matches NameView::Member {
                class,
                is_static,
                member: Member::Method(MethodId { id }),
            }
            &&& class == ClassRefView::Id(clsid)
            &&& is_static == IsStatic::NonStatic
            &&& names(t.strings, id, "__construct"@)
            &&& this == ExprView::Sid(s.body.next)
            &&& stand_for(s, args, operands@)
        }),
{
    lemma_interned(s, "__construct"@);
    let t = hhbc_written(s, iid, Hhbc::CreateCl { operands, clsid, loc });
    let k = s.body.stmts.len() as int;
    assert(t.body.stmts.take(k) =~= s.body.stmts);
    let args = s.intern("__construct"@).value_exprs(operands@);
    assert forall|j: int| 0 <= j < operands@.len() implies #[trigger] args[j] == s.value_expr(
        operands@[j],
    ) by {
        assert(s.ready(operands@[j]));
    }
}

/// An instruction without a form of its own calls the function that is named after it
/// with its operands in order.
pub proof fn other_instructions_call_by_name(
    s: StateView,
    iid: InstrId,
    text: String,
    operands: Vec<ValueId>,
    locals: Vec<LocalId>,
    loc: Option<LocId>,
)
    ensures
        yields_one(
            s,
            hhbc_written(s, iid, Hhbc::Other { text, operands, locals, loc }),
            iid,
            StmtView::Call {
                dst: s.body.next,
                target: NameView::Text("TODO_hhbc_"@ + text@),
                args: s.value_exprs(operands@),
            },
        ),
        stand_for(s, s.value_exprs(operands@), operands@),
{
}

/// A member operation is performed for its own instruction with its operands in order.
pub proof fn member_operations_take_their_operands(s: StateView, iid: InstrId, mop: MemberOp)
    requires
        s.func.instrs@[iid.0 as int] == Instr::MemberOp(mop),
    ensures
        ({
            let at = s.at_loc(mop.loc);
            let args = at.value_exprs(mop.operands@);
            &&& stand_for(s, args, mop.operands@)
            &&& yields_one(
                at,
                instr_written(s, iid),
                iid,
                StmtView::MemberOp { dst: s.body.next, iid, operands: args },
            )
        }),
{
}

// ---------------------------------------------------------------------------
// Special instructions
// ---------------------------------------------------------------------------

/// An assertion stops the path by a test of the asserted value itself: `Prune` on it
/// for `AssertTrue`, `PruneNot` for `AssertFalse`. Nothing else changes, and the
/// statement mentions exactly the values that the asserted operand mentions.
pub proof fn assertions_test_the_asserted_value(
    s: StateView,
    iid: InstrId,
    cond: ValueId,
    loc: Option<LocId>,
)
    ensures
        ({
            let test = ExprView::Call {
                target: NameView::Builtin(Builtin::IsTrue),
                args: seq![s.value_expr(cond)],
            };
            &&& special_written(
                s,
                iid,
                Special::Textual(Textual::AssertTrue(cond, loc)),
            ) == (StateView {
                body: BodyView {
                    stmts: s.body.stmts.push(StmtView::Prune(test)),
                    next: s.body.next,
                },
                ..s
            })
            &&& special_written(
                s,
                iid,
                Special::Textual(Textual::AssertFalse(cond, loc)),
            ) == (StateView {
                body: BodyView {
                    stmts: s.body.stmts.push(StmtView::PruneNot(test)),
                    next: s.body.next,
                },
                ..s
            })
            &&& forall|sid: nat| #[trigger]
                stmt_uses(StmtView::Prune(test), sid) <==> expr_uses(s.value_expr(cond), sid)
            &&& forall|sid: nat| #[trigger]
                stmt_uses(StmtView::PruneNot(test), sid) <==> expr_uses(s.value_expr(cond), sid)
        }),
{
    let test = ExprView::Call {
        target: NameView::Builtin(Builtin::IsTrue),
        args: seq![s.value_expr(cond)],
    };
    assert forall|sid: nat| #[trigger] expr_uses(test, sid) <==> expr_uses(
        s.value_expr(cond),
        sid,
    ) by {
        lemma_call_uses(NameView::Builtin(Builtin::IsTrue), s.value_expr(cond), sid);
    }
}

/// A call with one argument mentions what the argument mentions.
proof fn lemma_call_uses(target: NameView, e: ExprView, sid: nat)
    ensures
        expr_uses(ExprView::Call { target, args: seq![e] }, sid) <==> expr_uses(e, sid),
{
    let call = ExprView::Call { target, args: seq![e] };
    if expr_uses(call, sid) {
        assert(call->args[0] == e);
        assert(expr_uses(e, sid));
    }
    if expr_uses(e, sid) {
        assert(call->args[0] == e);
        assert(expr_uses(call->args[0], sid));
        assert(expr_uses(call, sid));
    }
}

/// A local for use as an operand emits nothing. A built-in is called by its own name
/// with its operands in order. A selected value and a string are copied as the next
/// value, the string with the bytes that its own id names.
pub proof fn special_instructions_emit_their_operands(
    s: StateView,
    iid: InstrId,
    lid: LocalId,
    vid: ValueId,
    idx: u32,
    target: String,
    values: Vec<ValueId>,
    id: UnitBytesId,
    loc: Option<LocId>,
)
    ensures
        special_written(s, iid, Special::Textual(Textual::Deref(lid))) == s,
        yields_one(
            s,
            special_written(
                s,
                iid,
                Special::Textual(Textual::HackBuiltin { target, values, loc }),
            ),
            iid,
            StmtView::Call {
                dst: s.body.next,
                target: NameView::Text(target@),
                args: s.value_exprs(values@),
            },
        ),
        stand_for(s, s.value_exprs(values@), values@),
        yields_one(
            s,
            special_written(s, iid, Special::Select(vid, idx)),
            iid,
            StmtView::Copy { dst: s.body.next, src: s.value_expr(vid) },
        ),
        yields_one(
            s,
            special_written(s, iid, Special::Textual(Textual::String(id))),
            iid,
            StmtView::Copy {
                dst: s.body.next,
                src: ExprView::Call {
                    target: NameView::Builtin(Builtin::String),
                    args: seq![ExprView::Const(ConstView::String(s.strings[id.0 as int]))],
                },
            },
        ),
{
}

/// A copied instruction has the value of that instruction and emits nothing. A copied
/// constant is evaluated as the next value.
pub proof fn copies_yield_what_they_copy(s: StateView, iid: InstrId, from: InstrId, c: ConstantId)
    ensures
        special_written(s, iid, Special::Copy(ValueId::Instr(from))) == (StateView {
            values: s.values.insert(iid.0, s.value_expr(ValueId::Instr(from))),
            ..s
        }),
        yields_one(
            s,
            special_written(s, iid, Special::Copy(ValueId::Constant(c))),
            iid,
            StmtView::Eval {
                dst: s.body.next,
                src: copied_constant(s.strings, s.func.constants@[c.0 as int]),
            },
        ),
{
}

/// What a copied constant is evaluated from holds what the constant holds.
pub proof fn copied_constants_hold_their_value(
    strings: Seq<Seq<u8>>,
    array: ArrayId,
    b: bool,
    bits: FloatBits,
    i: i64,
    id: UnitBytesId,
)
    ensures
        copied_constant(strings, Constant::Array(array)) == ExprView::Array(array),
        copied_constant(strings, Constant::Bool(b)) == ExprView::Const(
            if b {
                ConstView::True
            } else {
                ConstView::False
            },
        ),
        copied_constant(strings, Constant::Float(bits)) == ExprView::Const(ConstView::Float(bits)),
        copied_constant(strings, Constant::Int(i)) == (ExprView::Call {
            target: NameView::Builtin(Builtin::Int),
            args: seq![ExprView::Const(ConstView::Int(i))],
        }),
        copied_constant(strings, Constant::String(id)) == (ExprView::Call {
            target: NameView::Builtin(Builtin::String),
            args: seq![ExprView::Const(ConstView::String(strings[id.0 as int]))],
        }),
        copied_constant(strings, Constant::Null) == ExprView::Const(ConstView::Null),
        copied_constant(strings, Constant::Uninit) == ExprView::Const(ConstView::Null),
{
}

// ---------------------------------------------------------------------------
// Terminators
// ---------------------------------------------------------------------------

/// `t` is `s` with one more statement, which defines nothing.
pub open spec fn adds_one(s: StateView, t: StateView, stmt: StmtView) -> bool {
    t == (StateView {
        body: BodyView { stmts: s.body.stmts.push(stmt), next: s.body.next },
        ..s
    })
}

/// A jump goes to its own target, with its own arguments in order where it has any.
/// A conditional jump goes to its first target or to its second.
pub proof fn jumps_go_to_their_targets(
    s: StateView,
    bid: BlockId,
    params: Vec<ValueId>,
    cond: ValueId,
    pred: Predicate,
    other: BlockId,
    loc: Option<LocId>,
)
    ensures
        ({
            let at = s.at_loc(loc);
            let jump = StmtView::Jmp { targets: seq![bid], args: Seq::empty() };
            &&& adds_one(at, terminator_written(s, Terminator::Enter(bid, loc)), jump)
            &&& adds_one(at, terminator_written(s, Terminator::Jmp(bid, loc)), jump)
            &&& adds_one(
                at,
                terminator_written(s, Terminator::JmpArgs(bid, params, loc)),
                StmtView::Jmp { targets: seq![bid], args: at.value_exprs(params@) },
            )
            &&& stand_for(s, at.value_exprs(params@), params@)
            &&& adds_one(
                at,
                terminator_written(
                    s,
                    Terminator::JmpOp { cond, pred, true_bid: bid, false_bid: other, loc },
                ),
                StmtView::Jmp { targets: seq![bid, other], args: Seq::empty() },
            )
        }),
{
}

/// A return returns its own operand.
pub proof fn a_return_returns_its_operand(s: StateView, vid: ValueId, loc: Option<LocId>)
    ensures
        adds_one(
            s.at_loc(loc),
            terminator_written(s, Terminator::Ret(vid, loc)),
            StmtView::Ret(s.value_expr(vid)),
        ),
        adds_one(s, terminator_written(s, Terminator::Unreachable), StmtView::Unreachable),
{
}

/// `t` is `s` with a call of `target`, which is the next value, and the end of the
/// path.
pub open spec fn calls_and_stops(
    s: StateView,
    t: StateView,
    target: NameView,
    args: Seq<ExprView>,
) -> bool {
    t == (StateView {
        body: BodyView {
            stmts: s.body.stmts.push(StmtView::Call { dst: s.body.next, target, args }).push(
                StmtView::Unreachable,
            ),
            next: s.body.next + 1,
        },
        ..s
    })
}

/// An exit, a fatal error and a throw hand their own operand to the function that
/// performs them. A terminator without a form of its own calls the function that is
/// named after it. Then the path ends.
pub proof fn ends_hand_over_their_operand(
    s: StateView,
    vid: ValueId,
    text: String,
    locals: Vec<LocalId>,
    loc: Option<LocId>,
)
    ensures
        calls_and_stops(
            s.at_loc(loc),
            terminator_written(s, Terminator::Exit(vid, loc)),
            NameView::Builtin(Builtin::Hhbc(hack::Hhbc::Exit)),
            seq![s.value_expr(vid)],
        ),
        calls_and_stops(
            s.at_loc(loc),
            terminator_written(s, Terminator::Fatal(vid, loc)),
            NameView::Builtin(Builtin::Hhbc(hack::Hhbc::Fatal)),
            seq![s.value_expr(vid)],
        ),
        calls_and_stops(
            s.at_loc(loc),
            terminator_written(s, Terminator::Throw(vid, loc)),
            NameView::Text("TODO_throw"@),
            seq![s.value_expr(vid)],
        ),
        calls_and_stops(
            s.at_loc(loc),
            terminator_written(s, Terminator::Other { text, locals, loc }),
            NameView::Text("$todo."@ + text@),
            Seq::empty(),
        ),
{
}

// ---------------------------------------------------------------------------
// Calls
// ---------------------------------------------------------------------------

/// A list with the text where `cond` holds, and an empty one elsewhere.
#[verifier::opaque]
pub open spec fn only_if(cond: bool, text: Seq<char>) -> Seq<Seq<char>> {
    if cond {
        seq![text]
    } else {
        Seq::empty()
    }
}

/// Each feature of a call that has no form in Textual has its own note, in a fixed
/// order, and nothing else has one.
pub proof fn each_feature_has_its_note(strings: Seq<Seq<u8>>, call: Call)
    ensures
        call_notes(strings, call) == only_if(
            call.inouts matches Some(v) && v@.len() > 0,
            "TODO: inouts"@,
        ) + only_if(call.num_rets >= 2, "TODO: num_rets >= 2"@) + only_if(
            call.context matches Some(id) && strings[id.0 as int].len() > 0,
            "TODO: write_call(Context: {context:?})"@,
        ) + only_if(call.flags.has_unpack, "TODO: FCallArgsFlags::HasUnpack"@) + only_if(
            call.flags.has_generics,
            "TODO: FCallArgsFlags::HasGenerics"@,
        ) + only_if(call.flags.skip_repack, "TODO: FCallArgsFlags::SkipRepack"@) + only_if(
            call.flags.skip_coeffects_check,
            "TODO: FCallArgsFlags::SkipCoeffectsCheck"@,
        ) + only_if(
            call.flags.enforce_readonly_this,
            "TODO: FCallArgsFlags::EnforceReadonlyThis"@,
        ) + only_if(call.flags.explicit_context, "TODO: FCallArgsFlags::ExplicitContext"@)
            + only_if(call.flags.has_in_out, "TODO: FCallArgsFlags::HasInOut"@) + only_if(
            call.flags.enforce_in_out,
            "TODO: FCallArgsFlags::EnforceInOut"@,
        ) + only_if(call.flags.enforce_readonly, "TODO: FCallArgsFlags::EnforceReadonly"@)
            + only_if(call.flags.num_args_start, "TODO: FCallArgsFlags::NumArgsStart"@),
{
    let a = only_if(call.inouts matches Some(v) && v@.len() > 0, "TODO: inouts"@);
    assert(a == noted(
        Seq::empty(),
        call.inouts matches Some(v) && v@.len() > 0,
        "TODO: inouts"@,
    )) by {
        reveal(only_if);
    }
    let b = lemma_noted(a, call.num_rets >= 2, "TODO: num_rets >= 2"@);
    let c = lemma_noted(
        b,
        call.context matches Some(id) && strings[id.0 as int].len() > 0,
        "TODO: write_call(Context: {context:?})"@,
    );
    let f = call.flags;
    let d = lemma_noted(c, f.has_unpack, "TODO: FCallArgsFlags::HasUnpack"@);
    let d = lemma_noted(d, f.has_generics, "TODO: FCallArgsFlags::HasGenerics"@);
    let d = lemma_noted(d, f.skip_repack, "TODO: FCallArgsFlags::SkipRepack"@);
    let d = lemma_noted(d, f.skip_coeffects_check, "TODO: FCallArgsFlags::SkipCoeffectsCheck"@);
    let d = lemma_noted(d, f.enforce_readonly_this, "TODO: FCallArgsFlags::EnforceReadonlyThis"@);
    let d = lemma_noted(d, f.explicit_context, "TODO: FCallArgsFlags::ExplicitContext"@);
    let d = lemma_noted(d, f.has_in_out, "TODO: FCallArgsFlags::HasInOut"@);
    let d = lemma_noted(d, f.enforce_in_out, "TODO: FCallArgsFlags::EnforceInOut"@);
    let d = lemma_noted(d, f.enforce_readonly, "TODO: FCallArgsFlags::EnforceReadonly"@);
    let d = lemma_noted(d, f.num_args_start, "TODO: FCallArgsFlags::NumArgsStart"@);
}

proof fn lemma_noted(notes: Seq<Seq<char>>, cond: bool, text: Seq<char>) -> (r: Seq<Seq<char>>)
    ensures
        r == noted(notes, cond, text),
        r == notes + only_if(cond, text),
{
    reveal(only_if);
    assert(noted(notes, cond, text) =~= notes + only_if(cond, text));
    noted(notes, cond, text)
}

/// The notes of a call stand in front of it as comments, in order, and define nothing.
pub proof fn notes_become_comments(b: BodyView, notes: Seq<Seq<char>>, i: int)
    ensures
        commented(b, notes).next == b.next,
        commented(b, notes).stmts.len() == b.stmts.len() + notes.len(),
        commented(b, notes).stmts.take(b.stmts.len() as int) == b.stmts,
        0 <= i < notes.len() ==> commented(b, notes).stmts[b.stmts.len() + i]
            == StmtView::Comment(notes[i]),
{
    assert(commented(b, notes).stmts.take(b.stmts.len() as int) =~= b.stmts);
}

/// What comes before the call of a callee: nothing, the static side of a class as the
/// next value, or `$this` as the next value.
pub open spec fn calls_callee(s: StateView, t: StateView, call: Call) -> bool {
    let k = s.body.stmts.len() as int;
    let last = t.body.stmts.last();
    let own = |mi: MethodInfo, c: ClassId, method: MethodId|
        NameView::Member {
            class: ClassRefView::Id(c),
            is_static: mi.is_static,
            member: Member::Method(method),
        };
    match call.detail {
        // C::foo(): the static method of C, called on the static side of C.
        CallDetail::FCallClsMethodD { clsid, method } => {
            &&& t.body.stmts.len() == k + 2
            &&& t.body.next == s.body.next + 2
            &&& t.strings == s.strings
            &&& t.body.stmts[k] == (StmtView::LoadStaticClass { dst: s.body.next, class: clsid })
            &&& last matches StmtView::CallStatic { dst, target, this, args }
            &&& dst == s.body.next + 1
            &&& target == (NameView::Member {
                class: ClassRefView::Id(clsid),
                is_static: IsStatic::Static,
                member: Member::Method(method),
            })
            &&& this == ExprView::Sid(s.body.next)
            &&& stand_for(s, args, call.args@)
        },
        // self::foo() and parent::foo() are static calls on `$this`, static::foo() is a
        // virtual one. All are of the side of the class that the method belongs to.
        CallDetail::FCallClsMethodSD { clsref, method } => {
            &&& s.method matches Some(mi)
            &&& t.body.stmts.len() == k + 2
            &&& t.body.next == s.body.next + 2
            &&& t.body.stmts[k] matches StmtView::Load {
                dst: loaded,
                ty,
                src: ExprView::Deref(VarView::Local(LocalId::Named(id))),
            }
            &&& loaded == s.body.next
            &&& ty == (Ty::ClassPtr { class: mi.class.name, is_static: mi.is_static })
            &&& names(t.strings, id, "$this"@)
            &&& match clsref {
                SpecialClsRef::SelfCls => {
                    &&& last matches StmtView::CallStatic { dst, target, this, args }
                    &&& dst == s.body.next + 1
                    &&& target == own(mi, mi.class.name, method)
                    &&& this == ExprView::Sid(s.body.next)
                    &&& stand_for(s, args, call.args@)
                },
                SpecialClsRef::LateBoundCls => {
                    &&& last matches StmtView::CallVirtual { dst, target, this, args }
                    &&& dst == s.body.next + 1
                    &&& target == own(mi, mi.class.name, method)
                    &&& this == ExprView::Sid(s.body.next)
                    &&& stand_for(s, args, call.args@)
                },
                SpecialClsRef::ParentCls => {
                    &&& last matches StmtView::CallStatic { dst, target, this, args }
                    &&& dst == s.body.next + 1
                    &&& target matches NameView::Member { class: ClassRefView::Id(parent), .. }
                    &&& target == own(mi, parent, method)
                    &&& match mi.class.base {
                        Some(base) => parent == base,
                        None => names(t.strings, parent.id, "__parent__"@),
                    }
                    &&& this == ExprView::Sid(s.body.next)
                    &&& stand_for(s, args, call.args@)
                },
            }
        },
        // foo(): the function, called on null.
        CallDetail::FCallFuncD { func } => {
            &&& t.body.stmts.len() == k + 1
            &&& t.body.next == s.body.next + 1
            &&& t.strings == s.strings
            &&& last matches StmtView::CallStatic { dst, target, this, args }
            &&& dst == s.body.next
            &&& target == NameView::Function(func)
            &&& this == ExprView::Const(ConstView::Null)
            &&& stand_for(s, args, call.args@)
        },
        // $x->y(): the method of any class, called on the object through its class.
        CallDetail::FCallObjMethodD { flavor: _, method, obj } => {
            &&& t.body.stmts.len() == k + 1
            &&& t.body.next == s.body.next + 1
            &&& t.strings == s.strings
            &&& last matches StmtView::CallVirtual { dst, target, this, args }
            &&& dst == s.body.next
            &&& target == (NameView::Member {
                class: ClassRefView::Name("HackMixed"@),
                is_static: IsStatic::NonStatic,
                member: Member::Method(method),
            })
            &&& this == s.value_expr(obj)
            &&& stand_for(s, args, call.args@)
        },
        CallDetail::FCallClsMethod => marks(s, t, "$todo.FCallClsMethod"@),
        CallDetail::FCallClsMethodM => marks(s, t, "$todo.TODO_FCallClsMethodM"@),
        CallDetail::FCallClsMethodS => marks(s, t, "$todo.TODO_FCallClsMethodS"@),
        CallDetail::FCallFunc => marks(s, t, "$todo.TODO_FCallFunc"@),
        CallDetail::FCallObjMethod => marks(s, t, "$todo.FCallObjMethod"@),
        CallDetail::FCallCtor => true,
    }
}

/// `t` is `s` with a call of a marker function without arguments.
pub open spec fn marks(s: StateView, t: StateView, target: Seq<char>) -> bool {
    defines_one(
        s,
        t,
        StmtView::Call { dst: s.body.next, target: NameView::Text(target), args: Seq::empty() },
    )
}

/// The callee of a call is the one that the call names, with the object that the call
/// is on and the arguments in their places.
pub proof fn the_callee_is_called(s: StateView, call: Call)
    requires
        s.strings.len() < usize::MAX - 1,
        s.all_ready(call.args@),
        call.detail is FCallClsMethodSD ==> s.method is Some,
    ensures
        calls_callee(s, callee_called(s, call), call),
        callee_called(s, call).values == s.values,
        callee_called(s, call).constants == s.constants,
        callee_called(s, call).body.stmts.take(s.body.stmts.len() as int) == s.body.stmts,
{
    let t = callee_called(s, call);
    assert(t.body.stmts.take(s.body.stmts.len() as int) =~= s.body.stmts);
    reveal_strlit("$todo.");
    reveal_strlit("$todo.FCallClsMethod");
    reveal_strlit("FCallClsMethod");
    reveal_strlit("$todo.TODO_FCallClsMethodM");
    reveal_strlit("TODO_FCallClsMethodM");
    reveal_strlit("$todo.TODO_FCallClsMethodS");
    reveal_strlit("TODO_FCallClsMethodS");
    reveal_strlit("$todo.TODO_FCallFunc");
    reveal_strlit("TODO_FCallFunc");
    reveal_strlit("$todo.FCallObjMethod");
    reveal_strlit("FCallObjMethod");
    match call.detail {
        CallDetail::FCallClsMethod => {
            assert("$todo."@ + "FCallClsMethod"@ =~= "$todo.FCallClsMethod"@);
        },
        CallDetail::FCallClsMethodM => {
            assert("$todo."@ + "TODO_FCallClsMethodM"@ =~= "$todo.TODO_FCallClsMethodM"@);
        },
        CallDetail::FCallClsMethodS => {
            assert("$todo."@ + "TODO_FCallClsMethodS"@ =~= "$todo.TODO_FCallClsMethodS"@);
        },
        CallDetail::FCallFunc => {
            assert("$todo."@ + "TODO_FCallFunc"@ =~= "$todo.TODO_FCallFunc"@);
        },
        CallDetail::FCallObjMethod => {
            assert("$todo."@ + "FCallObjMethod"@ =~= "$todo.FCallObjMethod"@);
        },
        CallDetail::FCallClsMethodSD { .. } => {
            lemma_interned(s, "$this"@);
            lemma_interned(s, "__parent__"@);
            lemma_interned(s.intern("__parent__"@), "$this"@);
        },
        _ => {},
    }
}

/// An asynchronous call awaits the value that was defined last, as the next value. Any
/// other call awaits nothing.
pub proof fn asynchronous_calls_are_awaited(s: StateView)
    requires
        s.body.next > 0,
    ensures
        awaited(s, false) == s,
        defines_one(
            s,
            awaited(s, true),
            StmtView::Call {
                dst: s.body.next,
                target: NameView::Builtin(Builtin::Await),
                args: seq![ExprView::Sid((s.body.next - 1) as nat)],
            },
        ),
{
}

/// A call is its notes, the call of its callee, and the wait for its result. The
/// value of the instruction is the one that is defined last.
pub proof fn a_call_yields_its_result(s: StateView, iid: InstrId, call: Call)
    requires
        s.strings.len() < usize::MAX - 1,
        s.all_ready(call.args@),
        call.detail is FCallClsMethodSD ==> s.method is Some,
        !(call.detail is FCallCtor),
    ensures
        ({
            let noted = StateView {
                body: BodyView {
                    stmts: s.body.stmts + call_notes(s.strings, call).map_values(
                        |text: Seq<char>| StmtView::Comment(text),
                    ),
                    next: s.body.next,
                },
                ..s
            };
            let called = callee_called(noted, call);
            let done = awaited(called, call.flags.has_async_eager_offset);
            &&& calls_callee(noted, called, call)
            &&& (forall|vid: ValueId| #[trigger] noted.value_expr(vid) == s.value_expr(vid))
            &&& call_written(s, iid, call) == (StateView {
                values: s.values.insert(iid.0, ExprView::Sid((done.body.next - 1) as nat)),
                ..done
            })
        }),
{
    let noted = s.with_body(commented(s.body, call_notes(s.strings, call)));
    assert(noted.all_ready(call.args@)) by {
        assert forall|i: int| 0 <= i < call.args@.len() implies noted.ready(
            #[trigger] call.args@[i],
        ) by {
            assert(s.ready(call.args@[i]));
        }
    }
    the_callee_is_called(noted, call);
}

} // verus!
