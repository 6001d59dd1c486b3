//! What instructions, statements and their views carry, written out.

use vstd::prelude::*;
use vstd::utf8::encode_utf8;

use crate::ascii_text::ascii_chars;
use crate::class::IsStatic;
use crate::func::{FunctionDef, ParamDecl, TextualFile};
use crate::hack::{builtin_view, Builtin};
use crate::ir::{
    instr_loc, instr_locals, mentioned_operands, terminator_loc, ArrayId, BlockId, Call,
    CallDetail, ClassId, ConstId, FloatBits, FunctionId, Hhbc, IncDecOp, Instr, InstrId, LocId,
    LocalId, MemberOp, MethodId, Predicate, Special, SrcLoc, Terminator, Textual,
    ValueId,
};
use crate::instr::{class_const_view, method_name, string_view};
use crate::state::{this_ty, todo_name, FuncState, MethodInfo, StateView};
use crate::strings::{string_id, text_id, with_string, with_text, StringInterner, UnitBytesId};
use crate::textual::{
    expr_uses, exprs_view, int_view, lemma_call_view, local_view, null_view, pointee, sids_view,
    stmt_defs, stmt_uses, BodyView, ClassRef, ClassRefView, Const, ConstView, Expr, ExprView,
    FuncBuilder, Member, Name, NameView, Sid, Stmt, StmtView, Ty, Var, VarView,
};

verus! {

// ---------------------------------------------------------------------------
// Instructions
// ---------------------------------------------------------------------------

/// Every instruction that carries a source location gives that one, and the others
/// give none.
pub proof fn instructions_give_their_location(
    call: Call,
    lid: LocalId,
    vid: ValueId,
    vids: Vec<ValueId>,
    lids: Vec<LocalId>,
    text: String,
    class: ClassId,
    cid: ConstId,
    op: IncDecOp,
    mop: MemberOp,
    id: UnitBytesId,
    idx: u32,
    loc: Option<LocId>,
)
    ensures
        instr_loc(Instr::Call(call)) == call.loc,
        instr_loc(Instr::MemberOp(mop)) == mop.loc,
        instr_loc(Instr::Hhbc(Hhbc::CGetL(lid, loc))) == loc,
        instr_loc(Instr::Hhbc(Hhbc::CUGetL(lid, loc))) == loc,
        instr_loc(Instr::Hhbc(Hhbc::ClsCnsD(cid, class, loc))) == loc,
        instr_loc(Instr::Hhbc(Hhbc::ConsumeL(lid, loc))) == loc,
        instr_loc(Instr::Hhbc(Hhbc::CreateCl { operands: vids, clsid: class, loc })) == loc,
        instr_loc(Instr::Hhbc(Hhbc::IncDecL(lid, op, loc))) == loc,
        instr_loc(Instr::Hhbc(Hhbc::ResolveClass(class, loc))) == loc,
        instr_loc(Instr::Hhbc(Hhbc::SelfCls(loc))) == loc,
        instr_loc(Instr::Hhbc(Hhbc::SetL(vid, lid, loc))) == loc,
        instr_loc(Instr::Hhbc(Hhbc::This(loc))) == loc,
        instr_loc(Instr::Hhbc(Hhbc::UnsetL(lid, loc))) == loc,
        instr_loc(Instr::Hhbc(Hhbc::Other { text, operands: vids, locals: lids, loc })) == loc,
        instr_loc(Instr::Special(Special::Textual(Textual::AssertFalse(vid, loc)))) == loc,
        instr_loc(Instr::Special(Special::Textual(Textual::AssertTrue(vid, loc)))) == loc,
        instr_loc(
            Instr::Special(
                Special::Textual(Textual::HackBuiltin { target: text, values: vids, loc }),
            ),
        ) == loc,
        instr_loc(Instr::Special(Special::Textual(Textual::Deref(lid)))) == None::<LocId>,
        instr_loc(Instr::Special(Special::Textual(Textual::String(id)))) == None::<LocId>,
        instr_loc(Instr::Special(Special::Copy(vid))) == None::<LocId>,
        instr_loc(Instr::Special(Special::Select(vid, idx))) == None::<LocId>,
{
}

/// So do terminators.
pub proof fn terminators_give_their_location(
    bid: BlockId,
    vid: ValueId,
    vids: Vec<ValueId>,
    lids: Vec<LocalId>,
    text: String,
    pred: Predicate,
    other: BlockId,
    loc: Option<LocId>,
)
    ensures
        terminator_loc(Terminator::Enter(bid, loc)) == loc,
        terminator_loc(Terminator::Exit(vid, loc)) == loc,
        terminator_loc(Terminator::Fatal(vid, loc)) == loc,
        terminator_loc(Terminator::Jmp(bid, loc)) == loc,
        terminator_loc(Terminator::JmpArgs(bid, vids, loc)) == loc,
        terminator_loc(
            Terminator::JmpOp { cond: vid, pred, true_bid: bid, false_bid: other, loc },
        ) == loc,
        terminator_loc(Terminator::Ret(vid, loc)) == loc,
        terminator_loc(Terminator::Throw(vid, loc)) == loc,
        terminator_loc(Terminator::Unreachable) == None::<LocId>,
        terminator_loc(Terminator::Other { text, locals: lids, loc }) == loc,
{
}

/// An instruction names the locals that it carries, and no others.
pub proof fn instructions_name_their_locals(
    lid: LocalId,
    vid: ValueId,
    vids: Vec<ValueId>,
    lids: Vec<LocalId>,
    text: String,
    class: ClassId,
    cid: ConstId,
    op: IncDecOp,
    mop: MemberOp,
    call: Call,
    loc: Option<LocId>,
)
    ensures
        instr_locals(Instr::Hhbc(Hhbc::CGetL(lid, loc))) == seq![lid],
        instr_locals(Instr::Hhbc(Hhbc::CUGetL(lid, loc))) == seq![lid],
        instr_locals(Instr::Hhbc(Hhbc::ConsumeL(lid, loc))) == seq![lid],
        instr_locals(Instr::Hhbc(Hhbc::IncDecL(lid, op, loc))) == seq![lid],
        instr_locals(Instr::Hhbc(Hhbc::SetL(vid, lid, loc))) == seq![lid],
        instr_locals(Instr::Hhbc(Hhbc::UnsetL(lid, loc))) == seq![lid],
        instr_locals(Instr::Hhbc(Hhbc::Other { text, operands: vids, locals: lids, loc })) == lids@,
        instr_locals(Instr::MemberOp(mop)) == mop.locals@,
        instr_locals(Instr::Special(Special::Textual(Textual::Deref(lid)))) == seq![lid],
        instr_locals(Instr::Terminator(Terminator::Other { text, locals: lids, loc })) == lids@,
        instr_locals(Instr::Call(call)).len() == 0,
        instr_locals(Instr::Hhbc(Hhbc::ClsCnsD(cid, class, loc))).len() == 0,
        instr_locals(Instr::Hhbc(Hhbc::CreateCl { operands: vids, clsid: class, loc })).len() == 0,
        instr_locals(Instr::Hhbc(Hhbc::ResolveClass(class, loc))).len() == 0,
        instr_locals(Instr::Hhbc(Hhbc::SelfCls(loc))).len() == 0,
        instr_locals(Instr::Hhbc(Hhbc::This(loc))).len() == 0,
        instr_locals(Instr::Terminator(Terminator::Ret(vid, loc))).len() == 0,
        instr_locals(Instr::Terminator(Terminator::JmpArgs(BlockId(0), vids, loc))).len() == 0,
{
}

/// An instruction mentions the operands that it carries, in order, but for a copy and
/// for the condition of a jump.
pub proof fn instructions_mention_their_operands(
    call: Call,
    lid: LocalId,
    vid: ValueId,
    vids: Vec<ValueId>,
    lids: Vec<LocalId>,
    text: String,
    class: ClassId,
    mop: MemberOp,
    bid: BlockId,
    pred: Predicate,
    idx: u32,
    loc: Option<LocId>,
)
    ensures
        call.detail matches CallDetail::FCallObjMethodD { obj, .. } ==> mentioned_operands(
            Instr::Call(call),
        ) == call.args@ + seq![obj],
        !(call.detail is FCallObjMethodD) ==> mentioned_operands(Instr::Call(call)) == call.args@,
        mentioned_operands(Instr::Hhbc(Hhbc::CreateCl { operands: vids, clsid: class, loc }))
            == vids@,
        mentioned_operands(Instr::Hhbc(Hhbc::SetL(vid, lid, loc))) == seq![vid],
        mentioned_operands(Instr::Hhbc(Hhbc::Other { text, operands: vids, locals: lids, loc }))
            == vids@,
        mentioned_operands(Instr::MemberOp(mop)) == mop.operands@,
        mentioned_operands(Instr::Special(Special::Select(vid, idx))) == seq![vid],
        mentioned_operands(Instr::Special(Special::Textual(Textual::AssertFalse(vid, loc))))
            == seq![vid],
        mentioned_operands(Instr::Special(Special::Textual(Textual::AssertTrue(vid, loc))))
            == seq![vid],
        mentioned_operands(
            Instr::Special(
                Special::Textual(Textual::HackBuiltin { target: text, values: vids, loc }),
            ),
        ) == vids@,
        mentioned_operands(Instr::Special(Special::Copy(vid))).len() == 0,
        mentioned_operands(Instr::Terminator(Terminator::Exit(vid, loc))) == seq![vid],
        mentioned_operands(Instr::Terminator(Terminator::Fatal(vid, loc))) == seq![vid],
        mentioned_operands(Instr::Terminator(Terminator::JmpArgs(bid, vids, loc))) == vids@,
        mentioned_operands(Instr::Terminator(Terminator::Ret(vid, loc))) == seq![vid],
        mentioned_operands(Instr::Terminator(Terminator::Throw(vid, loc))) == seq![vid],
        mentioned_operands(
            Instr::Terminator(
                Terminator::JmpOp { cond: vid, pred, true_bid: bid, false_bid: bid, loc },
            ),
        ).len() == 0,
        mentioned_operands(Instr::Terminator(Terminator::Jmp(bid, loc))).len() == 0,
        mentioned_operands(Instr::Hhbc(Hhbc::CGetL(lid, loc))).len() == 0,
{
    assert(call.detail matches CallDetail::FCallObjMethodD { obj, .. } ==> call.args@.push(obj)
        =~= call.args@ + seq![obj]);
}

/// No other instruction names a local or mentions an operand, and no other special
/// instruction has a location.
pub proof fn other_instructions_carry_nothing(instr: Instr)
    ensures
        instr_locals(instr).len() > 0 ==> match instr {
            Instr::Hhbc(h) => h is CGetL || h is CUGetL || h is ConsumeL || h is IncDecL
                || h is SetL || h is UnsetL || h is Other,
            Instr::MemberOp(_) => true,
            Instr::Special(Special::Textual(t)) => t is Deref,
            Instr::Terminator(t) => t is Other,
            _ => false,
        },
        mentioned_operands(instr).len() > 0 ==> match instr {
            Instr::Call(_) => true,
            Instr::Hhbc(h) => h is CreateCl || h is SetL || h is Other,
            Instr::MemberOp(_) => true,
            Instr::Special(Special::Select(_, _)) => true,
            Instr::Special(Special::Textual(t)) => t is AssertFalse || t is AssertTrue
                || t is HackBuiltin,
            Instr::Terminator(t) => t is Exit || t is Fatal || t is JmpArgs || t is Ret
                || t is Throw,
            _ => false,
        },
        instr matches Instr::Special(sp) ==> (!(sp is Textual) ==> instr_loc(instr) is None),
        instr matches Instr::Terminator(t) ==> instr_loc(instr) == terminator_loc(t),
{
}

// ---------------------------------------------------------------------------
// Statements
// ---------------------------------------------------------------------------

/// A body grows by the statement that it is told to, with the parts that it is given.
/// A statement with a destination defines the next value.
pub proof fn a_body_grows_by_one_statement(
    b: BodyView,
    stmt: StmtView,
    target: NameView,
    this: ExprView,
    src: ExprView,
    args: Seq<ExprView>,
    targets: Seq<BlockId>,
    ty: Ty,
    class: ClassId,
    iid: InstrId,
    text: Seq<char>,
)
    ensures
        b.plus(stmt) == (BodyView { stmts: b.stmts.push(stmt), next: b.next }),
        b.define(stmt) == (BodyView { stmts: b.stmts.push(stmt), next: b.next + 1 }),
        b.call(target, args) == b.define(StmtView::Call { dst: b.next, target, args }),
        b.call_static(target, this, args) == b.define(
            StmtView::CallStatic { dst: b.next, target, this, args },
        ),
        b.call_virtual(target, this, args) == b.define(
            StmtView::CallVirtual { dst: b.next, target, this, args },
        ),
        b.comment(text) == b.plus(StmtView::Comment(text)),
        b.copy(src) == b.define(StmtView::Copy { dst: b.next, src }),
        b.eval(src) == b.define(StmtView::Eval { dst: b.next, src }),
        b.jmp(targets, args) == b.plus(StmtView::Jmp { targets, args }),
        b.load(ty, src) == b.define(StmtView::Load { dst: b.next, ty, src }),
        b.load_static_class(class) == b.define(StmtView::LoadStaticClass { dst: b.next, class }),
        b.member_op(iid, args) == b.define(
            StmtView::MemberOp { dst: b.next, iid, operands: args },
        ),
        b.store(this, src, ty) == b.plus(StmtView::Store { place: this, src, ty }),
        b.next_sid() == ExprView::Sid(b.next),
{
}

/// The parts of expressions and names are those that they are made from.
pub proof fn parts_are_those_given(
    lid: LocalId,
    i: i64,
    bytes: Seq<u8>,
    b: Builtin,
    args: Seq<ExprView>,
    class: ClassRefView,
    id: ClassId,
    cid: ConstId,
    is_static: IsStatic,
    method: MethodId,
    mi: MethodInfo,
    msg: Seq<char>,
)
    ensures
        local_view(lid) == ExprView::Deref(VarView::Local(lid)),
        null_view() == ExprView::Const(ConstView::Null),
        int_view(i) == ExprView::Const(ConstView::Int(i)),
        string_view(bytes) == (ExprView::Call {
            target: NameView::Builtin(Builtin::String),
            args: seq![ExprView::Const(ConstView::String(bytes))],
        }),
        builtin_view(b, args) == (ExprView::Call { target: NameView::Builtin(b), args }),
        method_name(class, is_static, method) == (NameView::Member {
            class,
            is_static,
            member: Member::Method(method),
        }),
        class_const_view(id, cid) == ExprView::Deref(
            VarView::Global(
                NameView::Member {
                    class: ClassRefView::Id(id),
                    is_static: IsStatic::Static,
                    member: Member::Const(cid),
                },
            ),
        ),
        this_ty(mi) == (Ty::ClassPtr { class: mi.class.name, is_static: mi.is_static }),
        pointee(Ty::ClassPtr { class: id, is_static }) == (Ty::Class { class: id, is_static }),
        todo_name(msg) == NameView::Text("$todo."@ + msg),
{
}

/// A state changes only where it is told to.
pub proof fn a_state_changes_where_it_is_told_to(
    s: StateView,
    body: BodyView,
    iid: InstrId,
    e: ExprView,
    c: usize,
    sid: nat,
    text: Seq<char>,
    n: nat,
)
    ensures
        s.with_body(body) == (StateView { body, ..s }),
        s.bind(iid, e) == (StateView { values: s.values.insert(iid.0, e), ..s }),
        s.bind_constant(c, sid) == (StateView { constants: s.constants.insert(c, sid), ..s }),
        s.intern(text) == (StateView { strings: with_text(s.strings, text), ..s }),
        s.todo_called(text) == (StateView {
            body: BodyView {
                stmts: s.body.stmts.push(
                    StmtView::Call {
                        dst: s.body.next,
                        target: NameView::Text("$todo."@ + text),
                        args: Seq::empty(),
                    },
                ),
                next: s.body.next + 1,
            },
            ..s
        }),
        s.scope().n_strings == s.strings.len(),
        s.scope().constants == s.constants.dom(),
        s.room(n) <==> s.body.next + n <= usize::MAX,
        s.wf() <==> forall|i: int, j: int|
            0 <= i < j < s.strings.len() ==> #[trigger] s.strings[i] != #[trigger] s.strings[j],
{
    if forall|i: int, j: int|
        0 <= i < j < s.strings.len() ==> #[trigger] s.strings[i] != #[trigger] s.strings[j] {
        assert(s.strings.no_duplicates());
    }
}

/// A statement with a destination defines it, a label defines its parameters, and no
/// other statement defines anything.
pub proof fn statements_define_their_destination(
    dst: nat,
    name: NameView,
    e: ExprView,
    f: ExprView,
    args: Seq<ExprView>,
    params: Seq<nat>,
    bid: BlockId,
    targets: Seq<BlockId>,
    iid: InstrId,
    class: ClassId,
    ty: Ty,
    loc: SrcLoc,
    text: Seq<char>,
)
    ensures
        stmt_defs(StmtView::Call { dst, target: name, args }) == seq![dst],
        stmt_defs(StmtView::CallStatic { dst, target: name, this: e, args }) == seq![dst],
        stmt_defs(StmtView::CallVirtual { dst, target: name, this: e, args }) == seq![dst],
        stmt_defs(StmtView::Copy { dst, src: e }) == seq![dst],
        stmt_defs(StmtView::Eval { dst, src: e }) == seq![dst],
        stmt_defs(StmtView::Load { dst, ty, src: e }) == seq![dst],
        stmt_defs(StmtView::LoadStaticClass { dst, class }) == seq![dst],
        stmt_defs(StmtView::MemberOp { dst, iid, operands: args }) == seq![dst],
        stmt_defs(StmtView::Label { bid, params }) == params,
        stmt_defs(StmtView::Comment(text)).len() == 0,
        stmt_defs(StmtView::Handler(bid)).len() == 0,
        stmt_defs(StmtView::Jmp { targets, args }).len() == 0,
        stmt_defs(StmtView::Loc(loc)).len() == 0,
        stmt_defs(StmtView::Prune(e)).len() == 0,
        stmt_defs(StmtView::PruneNot(e)).len() == 0,
        stmt_defs(StmtView::Ret(e)).len() == 0,
        stmt_defs(StmtView::Store { place: e, src: f, ty }).len() == 0,
        stmt_defs(StmtView::Unreachable).len() == 0,
{
}

/// An expression mentions a value where it is that value, or a call one of whose
/// arguments does.
pub proof fn expressions_mention_their_values(
    target: NameView,
    args: Seq<ExprView>,
    n: nat,
    sid: nat,
    j: int,
)
    ensures
        expr_uses(ExprView::Sid(n), sid) <==> n == sid,
        0 <= j < args.len() && expr_uses(args[j], sid) ==> expr_uses(
            ExprView::Call { target, args },
            sid,
        ),
        expr_uses(ExprView::Call { target, args }, sid) ==> exists|i: int|
            0 <= i < args.len() && expr_uses(#[trigger] args[i], sid),
{
    let call = ExprView::Call { target, args };
    if 0 <= j < args.len() && expr_uses(args[j], sid) {
        assert(expr_uses(call->args[j], sid));
        assert(expr_uses(call, sid));
    }
    if expr_uses(call, sid) {
        let i = choose|i: int|
            0 <= i < call->args.len() && expr_uses(#[trigger] call->args[i], sid);
        assert(expr_uses(args[i], sid));
    }
}

/// A statement mentions what its expressions mention.
pub proof fn statements_mention_their_expressions(
    dst: nat,
    name: NameView,
    e: ExprView,
    f: ExprView,
    args: Seq<ExprView>,
    targets: Seq<BlockId>,
    iid: InstrId,
    ty: Ty,
    sid: nat,
    j: int,
)
    ensures
        expr_uses(e, sid) ==> {
            &&& stmt_uses(StmtView::CallStatic { dst, target: name, this: e, args }, sid)
            &&& stmt_uses(StmtView::CallVirtual { dst, target: name, this: e, args }, sid)
            &&& stmt_uses(StmtView::Copy { dst, src: e }, sid)
            &&& stmt_uses(StmtView::Eval { dst, src: e }, sid)
            &&& stmt_uses(StmtView::Load { dst, ty, src: e }, sid)
            &&& stmt_uses(StmtView::Prune(e), sid)
            &&& stmt_uses(StmtView::PruneNot(e), sid)
            &&& stmt_uses(StmtView::Ret(e), sid)
            &&& stmt_uses(StmtView::Store { place: e, src: f, ty }, sid)
            &&& stmt_uses(StmtView::Store { place: f, src: e, ty }, sid)
        },
        0 <= j < args.len() && expr_uses(args[j], sid) ==> {
            &&& stmt_uses(StmtView::Call { dst, target: name, args }, sid)
            &&& stmt_uses(StmtView::CallStatic { dst, target: name, this: e, args }, sid)
            &&& stmt_uses(StmtView::CallVirtual { dst, target: name, this: e, args }, sid)
            &&& stmt_uses(StmtView::Jmp { targets, args }, sid)
            &&& stmt_uses(StmtView::MemberOp { dst, iid, operands: args }, sid)
        },
{
}

/// In a sound state the statements define each value once and mention it after that
/// only, and every value that stands for an instruction or a constant has been made.
pub proof fn a_sound_state_knows_its_values(s: StateView, k: usize, sid: nat)
    requires
        s.sound(),
    ensures
        s.body.ordered(),
        s.body.scoped(),
        s.values.dom().contains(k) && expr_uses(s.values[k], sid) ==> sid < s.body.next,
        s.constants.dom().contains(k) ==> s.constants[k] < s.body.next,
{
}

// ---------------------------------------------------------------------------
// Views
// ---------------------------------------------------------------------------

/// The view of a statement has the same form and the views of the same parts, each at
/// its own place.
pub proof fn statements_are_seen_as_they_are(
    dst: Sid,
    target: Name,
    this: Expr,
    args: Vec<Expr>,
    src: Expr,
    text: String,
    bid: BlockId,
    targets: Vec<BlockId>,
    params: Vec<Sid>,
    ty: Ty,
    class: ClassId,
    loc: SrcLoc,
    iid: InstrId,
    seen: Seq<ExprView>,
    sids: Seq<nat>,
)
    requires
        seen.len() == args@.len(),
        forall|i: int| 0 <= i < seen.len() ==> #[trigger] seen[i] == args@[i]@,
        sids.len() == params@.len(),
        forall|i: int| 0 <= i < sids.len() ==> #[trigger] sids[i] == params@[i].0,
    ensures
        (Stmt::Call { dst, target, args })@ == (StmtView::Call {
            dst: dst.0 as nat,
            target: target@,
            args: seen,
        }),
        (Stmt::CallStatic { dst, target, this, args })@ == (StmtView::CallStatic {
            dst: dst.0 as nat,
            target: target@,
            this: this@,
            args: seen,
        }),
        (Stmt::CallVirtual { dst, target, this, args })@ == (StmtView::CallVirtual {
            dst: dst.0 as nat,
            target: target@,
            this: this@,
            args: seen,
        }),
        Stmt::Comment(text)@ == StmtView::Comment(text@),
        (Stmt::Copy { dst, src })@ == (StmtView::Copy { dst: dst.0 as nat, src: src@ }),
        (Stmt::Eval { dst, src })@ == (StmtView::Eval { dst: dst.0 as nat, src: src@ }),
        Stmt::Handler(bid)@ == StmtView::Handler(bid),
        (Stmt::Jmp { targets, args })@ == (StmtView::Jmp { targets: targets@, args: seen }),
        (Stmt::Label { bid, params })@ == (StmtView::Label { bid, params: sids }),
        (Stmt::Load { dst, ty, src })@ == (StmtView::Load { dst: dst.0 as nat, ty, src: src@ }),
        (Stmt::LoadStaticClass { dst, class })@ == (StmtView::LoadStaticClass {
            dst: dst.0 as nat,
            class,
        }),
        Stmt::Loc(loc)@ == StmtView::Loc(loc),
        (Stmt::MemberOp { dst, iid, operands: args })@ == (StmtView::MemberOp {
            dst: dst.0 as nat,
            iid,
            operands: seen,
        }),
        Stmt::Prune(src)@ == StmtView::Prune(src@),
        Stmt::PruneNot(src)@ == StmtView::PruneNot(src@),
        Stmt::Ret(src)@ == StmtView::Ret(src@),
        (Stmt::Store { place: this, src, ty })@ == (StmtView::Store {
            place: this@,
            src: src@,
            ty,
        }),
        Stmt::Unreachable@ == StmtView::Unreachable,
{
    assert(exprs_view(args@) =~= seen);
    assert(sids_view(params@) =~= sids);
}

/// So has the view of an expression.
pub proof fn expressions_are_seen_as_they_are(
    ty: Ty,
    array: ArrayId,
    target: Name,
    args: Vec<Expr>,
    bits: FloatBits,
    i: i64,
    bytes: Vec<u8>,
    lid: LocalId,
    sid: Sid,
    seen: Seq<ExprView>,
)
    requires
        seen.len() == args@.len(),
        forall|i: int| 0 <= i < seen.len() ==> #[trigger] seen[i] == args@[i]@,
    ensures
        Expr::Alloc(ty)@ == ExprView::Alloc(ty),
        Expr::Array(array)@ == ExprView::Array(array),
        (Expr::Call { target, args })@ == (ExprView::Call { target: target@, args: seen }),
        Expr::Const(Const::False)@ == ExprView::Const(ConstView::False),
        Expr::Const(Const::Float(bits))@ == ExprView::Const(ConstView::Float(bits)),
        Expr::Const(Const::Int(i))@ == ExprView::Const(ConstView::Int(i)),
        Expr::Const(Const::Null)@ == ExprView::Const(ConstView::Null),
        Expr::Const(Const::String(bytes))@ == ExprView::Const(ConstView::String(bytes@)),
        Expr::Const(Const::True)@ == ExprView::Const(ConstView::True),
        Expr::Deref(Var::Global(target))@ == ExprView::Deref(VarView::Global(target@)),
        Expr::Deref(Var::Local(lid))@ == ExprView::Deref(VarView::Local(lid)),
        Expr::Sid(sid)@ == ExprView::Sid(sid.0 as nat),
{
    lemma_call_view(target, args);
    assert(exprs_view(args@) =~= seen);
}

/// So has the view of a name.
pub proof fn names_are_seen_as_they_are(
    b: Builtin,
    f: FunctionId,
    class: ClassId,
    text: String,
    is_static: IsStatic,
    member: Member,
)
    ensures
        Name::Builtin(b)@ == NameView::Builtin(b),
        Name::Function(f)@ == NameView::Function(f),
        Name::Text(text)@ == NameView::Text(text@),
        (Name::Member { class: ClassRef::Id(class), is_static, member })@ == (NameView::Member {
            class: ClassRefView::Id(class),
            is_static,
            member,
        }),
        (Name::Member { class: ClassRef::Name(text), is_static, member })@ == (NameView::Member {
            class: ClassRefView::Name(text@),
            is_static,
            member,
        }),
{
}

/// A builder, an interner, a file and a definition are seen with all that they hold,
/// each item at its own place.
pub proof fn collections_are_seen_as_they_are(
    fb: FuncBuilder,
    strings: StringInterner,
    txf: TextualFile,
    def: FunctionDef,
    param: ParamDecl,
    i: int,
)
    ensures
        fb@.next == fb.next_sid,
        fb@.stmts.len() == fb.stmts@.len(),
        0 <= i < fb.stmts@.len() ==> fb@.stmts[i] == fb.stmts@[i]@,
        strings@.len() == strings.strings@.len(),
        0 <= i < strings.strings@.len() ==> strings@[i] == strings.strings@[i]@,
        txf@.len() == txf.functions@.len(),
        0 <= i < txf.functions@.len() ==> txf@[i] == txf.functions@[i]@,
        def@.name == def.name@,
        def@.span == def.span,
        def@.params.len() == def.params@.len(),
        0 <= i < def.params@.len() ==> def@.params[i] == def.params@[i]@,
        def@.ret_ty == def.ret_ty,
        def@.locals == def.locals@,
        def@.body.len() == def.body@.len(),
        0 <= i < def.body@.len() ==> def@.body[i] == def.body@[i]@,
        param@.name == ascii_chars(param.name),
        param@.ty == param.ty,
{
}

/// A state is seen with its function, its method, its body, and what stands for each
/// instruction and constant.
pub proof fn a_state_is_seen_as_it_is(state: FuncState<'_>, k: usize)
    ensures
        state@.func == *state.func,
        state@.method == state.method_info,
        state@.body == state.fb@,
        state@.strings == state.strings@,
        state@.values.dom().contains(k) <==> state.iid_mapping@.dom().contains(k),
        state.iid_mapping@.dom().contains(k) ==> state@.values[k] == state.iid_mapping@[k]@,
        state@.constants.dom().contains(k) <==> state.constant_mapping@.dom().contains(k),
        state.constant_mapping@.dom().contains(k) ==> state@.constants[k]
            == state.constant_mapping@[k].0,
{
}

// ---------------------------------------------------------------------------
// Strings
// ---------------------------------------------------------------------------

/// An interned string is found under its id, and nothing but it is added.
pub proof fn an_interned_string_is_found(strings: Seq<Seq<u8>>, bytes: Seq<u8>, other: Seq<u8>)
    requires
        strings.len() < usize::MAX,
    ensures
        string_id(strings, bytes).0 < with_string(strings, bytes).len(),
        with_string(strings, bytes)[string_id(strings, bytes).0 as int] == bytes,
        with_string(strings, bytes).contains(other) ==> strings.contains(other) || other == bytes,
        with_string(strings, bytes).len() == strings.len() || with_string(strings, bytes).len()
            == strings.len() + 1,
        strings.no_duplicates() ==> with_string(strings, bytes).no_duplicates(),
        strings.contains(bytes) ==> with_string(strings, bytes) == strings,
{
    if strings.contains(bytes) {
        assert(strings[strings.index_of(bytes)] == bytes);
    }
}

/// A text is interned as its UTF-8 bytes.
pub proof fn an_interned_text_is_found(strings: Seq<Seq<u8>>, text: Seq<char>)
    requires
        strings.len() < usize::MAX,
    ensures
        text_id(strings, text).0 < with_text(strings, text).len(),
        with_text(strings, text)[text_id(strings, text).0 as int] == encode_utf8(text),
{
    an_interned_string_is_found(strings, encode_utf8(text), encode_utf8(text));
}

} // verus!
