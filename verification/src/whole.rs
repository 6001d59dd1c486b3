//! How blocks, bodies and definitions are put together, written out.

use vstd::prelude::*;
use vstd::utf8::encode_utf8;

use crate::ascii_text::ascii_chars;
use crate::block::{
    block_started, block_written, blocks_written, instrs_written, numbers_from, params_bound,
};
use crate::class::IsStatic;
use crate::constants::{constants_written, is_array_operand};
use crate::forms::{adds_one, names};
use crate::func::{
    body_end, func_defs, func_strings, is_prepared, param_locals, param_names, param_tys,
    params_view, stub_body, stub_def, stub_names, texts_interned, typed_locals,
    FunctionView, ParamView, PreparedFunc, UnitState,
};
use crate::hack::Builtin;
use crate::instr::{instr_written, terminator_written};
use crate::ir::{
    BlockId, Constant, Func, FunctionId, Instr, InstrId, LocalId, MethodId, Param, Predicate,
    SrcLoc, Terminator, UnnamedLocalId,
};
use crate::jmp::{
    a_conditional_jump_guards_its_targets, all_asserts, blocks_end, ends_block, has_asserts,
    last_instr, no_critical_edges,
};
use crate::laws::the_guard_of_a_block_comes_first;
use crate::locals::{body_names, declares, lid_less, named_at};
use crate::state::{MethodInfo, StateView};
use crate::strings::{text_id, with_text, UnitBytesId};
use crate::textual::{BodyView, ClassRefView, ExprView, Member, NameView, StmtView, Ty, VarView};

verus! {

// ---------------------------------------------------------------------------
// Blocks
// ---------------------------------------------------------------------------

/// The parameters of a block are the next values, each the one at its own place.
/// Nothing is emitted for them, and no other instruction gets a value.
pub proof fn parameters_are_the_next_values(s: StateView, params: Seq<InstrId>, i: int, k: usize)
    requires
        forall|i: int, j: int|
            0 <= i < j < params.len() ==> #[trigger] params[i] != #[trigger] params[j],
    ensures
        params_bound(s, params).body == (BodyView {
            stmts: s.body.stmts,
            next: s.body.next + params.len(),
        }),
        params_bound(s, params).func == s.func,
        params_bound(s, params).method == s.method,
        params_bound(s, params).constants == s.constants,
        params_bound(s, params).strings == s.strings,
        0 <= i < params.len() ==> params_bound(s, params).values.dom().contains(params[i].0)
            && params_bound(s, params).values[params[i].0] == ExprView::Sid(
            (s.body.next + i) as nat,
        ),
        (forall|j: int| 0 <= j < params.len() ==> (#[trigger] params[j]).0 != k) ==> (params_bound(
            s,
            params,
        ).values.dom().contains(k) <==> s.values.dom().contains(k)) && params_bound(
            s,
            params,
        ).values[k] == s.values[k],
    decreases params.len(),
{
    if params.len() > 0 {
        let rest = params.drop_last();
        assert(forall|j: int| 0 <= j < rest.len() ==> #[trigger] rest[j] == params[j]);
        parameters_are_the_next_values(s, rest, i, k);
        if 0 <= i < rest.len() {
            assert(params[i] != params[params.len() - 1]);
        }
        if forall|j: int| 0 <= j < params.len() ==> (#[trigger] params[j]).0 != k {
            assert(params[params.len() - 1].0 != k);
            assert forall|j: int| 0 <= j < rest.len() implies (#[trigger] rest[j]).0 != k by {
                assert(params[j].0 != k);
            }
        }
    }
}

/// A block is its parameters, its label with them unless it is the first block, its
/// instructions in order, its terminator, and the name of its own handler.
pub proof fn a_block_is_put_together(s: StateView, bid: BlockId)
    requires
        s.func.blocks@[bid.0 as int].iids@.len() > 0,
    ensures
        ({
            let block = s.func.blocks@[bid.0 as int];
            let n = block.iids@.len() as int;
            let bound = params_bound(s, block.params@);
            let started = block_started(s, bid);
            let done = instrs_written(started, block.iids@.take(n - 1));
            let ended = terminator_written(
                done,
                s.func.instrs@[block.iids@[n - 1].0 as int]->Terminator_0,
            );
            &&& bid.0 == 0 ==> started == bound
            &&& bid.0 != 0 ==> adds_one(
                bound,
                started,
                StmtView::Label {
                    bid,
                    params: Seq::new(
                        block.params@.len(),
                        |i: int| (s.body.next + i) as nat,
                    ),
                },
            )
            &&& match block.catch_target {
                Some(handler) => adds_one(
                    ended,
                    block_written(s, bid),
                    StmtView::Handler(handler),
                ),
                None => block_written(s, bid) == ended,
            }
        }),
{
    let block = s.func.blocks@[bid.0 as int];
    let n = block.iids@.len() as int;
    assert(block.iids@.drop_last() =~= block.iids@.take(n - 1));
    assert(numbers_from(s.body.next, block.params@.len()) =~= Seq::new(
        block.params@.len(),
        |i: int| (s.body.next + i) as nat,
    ));
}

/// Instructions are emitted one after the other, and so are blocks, from the first on.
pub proof fn emitting_goes_in_order(s: StateView, iids: Seq<InstrId>, iid: InstrId, k: usize)
    ensures
        instrs_written(s, Seq::empty()) == s,
        instrs_written(s, iids.push(iid)) == instr_written(instrs_written(s, iids), iid),
        blocks_written(s, 0) == s,
        blocks_written(s, (k + 1) as nat) == block_written(
            blocks_written(s, k as nat),
            BlockId(k),
        ),
{
    assert(iids.push(iid).drop_last() =~= iids);
}

/// Array literals are evaluated in the order of the constants. Each one that is an
/// operand is evaluated from its own literal as the next value, which is the one of
/// that constant. No other constant has an effect.
pub proof fn array_literals_go_in_order(s: StateView, k: usize)
    ensures
        constants_written(s, 0) == s,
        ({
            let t = constants_written(s, k as nat);
            let u = constants_written(s, (k + 1) as nat);
            match s.func.constants@[k as int] {
                Constant::Array(id) if is_array_operand(s.func, k) => u == (StateView {
                    body: BodyView {
                        stmts: t.body.stmts.push(
                            StmtView::Eval { dst: t.body.next, src: ExprView::Array(id) },
                        ),
                        next: t.body.next + 1,
                    },
                    constants: t.constants.insert(k, t.body.next),
                    ..t
                }),
                _ => u == t,
            }
        }),
{
}

/// A body starts from nothing: no statement, no value, and the strings of the unit.
/// Its array literals come first and all of its blocks follow.
pub proof fn a_body_is_put_together(
    body: Func,
    method_info: Option<MethodInfo>,
    strings: Seq<Seq<u8>>,
)
    ensures
        body_end(body, method_info, strings) == blocks_written(
            constants_written(
                StateView {
                    func: body,
                    method: method_info,
                    body: BodyView { stmts: Seq::empty(), next: 0 },
                    values: Map::empty(),
                    constants: Map::empty(),
                    strings,
                },
                body.constants@.len(),
            ),
            body.blocks@.len(),
        ),
{
    reveal(body_end);
}

// ---------------------------------------------------------------------------
// Branches
// ---------------------------------------------------------------------------

/// Where a conditional jump has been rewritten, the block that a true condition leads
/// to starts with `Prune` on a test of the condition of that jump, and the block that
/// a false one leads to starts with `PruneNot` on it. Only the label and the source
/// location of the jump come before.
pub proof fn a_branch_tests_the_condition_of_its_jump(func: Func, b: int, truth: bool, s: StateView)
    requires
        blocks_end(func),
        no_critical_edges(func),
        has_asserts(func, s.func, all_asserts(func)),
        0 <= b < func.blocks@.len(),
        last_instr(func, b) matches Instr::Terminator(Terminator::JmpOp { .. }),
    ensures
        last_instr(func, b) matches Instr::Terminator(
            Terminator::JmpOp { cond, pred, true_bid, false_bid, loc },
        ) ==> {
            let bid = if truth == (pred == Predicate::NonZero) {
                true_bid
            } else {
                false_bid
            };
            let label = if bid.0 == 0 {
                0int
            } else {
                1int
            };
            let located = if loc is Some {
                1int
            } else {
                0int
            };
            let at = s.body.stmts.len() + label + located;
            let stmts = block_written(s, bid).body.stmts;
            let test = ExprView::Call {
                target: NameView::Builtin(Builtin::IsTrue),
                args: seq![block_started(s, bid).value_expr(cond)],
            };
            at < stmts.len() && stmts[at] == if truth {
                StmtView::Prune(test)
            } else {
                StmtView::PruneNot(test)
            }
        },
{
    if let Instr::Terminator(Terminator::JmpOp { cond, pred, true_bid, false_bid, loc }) =
        last_instr(func, b) {
        a_conditional_jump_guards_its_targets(func, s.func, b);
        let bid = if truth == (pred == Predicate::NonZero) {
            true_bid
        } else {
            false_bid
        };
        let iids = s.func.blocks@[bid.0 as int].iids@;
        assert(func.blocks@[b].iids@.len() > 0);
        assert(ends_block(last_instr(func, b), func.blocks@.len()));
        assert(func.blocks@[bid.0 as int].iids@.len() > 0);
        assert(iids.drop_first() == func.blocks@[bid.0 as int].iids@);
        assert(iids.len() > 1);
        the_guard_of_a_block_comes_first(s, bid);
    }
}

// ---------------------------------------------------------------------------
// Parameters and locals
// ---------------------------------------------------------------------------

/// A prepared function has `$this` with the given type and then one parameter for each
/// of the source, with the name and the type of the one at the same place.
pub proof fn parameters_keep_their_name_and_type(
    unit: UnitState,
    name: UnitBytesId,
    this_ty: Ty,
    func: Func,
    method_info: Option<MethodInfo>,
    p: PreparedFunc,
    i: int,
)
    requires
        is_prepared(unit, name, this_ty, func, method_info, p),
    ensures
        p.params@.len() == func.params@.len() + 1,
        ascii_chars(p.params@[0].name) == "$this"@,
        p.params@[0].ty == this_ty,
        0 <= i < func.params@.len() ==> ascii_chars(p.params@[i + 1].name) == ascii_chars(
            func.params@[i].escaped,
        ),
        0 <= i < func.params@.len() ==> p.params@[i + 1].ty == Ty::Enforced(func.params@[i].ty),
{
    let seen = params_view(p.params@);
    assert(seen.len() == p.params@.len());
    assert(seen[0] == p.params@[0]@);
    if 0 <= i < func.params@.len() {
        assert(seen[i + 1] == p.params@[i + 1]@);
    }
}

/// The names and the types of parameters are listed in the order of the source, after
/// those of `$this`.
pub proof fn parameters_are_listed_in_order(params: Seq<Param>, this_ty: Ty, i: int)
    ensures
        param_names(params).len() == params.len() + 1,
        param_tys(params, this_ty).len() == params.len() + 1,
        param_names(params)[0] == "$this"@,
        param_tys(params, this_ty)[0] == this_ty,
        0 <= i < params.len() ==> param_names(params)[i + 1] == ascii_chars(params[i].escaped),
        0 <= i < params.len() ==> param_tys(params, this_ty)[i + 1] == Ty::Enforced(params[i].ty),
{
}

/// The parameters of a function as locals are `$this` and those that the source names.
pub proof fn parameters_are_locals(strings: Seq<Seq<u8>>, params: Seq<Param>, id: UnitBytesId)
    requires
        strings.no_duplicates(),
        strings.len() < usize::MAX,
        id.0 < strings.len(),
    ensures
        param_locals(strings, params).contains(LocalId::Named(id)) <==> strings[id.0 as int]
            == encode_utf8("$this"@) || exists|i: int|
            0 <= i < params.len() && (#[trigger] params[i]).name == id,
        forall|idx: UnnamedLocalId| !#[trigger]
            param_locals(strings, params).contains(LocalId::Unnamed(idx)),
{
    let bytes = encode_utf8("$this"@);
    if strings.contains(bytes) {
        assert(strings[strings.index_of(bytes)] == bytes);
    }
    if strings[id.0 as int] == bytes {
        assert(strings.contains(bytes));
    }
}

/// A prepared function has its own name and place, the type that its return type
/// becomes, and the method that it is.
pub proof fn a_prepared_function_is_the_same_function(
    unit: UnitState,
    name: UnitBytesId,
    this_ty: Ty,
    func: Func,
    method_info: Option<MethodInfo>,
    p: PreparedFunc,
)
    requires
        is_prepared(unit, name, this_ty, func, method_info, p),
    ensures
        p.name == name,
        p.method_info == method_info,
        p.name_str@ == match method_info {
            Some(mi) => NameView::Member {
                class: ClassRefView::Id(mi.class.name),
                is_static: mi.is_static,
                member: Member::Method(MethodId { id: name }),
            },
            None => NameView::Function(FunctionId { id: name }),
        },
        p.span == func.locs@[func.loc_id.0 as int],
        p.ret_ty == Ty::Enforced(func.return_type),
        has_asserts(func, p.body, all_asserts(func)),
{
}

/// The locals of a prepared function are untyped pointers in ascending order, and then
/// the one that member operations use. They are exactly those that an instruction in
/// some block names and that are no parameters, each once.
pub proof fn locals_are_those_that_the_body_names(
    unit: UnitState,
    name: UnitBytesId,
    this_ty: Ty,
    func: Func,
    method_info: Option<MethodInfo>,
    p: PreparedFunc,
    i: int,
    j: int,
    lid: LocalId,
)
    requires
        is_prepared(unit, name, this_ty, func, method_info, p),
    ensures
        ({
            let n = p.locals@.len() - 1;
            let strings = with_text(unit.strings@, "$this"@);
            &&& n >= 0
            &&& p.locals@[n] == (unit.base_var, Ty::Mixed)
            &&& 0 <= i < n ==> p.locals@[i].1 == Ty::VoidPtr
            &&& 0 <= i < j < n ==> lid_less(strings, p.locals@[i].0, p.locals@[j].0)
            &&& (exists|k: int| 0 <= k < n && (#[trigger] p.locals@[k]).0 == lid) <==> (exists|
                b: int,
                k: int,
            | #[trigger]
                named_at(func, b, k, lid)) && !param_locals(
                unit.strings@,
                func.params@,
            ).contains(lid)
        }),
{
    let strings = with_text(unit.strings@, "$this"@);
    let params = param_locals(unit.strings@, func.params@);
    let declared = choose|declared: Seq<LocalId>| #[trigger]
        declares(strings, func, params, declared) && p.locals@
            == typed_locals(declared, unit.base_var);
    let n = p.locals@.len() - 1;
    assert(n == declared.len());
    assert(forall|k: int| 0 <= k < n ==> (#[trigger] p.locals@[k]) == (declared[k], Ty::VoidPtr));
    if exists|k: int| 0 <= k < n && (#[trigger] p.locals@[k]).0 == lid {
        let k = choose|k: int| 0 <= k < n && (#[trigger] p.locals@[k]).0 == lid;
        assert(declared[k] == lid);
        assert(declared.contains(lid));
    }
    if declared.contains(lid) {
        let k = choose|k: int| 0 <= k < declared.len() && declared[k] == lid;
        assert(p.locals@[k].0 == lid);
    }
    assert(declared.contains(lid) <==> body_names(func, lid) && !params.contains(lid));
}

// ---------------------------------------------------------------------------
// Definitions
// ---------------------------------------------------------------------------

/// A function is defined under its own name, with its own parameters, types, locals and
/// statements. A static method is followed by its instance stub.
pub proof fn a_definition_is_that_of_its_function(p: PreparedFunc, strings: Seq<Seq<u8>>)
    ensures
        ({
            let own = FunctionView {
                name: p.name_str@,
                span: p.span,
                params: params_view(p.params@),
                ret_ty: p.ret_ty,
                locals: p.locals@,
                body: body_end(p.body, p.method_info, strings).body.stmts,
            };
            let after = body_end(p.body, p.method_info, strings).strings;
            match p.method_info {
                Some(mi) if mi.is_static == IsStatic::Static => {
                    let all = texts_interned(after, stub_names(params_view(p.params@)));
                    &&& func_strings(p, strings) == all
                    &&& func_defs(p, strings) == seq![
                        own,
                        stub_def(all, p.name, mi, params_view(p.params@), p.ret_ty, p.span),
                    ]
                },
                _ => {
                    &&& func_strings(p, strings) == after
                    &&& func_defs(p, strings) == seq![own]
                },
            }
        }),
{
}

/// The texts that a stub interns are `$this` and the names of its other parameters, in
/// order, each of them after those before it.
pub proof fn a_stub_interns_its_names(
    strings: Seq<Seq<u8>>,
    params: Seq<ParamView>,
    texts: Seq<Seq<char>>,
    text: Seq<char>,
    i: int,
)
    requires
        params.len() > 0,
    ensures
        stub_names(params).len() == params.len(),
        stub_names(params)[0] == "$this"@,
        0 < i < params.len() ==> stub_names(params)[i] == params[i].name,
        texts_interned(strings, Seq::empty()) == strings,
        texts_interned(strings, texts.push(text)) == with_text(
            texts_interned(strings, texts),
            text,
        ),
{
    assert(texts.push(text).drop_last() =~= texts);
}

/// Interning texts in order keeps those that are there already, and afterwards each of
/// them is held.
proof fn lemma_texts_interned(strings: Seq<Seq<u8>>, texts: Seq<Seq<char>>, i: int)
    requires
        0 <= i < texts.len(),
    ensures
        texts_interned(strings, texts).contains(encode_utf8(texts[i])),
    decreases texts.len(),
{
    let rest = texts.drop_last();
    let before = texts_interned(strings, rest);
    let after = texts_interned(strings, texts);
    if i < texts.len() - 1 {
        lemma_texts_interned(strings, rest, i);
        assert(before.contains(encode_utf8(rest[i])));
        let k = choose|k: int| 0 <= k < before.len() && before[k] == encode_utf8(rest[i]);
        assert(after[k] == encode_utf8(texts[i]));
    } else {
        let bytes = encode_utf8(texts.last());
        if !before.contains(bytes) {
            assert(after[before.len() as int] == bytes);
        }
    }
}

/// A text that is held is found under its id.
proof fn lemma_held(strings: Seq<Seq<u8>>, text: Seq<char>)
    requires
        strings.len() <= usize::MAX,
        strings.contains(encode_utf8(text)),
    ensures
        names(strings, text_id(strings, text), text),
{
    let bytes = encode_utf8(text);
    assert(strings[strings.index_of(bytes)] == bytes);
}

/// Whether a statement loads the local that is named by the text, with the given type,
/// as the value `dst`.
pub open spec fn loads_local(
    strings: Seq<Seq<u8>>,
    stmt: StmtView,
    dst: nat,
    ty: Ty,
    text: Seq<char>,
) -> bool {
    stmt matches StmtView::Load {
        dst: d,
        ty: t,
        src: ExprView::Deref(VarView::Local(LocalId::Named(id))),
    } && d == dst && t == ty && names(strings, id, text)
}

/// The instance stub of a static method forwards every parameter at its own place: the
/// first argument of the call is the static class of `$this`, which is loaded as an
/// instance, and for each later parameter the argument at its place is the value that
/// was loaded from the local of that parameter's own name, with its own type. The
/// static method of the same class and name is called, and its result is returned.
pub proof fn a_stub_forwards_each_parameter_in_its_place(
    strings: Seq<Seq<u8>>,
    name: UnitBytesId,
    mi: MethodInfo,
    params: Seq<ParamView>,
    i: int,
)
    requires
        params.len() > 0,
        texts_interned(strings, stub_names(params)).len() <= usize::MAX,
    ensures
        ({
            let all = texts_interned(strings, stub_names(params));
            let body = stub_body(all, name, mi, params);
            let n = params.len() as int;
            &&& body.len() == n + 4
            &&& body[0] == StmtView::Comment("forward to the static method"@)
            &&& loads_local(
                all,
                body[1],
                0,
                Ty::ClassPtr { class: mi.class.name, is_static: IsStatic::NonStatic },
                "$this"@,
            )
            &&& body[2] == (StmtView::Call {
                dst: 1,
                target: NameView::Builtin(Builtin::GetStaticClass),
                args: seq![ExprView::Sid(0)],
            })
            &&& body[n + 2] matches StmtView::Call { dst, target, args }
            &&& target == (NameView::Member {
                class: ClassRefView::Id(mi.class.name),
                is_static: IsStatic::Static,
                member: Member::Method(MethodId { id: name }),
            })
            &&& args.len() == n
            &&& args[0] == ExprView::Sid(1)
            &&& 1 <= i < n ==> {
                &&& args[i] matches ExprView::Sid(d)
                &&& loads_local(all, body[i + 2], d, params[i].ty, params[i].name)
            }
            &&& body[n + 3] == StmtView::Ret(ExprView::Sid(dst))
        }),
{
    let texts = stub_names(params);
    let all = texts_interned(strings, texts);
    lemma_texts_interned(strings, texts, 0);
    lemma_held(all, "$this"@);
    if 1 <= i < params.len() {
        lemma_texts_interned(strings, texts, i);
        assert(texts[i] == params[i].name);
        lemma_held(all, params[i].name);
        assert(params[(i - 1) + 1] == params[i]);
    }
}

/// Two parameters with different names are loaded from different locals of the stub,
/// so that no argument stands in for another.
pub proof fn a_stub_confuses_no_parameters(
    strings: Seq<Seq<u8>>,
    name: UnitBytesId,
    mi: MethodInfo,
    params: Seq<ParamView>,
    i: int,
    j: int,
)
    requires
        1 <= i < params.len(),
        1 <= j < params.len(),
        encode_utf8(params[i].name) != encode_utf8(params[j].name),
        texts_interned(strings, stub_names(params)).len() <= usize::MAX,
    ensures
        ({
            let body = stub_body(texts_interned(strings, stub_names(params)), name, mi, params);
            body[i + 2]->Load_src != body[j + 2]->Load_src
        }),
{
    a_stub_forwards_each_parameter_in_its_place(strings, name, mi, params, i);
    a_stub_forwards_each_parameter_in_its_place(strings, name, mi, params, j);
}

/// An instance stub is the instance form of the method, with the parameters of the
/// static method but for the type of the first one, and without locals.
pub proof fn a_stub_is_the_instance_form(
    strings: Seq<Seq<u8>>,
    name: UnitBytesId,
    mi: MethodInfo,
    params: Seq<ParamView>,
    ret_ty: Ty,
    span: SrcLoc,
    i: int,
)
    requires
        params.len() > 0,
    ensures
        ({
            let def = stub_def(strings, name, mi, params, ret_ty, span);
            &&& def.name == (NameView::Member {
                class: ClassRefView::Id(mi.class.name),
                is_static: IsStatic::NonStatic,
                member: Member::Method(MethodId { id: name }),
            })
            &&& def.span == span
            &&& def.ret_ty == ret_ty
            &&& def.locals.len() == 0
            &&& def.params.len() == params.len()
            &&& def.params[0].name == params[0].name
            &&& def.params[0].ty == (Ty::ClassPtr {
                class: mi.class.name,
                is_static: IsStatic::NonStatic,
            })
            &&& 1 <= i < params.len() ==> def.params[i] == params[i]
            &&& def.body == stub_body(strings, name, mi, params)
        }),
{
}

} // verus!
