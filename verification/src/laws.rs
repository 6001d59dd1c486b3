//! What holds of everything that is emitted.

use vstd::prelude::*;

use crate::block::{
    block_started, block_written, blocks_written, extends, instrs_written, numbers_from,
    params_bound,
};
use crate::call::{
    awaited, call_notes, call_written, callee_called, commented, parent_interned,
};
use crate::class::IsStatic;
use crate::constants::{
    array_count, body_scope, constants_written, is_array_operand, mentioned_at,
};
use crate::func::{
    blocks_start, body_end, body_start, func_defs, func_name, is_static_method, stub_body,
    ParamView, PreparedFunc,
};
use crate::hack;
use crate::hack::Builtin;
use crate::instr::{
    hhbc_written, inc_dec_builtin, instr_ready, instr_written, special_written,
    terminator_ready, terminator_written,
};
use crate::ir::{
    instr_loc, mentioned_operands, terminator_loc, BlockId, Call, CallDetail, Constant, ConstantId,
    Func, Hhbc, Instr, InstrId, LocId, LocalId, Special, SpecialClsRef, Terminator, Textual,
    ValueId, ENTRY_BLOCK,
};
use crate::state::{value_ready, MethodInfo, Scope, StateView};
use crate::strings::UnitBytesId;
use crate::textual::{
    int_view, local_view, starts_with, stmt_defs, stmt_uses, BodyView, ExprView, NameView,
    StmtView, Ty,
};

verus! {

// ---------------------------------------------------------------------------
// Values
// ---------------------------------------------------------------------------

/// Two statements never define the same value.
pub proof fn each_value_is_defined_once(b: BodyView, i: int, a: int, j: int, c: int)
    requires
        b.ordered(),
        0 <= i < b.stmts.len(),
        0 <= a < stmt_defs(b.stmts[i]).len(),
        0 <= j < b.stmts.len(),
        0 <= c < stmt_defs(b.stmts[j]).len(),
        stmt_defs(b.stmts[i])[a] == stmt_defs(b.stmts[j])[c],
    ensures
        i == j,
        a == c,
{
    reveal(BodyView::ordered);
}

/// A statement that mentions a value comes after the one that defines it.
pub proof fn values_are_defined_before_they_are_used(
    b: BodyView,
    i: int,
    sid: nat,
    j: int,
    c: int,
)
    requires
        b.scoped(),
        0 <= i < b.stmts.len(),
        stmt_uses(b.stmts[i], sid),
        0 <= j < b.stmts.len(),
        0 <= c < stmt_defs(b.stmts[j]).len(),
        stmt_defs(b.stmts[j])[c] == sid,
    ensures
        j < i,
{
    reveal(BodyView::scoped);
}

// ---------------------------------------------------------------------------
// Control flow
// ---------------------------------------------------------------------------

/// Whether a statement starts or ends a block, or names its handler.
pub open spec fn is_control(stmt: StmtView) -> bool {
    match stmt {
        StmtView::Handler(_) => true,
        StmtView::Jmp { .. } => true,
        StmtView::Label { .. } => true,
        StmtView::Ret(_) => true,
        StmtView::Unreachable => true,
        _ => false,
    }
}

/// Whether a statement ends a path through a block.
pub open spec fn ends_path(stmt: StmtView) -> bool {
    stmt is Jmp || stmt is Ret || stmt is Unreachable
}

/// `t` comes from `s` by adding statements none of which is control flow.
pub open spec fn straight(s: BodyView, t: BodyView) -> bool {
    &&& starts_with(t.stmts, s.stmts)
    &&& forall|i: int| s.stmts.len() <= i < t.stmts.len() ==> !is_control(#[trigger] t.stmts[i])
}

proof fn lemma_straight_trans(s: BodyView, t: BodyView, u: BodyView)
    requires
        straight(s, t),
        straight(t, u),
    ensures
        straight(s, u),
{
    assert forall|i: int| s.stmts.len() <= i < u.stmts.len() implies !is_control(
        #[trigger] u.stmts[i],
    ) by {
        if i < t.stmts.len() {
            assert(u.stmts[i] == t.stmts[i]);
        }
    }
    assert forall|i: int| 0 <= i < s.stmts.len() implies #[trigger] u.stmts[i] == s.stmts[i] by {
        assert(t.stmts[i] == s.stmts[i]);
    }
}

proof fn lemma_call_is_straight(s: StateView, iid: InstrId, call: Call)
    ensures
        straight(s.body, call_written(s, iid, call).body),
{
    let noted = s.with_body(commented(s.body, call_notes(s.strings, call)));
    assert(straight(s.body, noted.body));
    let called = callee_called(noted, call);
    assert(straight(noted.body, called.body));
    lemma_straight_trans(s.body, noted.body, called.body);
    let done = awaited(called, call.flags.has_async_eager_offset);
    assert(straight(called.body, done.body));
    lemma_straight_trans(s.body, called.body, done.body);
}

/// An instruction that is not a terminator becomes straight-line code.
pub proof fn instructions_are_straight_line(s: StateView, iid: InstrId)
    ensures
        straight(s.body, instr_written(s, iid).body),
{
    let instr = s.func.instrs@[iid.0 as int];
    let at = s.at_loc(instr_loc(instr));
    assert(straight(s.body, at.body));
    match instr {
        Instr::Call(call) => lemma_call_is_straight(at, iid, call),
        Instr::Hhbc(h) => lemma_hhbc_is_straight(at, iid, h),
        Instr::MemberOp(_) => {},
        Instr::Special(sp) => lemma_special_is_straight(at, iid, sp),
        Instr::Terminator(_) => {},
    }
    lemma_straight_trans(s.body, at.body, instr_written(s, iid).body);
}

proof fn lemma_hhbc_is_straight(s: StateView, iid: InstrId, h: Hhbc)
    ensures
        straight(s.body, hhbc_written(s, iid, h).body),
{
}

proof fn lemma_special_is_straight(s: StateView, iid: InstrId, sp: Special)
    ensures
        straight(s.body, special_written(s, iid, sp).body),
{
}

proof fn lemma_instrs_are_straight(s: StateView, iids: Seq<InstrId>)
    ensures
        straight(s.body, instrs_written(s, iids).body),
    decreases iids.len(),
{
    if iids.len() > 0 {
        let t = instrs_written(s, iids.drop_last());
        lemma_instrs_are_straight(s, iids.drop_last());
        instructions_are_straight_line(t, iids.last());
        lemma_straight_trans(s.body, t.body, instr_written(t, iids.last()).body);
    }
}

/// A terminator becomes straight-line code up to its last statement, which ends
/// the path.
pub proof fn a_terminator_ends_the_path(s: StateView, t: Terminator)
    ensures
        terminator_written(s, t).body.stmts.len() > s.body.stmts.len(),
        starts_with(terminator_written(s, t).body.stmts, s.body.stmts),
        ends_path(terminator_written(s, t).body.stmts.last()),
        forall|i: int|
            s.body.stmts.len() <= i < terminator_written(s, t).body.stmts.len() - 1 ==> !is_control(
                #[trigger] terminator_written(s, t).body.stmts[i],
            ),
{
}

/// Binding parameters emits nothing.
proof fn lemma_params_bound(s: StateView, params: Seq<InstrId>)
    ensures
        params_bound(s, params).body.stmts == s.body.stmts,
        params_bound(s, params).body.next == s.body.next + params.len(),
        params_bound(s, params).func == s.func,
        params_bound(s, params).method == s.method,
        params_bound(s, params).constants == s.constants,
        params_bound(s, params).strings == s.strings,
    decreases params.len(),
{
    if params.len() > 0 {
        lemma_params_bound(s, params.drop_last());
    }
}

/// The number of statements in front of the instructions of a block: the label,
/// which every block but the first has.
pub open spec fn label_len(bid: BlockId) -> int {
    if bid.0 == ENTRY_BLOCK {
        0
    } else {
        1
    }
}

/// The number of statements after the terminator of a block: the handler, where
/// there is one.
pub open spec fn handler_len(handler: Option<BlockId>) -> int {
    if handler is Some {
        1
    } else {
        0
    }
}

/// `new` is `old` with a block behind it: its label where it has one, code without
/// control flow, a statement that ends the path, and its handler where it has one.
pub open spec fn block_shape(
    old_stmts: Seq<StmtView>,
    new_stmts: Seq<StmtView>,
    bid: BlockId,
    params: Seq<nat>,
    handler: Option<BlockId>,
) -> bool {
    let first = old_stmts.len() + label_len(bid);
    let last = new_stmts.len() - handler_len(handler) - 1;
    &&& starts_with(new_stmts, old_stmts)
    &&& first <= last
    &&& bid.0 != ENTRY_BLOCK ==> new_stmts[first - 1] == (StmtView::Label { bid, params })
    &&& forall|i: int| first <= i < last ==> !is_control(#[trigger] new_stmts[i])
    &&& ends_path(new_stmts[last])
    &&& handler matches Some(h) ==> new_stmts[last + 1] == StmtView::Handler(h)
}

/// Every block is written in that shape.
pub proof fn blocks_have_their_shape(s: StateView, bid: BlockId)
    ensures
        block_shape(
            s.body.stmts,
            block_written(s, bid).body.stmts,
            bid,
            numbers_from(s.body.next, s.func.blocks@[bid.0 as int].params@.len()),
            s.func.blocks@[bid.0 as int].catch_target,
        ),
{
    let block = s.func.blocks@[bid.0 as int];
    lemma_params_bound(s, block.params@);
    let started = block_started(s, bid);
    let t = instrs_written(started, block.iids@.drop_last());
    lemma_instrs_are_straight(started, block.iids@.drop_last());
    let term = s.func.instrs@[block.iids@.last().0 as int]->Terminator_0;
    let u = terminator_written(t, term);
    a_terminator_ends_the_path(t, term);
    let end = block_written(s, bid);
    let first = s.body.stmts.len() + label_len(bid);
    let last = end.body.stmts.len() - handler_len(block.catch_target) - 1;
    assert(last == u.body.stmts.len() - 1);
    assert(forall|i: int|
        0 <= i < u.body.stmts.len() ==> #[trigger] end.body.stmts[i] == u.body.stmts[i]);
    assert forall|i: int| first <= i < last implies !is_control(#[trigger] end.body.stmts[i]) by {
        assert(end.body.stmts[i] == u.body.stmts[i]);
        if i < t.body.stmts.len() {
            assert(u.body.stmts[i] == t.body.stmts[i]);
        }
    }
    assert forall|i: int| 0 <= i < first implies #[trigger] end.body.stmts[i]
        == started.body.stmts[i] by {
        assert(end.body.stmts[i] == u.body.stmts[i]);
        assert(u.body.stmts[i] == t.body.stmts[i]);
        assert(t.body.stmts[i] == started.body.stmts[i]);
    }
    assert forall|i: int| 0 <= i < s.body.stmts.len() implies #[trigger] end.body.stmts[i]
        == s.body.stmts[i] by {
        assert(end.body.stmts[i] == started.body.stmts[i]);
    }
}

/// The labels among the statements, in order.
pub open spec fn labels(stmts: Seq<StmtView>) -> Seq<BlockId>
    decreases stmts.len(),
{
    if stmts.len() == 0 {
        Seq::empty()
    } else {
        let rest = labels(stmts.drop_last());
        match stmts.last() {
            StmtView::Label { bid, .. } => rest.push(bid),
            _ => rest,
        }
    }
}

/// Statements that are no labels add none.
proof fn lemma_no_more_labels(a: Seq<StmtView>, b: Seq<StmtView>)
    requires
        starts_with(b, a),
        forall|i: int| a.len() <= i < b.len() ==> !((#[trigger] b[i]) is Label),
    ensures
        labels(b) == labels(a),
    decreases b.len(),
{
    if b.len() == a.len() {
        assert(a =~= b);
    } else {
        let rest = b.drop_last();
        assert(!(b[b.len() - 1] is Label));
        assert(forall|i: int| 0 <= i < rest.len() ==> rest[i] == b[i]);
        assert forall|i: int| a.len() <= i < rest.len() implies !(
        (#[trigger] rest[i]) is Label) by {
            assert(!(b[i] is Label));
        }
        assert forall|i: int| 0 <= i < a.len() implies #[trigger] rest[i] == a[i] by {
            assert(b[i] == a[i]);
        }
        lemma_no_more_labels(a, rest);
    }
}

/// A block adds its label, where it has one.
proof fn lemma_block_labels(s: StateView, bid: BlockId)
    ensures
        labels(block_written(s, bid).body.stmts) == if bid.0 == ENTRY_BLOCK {
            labels(s.body.stmts)
        } else {
            labels(s.body.stmts).push(bid)
        },
{
    blocks_have_their_shape(s, bid);
    let block = s.func.blocks@[bid.0 as int];
    let all = block_written(s, bid).body.stmts;
    let first = s.body.stmts.len() + label_len(bid);
    let last = all.len() - handler_len(block.catch_target) - 1;
    let head = all.take(first);
    assert forall|i: int| first <= i < all.len() implies !((#[trigger] all[i]) is Label) by {
        if i < last {
            assert(!is_control(all[i]));
        }
    }
    assert(starts_with(all, head));
    lemma_no_more_labels(head, all);
    if bid.0 == ENTRY_BLOCK {
        assert(head =~= s.body.stmts) by {
            assert forall|i: int| 0 <= i < head.len() implies head[i] == s.body.stmts[i] by {
                assert(all[i] == s.body.stmts[i]);
            }
        }
    } else {
        assert(head.drop_last() =~= s.body.stmts) by {
            assert forall|i: int| 0 <= i < s.body.stmts.len() implies head.drop_last()[i]
                == s.body.stmts[i] by {
                assert(all[i] == s.body.stmts[i]);
            }
        }
        assert(head.last() == all[first - 1]);
    }
}

/// The blocks from the second to the `k`th, in order.
pub open spec fn labelled_blocks(k: nat) -> Seq<BlockId> {
    Seq::new(
        if k == 0 {
            0nat
        } else {
            (k - 1) as nat
        },
        |i: int| BlockId((i + 1) as usize),
    )
}

proof fn lemma_blocks_labels(s: StateView, k: nat)
    requires
        labels(s.body.stmts) == Seq::<BlockId>::empty(),
        k <= usize::MAX,
    ensures
        labels(blocks_written(s, k).body.stmts) == labelled_blocks(k),
    decreases k,
{
    if k > 0 {
        lemma_blocks_labels(s, (k - 1) as nat);
        lemma_block_labels(blocks_written(s, (k - 1) as nat), BlockId((k - 1) as usize));
    }
    assert(labels(blocks_written(s, k).body.stmts) =~= labelled_blocks(k));
}

/// The labels of a body are its blocks from the second on, each once and in order.
pub proof fn labels_are_the_blocks_in_order(
    body: Func,
    method_info: Option<MethodInfo>,
    strings: Seq<Seq<u8>>,
)
    ensures
        labels(body_end(body, method_info, strings).body.stmts) == labelled_blocks(
            body.blocks@.len(),
        ),
{
    reveal(body_end);
    let first = blocks_start(body, method_info, strings);
    lemma_constants_written(body_start(body, method_info, strings), body.constants@.len());
    lemma_no_more_labels(Seq::empty(), first.body.stmts);
    assert(body.blocks.len() == body.blocks@.len());
    lemma_blocks_labels(first, body.blocks@.len());
}

/// What a run of instructions becomes starts with what the first `k` become.
proof fn lemma_instrs_prefix(s: StateView, iids: Seq<InstrId>, k: int)
    requires
        0 <= k <= iids.len(),
    ensures
        starts_with(
            instrs_written(s, iids).body.stmts,
            instrs_written(s, iids.take(k)).body.stmts,
        ),
    decreases iids.len(),
{
    if k == iids.len() {
        assert(iids.take(k) =~= iids);
    } else {
        let rest = iids.drop_last();
        assert(rest.take(k) =~= iids.take(k));
        lemma_instrs_prefix(s, rest, k);
        instructions_are_straight_line(instrs_written(s, rest), iids.last());
        let a = instrs_written(s, iids.take(k)).body.stmts;
        let b = instrs_written(s, rest).body.stmts;
        let c = instrs_written(s, iids).body.stmts;
        assert forall|i: int| 0 <= i < a.len() implies #[trigger] c[i] == a[i] by {
            assert(b[i] == a[i]);
        }
    }
}

/// What an assertion is written as: the statement that stops a path unless the
/// asserted value is as it says.
pub open spec fn guard(s: StateView, instr: Instr) -> Option<StmtView> {
    match instr {
        Instr::Special(Special::Textual(Textual::AssertTrue(cond, _))) => Some(
            StmtView::Prune(
                ExprView::Call {
                    target: NameView::Builtin(Builtin::IsTrue),
                    args: seq![s.value_expr(cond)],
                },
            ),
        ),
        Instr::Special(Special::Textual(Textual::AssertFalse(cond, _))) => Some(
            StmtView::PruneNot(
                ExprView::Call {
                    target: NameView::Builtin(Builtin::IsTrue),
                    args: seq![s.value_expr(cond)],
                },
            ),
        ),
        _ => None,
    }
}

/// The number of statements that give a source location.
pub open spec fn loc_len(instr: Instr) -> int {
    if instr_loc(instr) is Some {
        1
    } else {
        0
    }
}

/// Where a block starts with an assertion, nothing but the label and the source
/// location of the assertion comes before the statement that stops the path.
pub proof fn the_guard_of_a_block_comes_first(s: StateView, bid: BlockId)
    requires
        s.func.blocks@[bid.0 as int].iids@.len() > 1,
        guard(
            block_started(s, bid),
            s.func.instrs@[s.func.blocks@[bid.0 as int].iids@[0].0 as int],
        ) is Some,
    ensures
        ({
            let first = s.func.instrs@[s.func.blocks@[bid.0 as int].iids@[0].0 as int];
            let at = s.body.stmts.len() + label_len(bid) + loc_len(first);
            let stmts = block_written(s, bid).body.stmts;
            at < stmts.len() && Some(stmts[at]) == guard(block_started(s, bid), first)
        }),
{
    let block = s.func.blocks@[bid.0 as int];
    let iids = block.iids@.drop_last();
    let first = s.func.instrs@[block.iids@[0].0 as int];
    let at = s.body.stmts.len() + label_len(bid) + loc_len(first);
    lemma_params_bound(s, block.params@);
    let started = block_started(s, bid);
    assert(iids.take(1).drop_last() =~= Seq::<InstrId>::empty());
    assert(iids.take(1).last() == block.iids@[0]);
    reveal_with_fuel(instrs_written, 2);
    assert(instrs_written(started, iids.take(1)) == instr_written(started, block.iids@[0]));
    let a = instr_written(started, block.iids@[0]).body.stmts;
    assert(a.len() == at + 1);
    assert(Some(a[at]) == guard(started, first));
    let t = instrs_written(started, iids);
    lemma_instrs_prefix(started, iids, 1);
    let term = s.func.instrs@[block.iids@.last().0 as int]->Terminator_0;
    a_terminator_ends_the_path(t, term);
    let u = terminator_written(t, term);
    assert(t.body.stmts[at] == a[at]);
    assert(u.body.stmts[at] == t.body.stmts[at]);
}

// ---------------------------------------------------------------------------
// Constants
// ---------------------------------------------------------------------------

/// The statement that evaluates the array literal `c` as the value `sid`.
pub open spec fn evaluates(stmt: StmtView, sid: nat, c: Constant) -> bool {
    c matches Constant::Array(id) && stmt == (StmtView::Eval {
        dst: sid,
        src: ExprView::Array(id),
    })
}

/// In front of the blocks, each statement evaluates an array literal that is an
/// operand, and values and statements are numbered alike.
proof fn lemma_constants_written(s: StateView, k: nat)
    requires
        s.body == (BodyView { stmts: Seq::empty(), next: 0 }),
        s.constants == Map::<usize, nat>::empty(),
        k <= s.func.constants@.len(),
    ensures
        constants_written(s, k).func == s.func,
        constants_written(s, k).body.next == array_count(s.func, k),
        constants_written(s, k).body.stmts.len() == array_count(s.func, k),
        forall|i: int|
            0 <= i < array_count(s.func, k) ==> {
                &&& (#[trigger] constants_written(s, k).body.stmts[i]) is Eval
                &&& constants_written(s, k).body.stmts[i]->Eval_dst == i
            },
        forall|c: usize| #[trigger]
            constants_written(s, k).constants.dom().contains(c) <==> c < k && is_array_operand(
                s.func,
                c,
            ),
        forall|c: usize| #[trigger]
            constants_written(s, k).constants.dom().contains(c) ==> {
                let sid = constants_written(s, k).constants[c];
                sid < array_count(s.func, k) && evaluates(
                    constants_written(s, k).body.stmts[sid as int],
                    sid,
                    s.func.constants@[c as int],
                )
            },
    decreases k,
{
    assert(s.func.constants.len() == s.func.constants@.len());
    if k > 0 {
        let before = constants_written(s, (k - 1) as nat);
        let after = constants_written(s, k);
        lemma_constants_written(s, (k - 1) as nat);
        assert forall|c: usize| #[trigger] after.constants.dom().contains(c) implies {
            let sid = after.constants[c];
            sid < array_count(s.func, k) && evaluates(
                after.body.stmts[sid as int],
                sid,
                s.func.constants@[c as int],
            )
        } by {
            if c < k - 1 {
                assert(before.constants.dom().contains(c));
            }
        }
    }
}

/// The statements of the blocks come after those in front of them.
proof fn lemma_blocks_prefix(s: StateView, k: nat)
    ensures
        starts_with(blocks_written(s, k).body.stmts, s.body.stmts),
    decreases k,
{
    if k > 0 {
        let t = blocks_written(s, (k - 1) as nat);
        let bid = BlockId((k - 1) as usize);
        lemma_blocks_prefix(s, (k - 1) as nat);
        blocks_have_their_shape(t, bid);
        let a = s.body.stmts;
        let c = block_written(t, bid).body.stmts;
        assert forall|i: int| 0 <= i < a.len() implies #[trigger] c[i] == a[i] by {
            assert(t.body.stmts[i] == a[i]);
        }
    }
}

/// Each array literal that is an operand in some block is evaluated before the
/// blocks, and the value that is defined there is the one that stands for it as an
/// operand, from the first block to the last.
pub proof fn array_literals_are_evaluated_first(
    body: Func,
    method_info: Option<MethodInfo>,
    strings: Seq<Seq<u8>>,
    c: ConstantId,
    k: nat,
)
    requires
        is_array_operand(body, c.0),
        k <= body.blocks@.len(),
    ensures
        ({
            let first = blocks_start(body, method_info, strings);
            let sid = first.constants[c.0];
            let stmts = body_end(body, method_info, strings).body.stmts;
            &&& sid < first.body.stmts.len() <= stmts.len()
            &&& evaluates(stmts[sid as int], sid, body.constants@[c.0 as int])
            &&& blocks_written(first, k).ready(ValueId::Constant(c))
            &&& blocks_written(first, k).value_expr(ValueId::Constant(c)) == ExprView::Sid(sid)
        }),
{
    reveal(body_end);
    let first = blocks_start(body, method_info, strings);
    lemma_constants_written(body_start(body, method_info, strings), body.constants@.len());
    assert(first.constants.dom().contains(c.0));
    lemma_blocks_prefix(first, body.blocks@.len());
    lemma_blocks_keep(first, k);
    let sid = first.constants[c.0];
    assert(body_end(body, method_info, strings).body.stmts[sid as int]
        == first.body.stmts[sid as int]);
}

/// Nothing else is evaluated before the blocks: there is one statement for each array
/// literal that is an operand, and none for other constants.
pub proof fn only_array_operands_are_evaluated_first(
    body: Func,
    method_info: Option<MethodInfo>,
    strings: Seq<Seq<u8>>,
    c: usize,
)
    ensures
        blocks_start(body, method_info, strings).constants.dom().contains(c) <==> is_array_operand(
            body,
            c,
        ),
        blocks_start(body, method_info, strings).body.stmts.len() == array_count(
            body,
            body.constants@.len(),
        ),
{
    lemma_constants_written(body_start(body, method_info, strings), body.constants@.len());
}

/// Evaluating these is enough: an instruction in a block that could be emitted if
/// every constant had a value can be emitted.
pub proof fn no_array_operand_is_missed(
    func: Func,
    method: Option<MethodInfo>,
    n_strings: nat,
    values: Set<usize>,
    b: int,
    i: int,
)
    requires
        0 <= b < func.blocks@.len(),
        0 <= i < func.blocks@[b].iids@.len(),
        func.blocks@[b].iids@[i].0 < func.instrs@.len(),
    ensures
        instr_ready(
            func,
            method,
            Scope { n_strings, constants: Set::full() },
            values,
            func.blocks@[b].iids@[i],
        ) ==> instr_ready(
            func,
            method,
            body_scope(func, n_strings),
            values,
            func.blocks@[b].iids@[i],
        ),
        func.instrs@[func.blocks@[b].iids@[i].0 as int] matches Instr::Terminator(t) ==> (
        terminator_ready(func, Scope { n_strings, constants: Set::full() }, values, t)
            ==> terminator_ready(func, body_scope(func, n_strings), values, t)),
{
    let all = Scope { n_strings, constants: Set::<usize>::full() };
    let own = body_scope(func, n_strings);
    let operands = mentioned_operands(func.instrs@[func.blocks@[b].iids@[i].0 as int]);
    assert forall|j: int| 0 <= j < operands.len() && value_ready(
        func,
        all,
        values,
        #[trigger] operands[j],
    ) implies value_ready(func, own, values, operands[j]) by {
        if let ValueId::Constant(c) = operands[j] {
            assert(operands.contains(ValueId::Constant(ConstantId(c.0))));
            assert(mentioned_at(func, b, i, c.0));
        }
    }
    if let Instr::Call(call) = func.instrs@[func.blocks@[b].iids@[i].0 as int] {
        assert(forall|j: int|
            0 <= j < call.args@.len() ==> #[trigger] call.args@[j] == operands[j]);
        if let CallDetail::FCallObjMethodD { obj, .. } = call.detail {
            assert(operands[call.args@.len() as int] == obj);
        }
    }
    if operands.len() > 0 {
        assert(value_ready(func, all, values, operands[0]) ==> value_ready(
            func,
            own,
            values,
            operands[0],
        ));
    }
}

// ---------------------------------------------------------------------------
// Definitions
// ---------------------------------------------------------------------------

/// Whether one of the statements from `from` on defines the value `sid`.
pub open spec fn defined_from(stmts: Seq<StmtView>, from: nat, sid: nat) -> bool {
    exists|i: int| from <= i < stmts.len() && (#[trigger] stmt_defs(stmts[i])).contains(sid)
}

/// `t` comes from `s` by adding statements, which define every value that is new in
/// `t`.
pub open spec fn fills(s: BodyView, t: BodyView) -> bool {
    &&& starts_with(t.stmts, s.stmts)
    &&& s.next <= t.next
    &&& forall|sid: nat|
        s.next <= sid < t.next ==> #[trigger] defined_from(t.stmts, s.stmts.len(), sid)
}

broadcast proof fn lemma_plus_fills(b: BodyView, stmt: StmtView)
    ensures
        #[trigger] fills(b, b.plus(stmt)),
{
}

broadcast proof fn lemma_define_fills(b: BodyView, stmt: StmtView)
    requires
        stmt_defs(stmt) == seq![b.next],
    ensures
        #[trigger] fills(b, b.define(stmt)),
{
    let c = b.define(stmt);
    assert(seq![b.next][0] == b.next);
    assert(stmt_defs(c.stmts[b.stmts.len() as int]).contains(b.next));
}

proof fn lemma_fills_trans(s: BodyView, t: BodyView, u: BodyView)
    requires
        fills(s, t),
        fills(t, u),
    ensures
        fills(s, u),
{
    assert forall|i: int| 0 <= i < s.stmts.len() implies #[trigger] u.stmts[i] == s.stmts[i] by {
        assert(t.stmts[i] == s.stmts[i]);
    }
    assert forall|sid: nat| s.next <= sid < u.next implies #[trigger] defined_from(
        u.stmts,
        s.stmts.len(),
        sid,
    ) by {
        if sid < t.next {
            assert(defined_from(t.stmts, s.stmts.len(), sid));
            let i = choose|i: int|
                s.stmts.len() <= i < t.stmts.len() && (#[trigger] stmt_defs(t.stmts[i])).contains(
                    sid,
                );
            assert(stmt_defs(u.stmts[i]).contains(sid));
        } else {
            assert(defined_from(u.stmts, t.stmts.len(), sid));
            let i = choose|i: int|
                t.stmts.len() <= i < u.stmts.len() && (#[trigger] stmt_defs(u.stmts[i])).contains(
                    sid,
                );
            assert(stmt_defs(u.stmts[i]).contains(sid));
        }
    }
}

proof fn lemma_call_fills(s: StateView, iid: InstrId, call: Call)
    ensures
        fills(s.body, call_written(s, iid, call).body),
{
    broadcast use {lemma_plus_fills, lemma_define_fills};

    let noted = s.with_body(commented(s.body, call_notes(s.strings, call)));
    assert(fills(s.body, noted.body));
    let called = callee_called(noted, call);
    match call.detail {
        CallDetail::FCallClsMethodD { clsid, .. } => {
            let loaded = noted.body.load_static_class(clsid);
            assert(fills(noted.body, loaded));
            assert(fills(loaded, called.body));
            lemma_fills_trans(noted.body, loaded, called.body);
        },
        CallDetail::FCallClsMethodSD { .. } => {
            let mi = noted.method->0;
            let loaded = noted.this_loaded(mi).body;
            let named = parent_interned(noted, mi).this_loaded(mi).body;
            assert(fills(noted.body, loaded));
            assert(fills(noted.body, named));
            if let CallDetail::FCallClsMethodSD { clsref: SpecialClsRef::ParentCls, .. } =
                call.detail {
                assert(fills(named, called.body));
                lemma_fills_trans(noted.body, named, called.body);
            } else {
                assert(fills(loaded, called.body));
                lemma_fills_trans(noted.body, loaded, called.body);
            }
        },
        CallDetail::FCallCtor => {},
        _ => {
            assert(fills(noted.body, called.body));
        },
    }
    lemma_fills_trans(s.body, noted.body, called.body);
    let done = awaited(called, call.flags.has_async_eager_offset);
    assert(fills(called.body, done.body));
    lemma_fills_trans(s.body, called.body, done.body);
}

proof fn lemma_hhbc_fills(s: StateView, iid: InstrId, h: Hhbc)
    ensures
        fills(s.body, hhbc_written(s, iid, h).body),
{
    broadcast use {lemma_plus_fills, lemma_define_fills};

    match h {
        Hhbc::CreateCl { clsid, .. } => {
            let made = s.body.eval(
                ExprView::Alloc(Ty::Class { class: clsid, is_static: IsStatic::NonStatic }),
            );
            assert(fills(s.body, made));
            assert(fills(made, hhbc_written(s, iid, h).body));
            lemma_fills_trans(s.body, made, hhbc_written(s, iid, h).body);
        },
        Hhbc::IncDecL(lid, op, _) => {
            let n = s.body.next;
            let a = s.body.load(Ty::Mixed, local_view(lid));
            let b = a.call(NameView::Builtin(Builtin::Int), seq![int_view(1)]);
            let c = b.call(
                NameView::Builtin(inc_dec_builtin(op)),
                seq![ExprView::Sid(n), ExprView::Sid(n + 1)],
            );
            let d = hhbc_written(s, iid, h).body;
            assert(fills(s.body, a));
            assert(fills(a, b));
            assert(fills(b, c));
            assert(fills(c, d));
            lemma_fills_trans(s.body, a, b);
            lemma_fills_trans(s.body, b, c);
            lemma_fills_trans(s.body, c, d);
        },
        _ => {},
    }
}

proof fn lemma_special_fills(s: StateView, iid: InstrId, sp: Special)
    ensures
        fills(s.body, special_written(s, iid, sp).body),
{
    broadcast use {lemma_plus_fills, lemma_define_fills};

}

/// The statements of an instruction define every value that is new after it.
pub proof fn instructions_define_their_values(s: StateView, iid: InstrId)
    ensures
        fills(s.body, instr_written(s, iid).body),
{
    broadcast use {lemma_plus_fills, lemma_define_fills};

    let instr = s.func.instrs@[iid.0 as int];
    let at = s.at_loc(instr_loc(instr));
    assert(fills(s.body, at.body));
    match instr {
        Instr::Call(call) => lemma_call_fills(at, iid, call),
        Instr::Hhbc(h) => lemma_hhbc_fills(at, iid, h),
        Instr::MemberOp(_) => {
            assert(fills(at.body, instr_written(s, iid).body));
        },
        Instr::Special(sp) => lemma_special_fills(at, iid, sp),
        Instr::Terminator(_) => {},
    }
    lemma_fills_trans(s.body, at.body, instr_written(s, iid).body);
}

proof fn lemma_instrs_fill(s: StateView, iids: Seq<InstrId>)
    ensures
        fills(s.body, instrs_written(s, iids).body),
    decreases iids.len(),
{
    if iids.len() > 0 {
        let t = instrs_written(s, iids.drop_last());
        lemma_instrs_fill(s, iids.drop_last());
        instructions_define_their_values(t, iids.last());
        lemma_fills_trans(s.body, t.body, instr_written(t, iids.last()).body);
    }
}

proof fn lemma_terminator_fills(s: StateView, t: Terminator)
    ensures
        fills(s.body, terminator_written(s, t).body),
{
    broadcast use {lemma_plus_fills, lemma_define_fills};

    let at = s.at_loc(terminator_loc(t));
    assert(fills(s.body, at.body));
    let end = terminator_written(s, t).body;
    let called = match t {
        Terminator::Exit(msg, _) => at.body.call(
            NameView::Builtin(Builtin::Hhbc(hack::Hhbc::Exit)),
            seq![at.value_expr(msg)],
        ),
        Terminator::Fatal(msg, _) => at.body.call(
            NameView::Builtin(Builtin::Hhbc(hack::Hhbc::Fatal)),
            seq![at.value_expr(msg)],
        ),
        Terminator::Throw(vid, _) => at.body.call(
            NameView::Text("TODO_throw"@),
            seq![at.value_expr(vid)],
        ),
        Terminator::Other { text, .. } => at.todo_called(text@).body,
        _ => at.body,
    };
    assert(fills(at.body, called));
    assert(fills(called, end));
    lemma_fills_trans(at.body, called, end);
    lemma_fills_trans(s.body, at.body, end);
}

/// The body once the parameters of the first block have their values, which no
/// statement defines.
pub open spec fn with_values(b: BodyView, n: nat) -> BodyView {
    BodyView { stmts: b.stmts, next: b.next + n }
}

proof fn lemma_block_fills(s: StateView, bid: BlockId)
    ensures
        bid.0 == ENTRY_BLOCK ==> fills(
            with_values(s.body, s.func.blocks@[bid.0 as int].params@.len()),
            block_written(s, bid).body,
        ),
        bid.0 != ENTRY_BLOCK ==> fills(s.body, block_written(s, bid).body),
{
    broadcast use {lemma_plus_fills, lemma_define_fills};

    let block = s.func.blocks@[bid.0 as int];
    let n = block.params@.len();
    lemma_params_bound(s, block.params@);
    let started = block_started(s, bid);
    let first = if bid.0 == ENTRY_BLOCK {
        with_values(s.body, n)
    } else {
        s.body
    };
    assert(fills(first, started.body)) by {
        if bid.0 != ENTRY_BLOCK {
            let at = s.body.stmts.len();
            let sids = numbers_from(s.body.next, n);
            assert(stmt_defs(started.body.stmts[at as int]) == sids);
            assert forall|sid: nat| s.body.next <= sid < started.body.next implies #[trigger]
                defined_from(started.body.stmts, at, sid) by {
                assert(sids[sid - s.body.next] == sid);
                assert(stmt_defs(started.body.stmts[at as int]).contains(sid));
            }
        }
    }
    let t = instrs_written(started, block.iids@.drop_last());
    lemma_instrs_fill(started, block.iids@.drop_last());
    lemma_fills_trans(first, started.body, t.body);
    let term = s.func.instrs@[block.iids@.last().0 as int]->Terminator_0;
    let u = terminator_written(t, term);
    lemma_terminator_fills(t, term);
    lemma_fills_trans(first, t.body, u.body);
    let end = block_written(s, bid);
    assert(fills(u.body, end.body));
    lemma_fills_trans(first, u.body, end.body);
}

/// The number of parameters of the first block.
pub open spec fn entry_params(func: Func) -> nat {
    if func.blocks@.len() == 0 {
        0
    } else {
        func.blocks@[ENTRY_BLOCK as int].params@.len()
    }
}

proof fn lemma_blocks_keep(s: StateView, k: nat)
    ensures
        blocks_written(s, k).func == s.func,
        blocks_written(s, k).constants == s.constants,
    decreases k,
{
    if k > 0 {
        lemma_blocks_keep(s, (k - 1) as nat);
        lemma_block_keeps(blocks_written(s, (k - 1) as nat), BlockId((k - 1) as usize));
    }
}

proof fn lemma_block_keeps(s: StateView, bid: BlockId)
    ensures
        block_written(s, bid).func == s.func,
        block_written(s, bid).constants == s.constants,
{
    let block = s.func.blocks@[bid.0 as int];
    lemma_params_bound(s, block.params@);
    lemma_instrs_keep(block_started(s, bid), block.iids@.drop_last());
}

proof fn lemma_instrs_keep(s: StateView, iids: Seq<InstrId>)
    ensures
        instrs_written(s, iids).func == s.func,
        instrs_written(s, iids).constants == s.constants,
    decreases iids.len(),
{
    if iids.len() > 0 {
        lemma_instrs_keep(s, iids.drop_last());
    }
}

proof fn lemma_blocks_fill(s: StateView, k: nat)
    requires
        0 < k <= s.func.blocks@.len(),
        k <= usize::MAX,
    ensures
        fills(with_values(s.body, entry_params(s.func)), blocks_written(s, k).body),
    decreases k,
{
    let t = blocks_written(s, (k - 1) as nat);
    lemma_blocks_keep(s, (k - 1) as nat);
    lemma_block_fills(t, BlockId((k - 1) as usize));
    if k > 1 {
        lemma_blocks_fill(s, (k - 1) as nat);
        lemma_fills_trans(
            with_values(s.body, entry_params(s.func)),
            t.body,
            blocks_written(s, k).body,
        );
    }
}

/// Whether a value is a parameter of the first block. Those are numbered after the
/// array literals.
pub open spec fn is_entry_param(body: Func, sid: nat) -> bool {
    let first = array_count(body, body.constants@.len());
    first <= sid < first + entry_params(body)
}

/// Every value that a statement of a body mentions is defined by an earlier
/// statement, or it is a parameter of the first block, which has no label.
pub proof fn mentioned_values_are_defined(
    body: Func,
    method_info: Option<MethodInfo>,
    strings: Seq<Seq<u8>>,
    i: int,
    sid: nat,
)
    requires
        body_end(body, method_info, strings).sound(),
        0 <= i < body_end(body, method_info, strings).body.stmts.len(),
        stmt_uses(body_end(body, method_info, strings).body.stmts[i], sid),
    ensures
        is_entry_param(body, sid) || exists|j: int|
            0 <= j < i && (#[trigger] stmt_defs(
                body_end(body, method_info, strings).body.stmts[j],
            )).contains(sid),
{
    reveal(body_end);
    reveal(BodyView::scoped);
    let n = body.blocks@.len();
    let first = blocks_start(body, method_info, strings);
    let end = body_end(body, method_info, strings).body;
    lemma_constants_written(body_start(body, method_info, strings), body.constants@.len());
    lemma_blocks_prefix(first, n);
    if !is_entry_param(body, sid) {
        if sid < first.body.next {
            assert(end.stmts[sid as int] == first.body.stmts[sid as int]);
            assert(stmt_defs(end.stmts[sid as int]) =~= seq![sid]);
            assert(seq![sid][0] == sid);
            assert(stmt_defs(end.stmts[sid as int]).contains(sid));
        } else {
            assert(n > 0);
            assert(body.blocks.len() == n);
            lemma_blocks_fill(first, n);
            assert(defined_from(end.stmts, first.body.stmts.len(), sid));
        }
        let j = choose|j: int|
            0 <= j < end.stmts.len() && (#[trigger] stmt_defs(end.stmts[j])).contains(sid);
        let a = choose|a: int|
            0 <= a < stmt_defs(end.stmts[j]).len() && stmt_defs(end.stmts[j])[a] == sid;
        assert(stmt_defs(end.stmts[j])[a] == sid);
    }
}

// ---------------------------------------------------------------------------
// Instructions
// ---------------------------------------------------------------------------

/// Setting a local has its input as its value.
pub proof fn set_yields_its_input(
    s: StateView,
    iid: InstrId,
    vid: ValueId,
    lid: LocalId,
    loc: Option<LocId>,
)
    ensures
        hhbc_written(s, iid, Hhbc::SetL(vid, lid, loc)).values[iid.0] == s.value_expr(vid),
        hhbc_written(s, iid, Hhbc::SetL(vid, lid, loc)).body.stmts.last() == (StmtView::Store {
            place: local_view(lid),
            src: s.value_expr(vid),
            ty: Ty::Mixed,
        }),
{
}

/// The value of an operand is the same wherever it is looked up later: neither
/// more code nor more strings change it.
pub proof fn operands_keep_their_value(s: StateView, t: StateView, n: nat, vid: ValueId)
    requires
        extends(s, t, n),
        s.ready(vid),
        vid matches ValueId::Instr(iid) ==> s.values.dom().contains(iid.0),
    ensures
        t.ready(vid),
        t.value_expr(vid) == s.value_expr(vid),
{
}

// ---------------------------------------------------------------------------
// Functions
// ---------------------------------------------------------------------------

/// A function becomes one definition, and a static method two.
pub proof fn only_static_methods_get_a_stub(p: PreparedFunc, strings: Seq<Seq<u8>>)
    ensures
        func_defs(p, strings).len() == if is_static_method(p.method_info) {
            2nat
        } else {
            1nat
        },
        func_defs(p, strings)[0].name == p.name_str@,
{
}

/// The instance stub of a static method has the name of the method's instance form
/// and the same parameters, but for the type of the first one. It calls the static
/// method with as many arguments, and returns the result.
pub proof fn the_stub_forwards_to_the_static_method(p: PreparedFunc, strings: Seq<Seq<u8>>)
    requires
        is_static_method(p.method_info),
        p.name_str@ == func_name(p.name, p.method_info),
        p.params@.len() > 0,
    ensures
        ({
            let own = func_defs(p, strings)[0];
            let stub = func_defs(p, strings)[1];
            let n = stub.body.len();
            &&& own.name matches NameView::Member { class, is_static, member }
            &&& is_static == IsStatic::Static
            &&& stub.name == (NameView::Member { class, is_static: IsStatic::NonStatic, member })
            &&& stub.params.len() == own.params.len()
            &&& stub.params[0].name == own.params[0].name
            &&& forall|i: int|
                1 <= i < own.params.len() ==> #[trigger] stub.params[i] == own.params[i]
            &&& stub.ret_ty == own.ret_ty
            &&& n > 1
            &&& stub.body[n - 2] matches StmtView::Call { dst, target, args }
            &&& target == own.name
            &&& args.len() == own.params.len()
            &&& stub.body[n - 1] == StmtView::Ret(ExprView::Sid(dst))
        }),
{
}

/// The body of an instance stub defines each value once, and mentions it after
/// that only.
pub proof fn a_stub_defines_each_value_once(
    strings: Seq<Seq<u8>>,
    name: UnitBytesId,
    mi: MethodInfo,
    params: Seq<ParamView>,
)
    requires
        params.len() > 0,
    ensures
        (BodyView {
            stmts: stub_body(strings, name, mi, params),
            next: params.len() + 2,
        }).ordered(),
        (BodyView {
            stmts: stub_body(strings, name, mi, params),
            next: params.len() + 2,
        }).scoped(),
{
    reveal(BodyView::ordered);
    reveal(BodyView::scoped);
    let n = params.len();
    let body = stub_body(strings, name, mi, params);
    assert(body.len() == n + 4);
    assert forall|i: int| 0 <= i < body.len() implies #[trigger] stmt_defs(body[i]) == if i == 0
        || i == n + 3 {
        Seq::<nat>::empty()
    } else {
        seq![(i - 1) as nat]
    } by {
        assert(stmt_defs(body[i]) =~= if i == 0 || i == n + 3 {
            Seq::<nat>::empty()
        } else {
            seq![(i - 1) as nat]
        });
    }
    assert forall|i: int, sid: nat|
        0 <= i < body.len() && #[trigger] stmt_uses(body[i], sid) implies sid < i - 1 by {
        if 3 <= i < n + 2 {
            assert(body[i] is Load);
        }
    }
}

} // verus!
