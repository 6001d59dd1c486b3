//! Emitting blocks and whole bodies.

use vstd::prelude::*;

use crate::call::{awaited, call_notes, call_ready, call_written, callee_called, commented};
use crate::instr::{
    has_value, hhbc_has_value, hhbc_written, instr_ready, instr_written, special_has_value,
    special_written, terminator_ready, terminator_written, write_instr, write_terminator,
};
use crate::ir::{
    instr_loc, Block, BlockId, Call, Func, Hhbc, Instr, InstrId, Special, Terminator, ValueId,
    ENTRY_BLOCK,
};
use crate::state::{value_ready, FuncState, MethodInfo, Scope, StateView};
use crate::textual::{label_fits, sids_view, starts_with, BodyView, ExprView, Sid, StmtView};

verus! {

// ---------------------------------------------------------------------------
// Which instructions have a value
// ---------------------------------------------------------------------------

/// Whether `k` is one of the parameters.
pub open spec fn is_param(params: Seq<InstrId>, k: usize) -> bool {
    exists|i: int| 0 <= i < params.len() && (#[trigger] params[i]).0 == k
}

/// The instructions that have a value once the given ones have been bound.
pub open spec fn params_values(values: Set<usize>, params: Seq<InstrId>) -> Set<usize> {
    Set::new(|k: usize| values.contains(k) || is_param(params, k))
}

/// The instructions that have a value once `iid` has been emitted.
pub open spec fn instr_values(func: Func, values: Set<usize>, iid: InstrId) -> Set<usize> {
    if has_value(func.instrs@[iid.0 as int]) {
        values.insert(iid.0)
    } else {
        values
    }
}

/// The instructions that have a value once the given ones have been emitted.
pub open spec fn instrs_values(func: Func, values: Set<usize>, iids: Seq<InstrId>) -> Set<usize>
    decreases iids.len(),
{
    if iids.len() == 0 {
        values
    } else {
        instr_values(func, instrs_values(func, values, iids.drop_last()), iids.last())
    }
}

/// The instructions that have a value once a block has been emitted.
pub open spec fn block_values(func: Func, values: Set<usize>, block: Block) -> Set<usize> {
    instrs_values(func, params_values(values, block.params@), block.iids@.drop_last())
}

/// The instructions that have a value once the first `k` blocks have been
/// emitted.
pub open spec fn blocks_values(func: Func, k: nat) -> Set<usize>
    decreases k,
{
    if k == 0 {
        Set::empty()
    } else {
        block_values(func, blocks_values(func, (k - 1) as nat), func.blocks@[k - 1])
    }
}

// ---------------------------------------------------------------------------
// What can be emitted
// ---------------------------------------------------------------------------

/// No parameter has a value yet and none occurs twice.
pub open spec fn params_ready(values: Set<usize>, params: Seq<InstrId>) -> bool {
    &&& forall|i: int| 0 <= i < params.len() ==> !values.contains((#[trigger] params[i]).0)
    &&& forall|i: int, j: int|
        0 <= i < j < params.len() ==> #[trigger] params[i] != #[trigger] params[j]
}

/// One more parameter has a value, which it has not had before if it is new.
pub proof fn lemma_params_step(values: Set<usize>, params: Seq<InstrId>, i: int)
    requires
        0 <= i < params.len(),
    ensures
        params_values(values, params.take(0)) == values,
        params_values(values, params.take(i + 1)) == params_values(values, params.take(i)).insert(
            params[i].0,
        ),
        params_values(values, params.take(i)).contains(params[i].0) <==> values.contains(
            params[i].0,
        ) || exists|k: int| 0 <= k < i && #[trigger] params[k] == params[i],
{
    let before = params.take(i);
    let after = params.take(i + 1);
    assert(params_values(values, params.take(0)) =~= values);
    assert forall|k: usize| #[trigger] is_param(after, k) <==> is_param(before, k) || k
        == params[i].0 by {
        if is_param(before, k) {
            let j = choose|j: int| 0 <= j < before.len() && (#[trigger] before[j]).0 == k;
            assert(after[j].0 == k);
        }
        if k == params[i].0 {
            assert(after[i].0 == k);
        }
        if is_param(after, k) {
            let j = choose|j: int| 0 <= j < after.len() && (#[trigger] after[j]).0 == k;
            if j < i {
                assert(before[j].0 == k);
            }
        }
    }
    assert(params_values(values, after) =~= params_values(values, before).insert(params[i].0));
    if is_param(before, params[i].0) {
        let j = choose|j: int| 0 <= j < before.len() && (#[trigger] before[j]).0 == params[i].0;
        assert(params[j] == params[i]);
    }
    if exists|k: int| 0 <= k < i && #[trigger] params[k] == params[i] {
        let k = choose|k: int| 0 <= k < i && #[trigger] params[k] == params[i];
        assert(before[k].0 == params[i].0);
    }
}

/// Each of the instructions can be emitted once those before it have been.
pub open spec fn instrs_ready(
    func: Func,
    method: Option<MethodInfo>,
    scope: Scope,
    values: Set<usize>,
    iids: Seq<InstrId>,
) -> bool {
    forall|i: int|
        0 <= i < iids.len() ==> instr_ready(
            func,
            method,
            scope,
            instrs_values(func, values, iids.take(i)),
            #[trigger] iids[i],
        )
}

/// A block can be emitted: its parameters are new, each instruction finds its
/// operands, and the last one is a terminator that does.
#[verifier::opaque]
pub open spec fn block_ready(
    func: Func,
    method: Option<MethodInfo>,
    scope: Scope,
    values: Set<usize>,
    block: Block,
) -> bool {
    let iids = block.iids@;
    &&& iids.len() > 0
    &&& params_ready(values, block.params@)
    &&& instrs_ready(
        func,
        method,
        scope,
        params_values(values, block.params@),
        iids.drop_last(),
    )
    &&& iids.last().0 < func.instrs@.len()
    &&& func.instrs@[iids.last().0 as int] matches Instr::Terminator(t) && terminator_ready(
        func,
        scope,
        block_values(func, values, block),
        t,
    )
}

/// Each block can be emitted once those before it have been.
pub open spec fn body_ready(func: Func, method: Option<MethodInfo>, scope: Scope) -> bool {
    forall|b: int|
        0 <= b < func.blocks@.len() ==> block_ready(
            func,
            method,
            scope,
            blocks_values(func, b as nat),
            #[trigger] func.blocks@[b],
        )
}

/// The most values that a block defines: one for each parameter, and three for
/// an instruction.
pub open spec fn block_sids(block: Block) -> nat {
    block.params@.len() + 3 * block.iids@.len()
}

/// The most values that the first `k` blocks define.
pub open spec fn blocks_sids(func: Func, k: nat) -> nat
    decreases k,
{
    if k == 0 {
        0
    } else {
        blocks_sids(func, (k - 1) as nat) + block_sids(func.blocks@[k - 1])
    }
}

// ---------------------------------------------------------------------------
// What is emitted
// ---------------------------------------------------------------------------

/// After each of the parameters has been given a new value.
pub open spec fn params_bound(s: StateView, params: Seq<InstrId>) -> StateView
    decreases params.len(),
{
    if params.len() == 0 {
        s
    } else {
        let t = params_bound(s, params.drop_last());
        t.with_body(BodyView { stmts: t.body.stmts, next: t.body.next + 1 }).bind(
            params.last(),
            t.body.next_sid(),
        )
    }
}

/// The `n` numbers from `first` on.
pub open spec fn numbers_from(first: nat, n: nat) -> Seq<nat> {
    Seq::new(n, |i: int| (first + i) as nat)
}

/// After the given instructions.
pub open spec fn instrs_written(s: StateView, iids: Seq<InstrId>) -> StateView
    decreases iids.len(),
{
    if iids.len() == 0 {
        s
    } else {
        instr_written(instrs_written(s, iids.drop_last()), iids.last())
    }
}

/// After the start of a block: its parameters have new values, and every block
/// but the first has a label with them.
pub open spec fn block_started(s: StateView, bid: BlockId) -> StateView {
    let params = s.func.blocks@[bid.0 as int].params@;
    let t = params_bound(s, params);
    if bid.0 == ENTRY_BLOCK {
        t
    } else {
        t.with_body(
            t.body.plus(
                StmtView::Label { bid, params: numbers_from(s.body.next, params.len()) },
            ),
        )
    }
}

/// After a block: its start, its instructions, its terminator, and the name of
/// the block that handles what is thrown in it.
pub open spec fn block_written(s: StateView, bid: BlockId) -> StateView {
    let block = s.func.blocks@[bid.0 as int];
    let t = instrs_written(block_started(s, bid), block.iids@.drop_last());
    let u = terminator_written(
        t,
        s.func.instrs@[block.iids@.last().0 as int]->Terminator_0,
    );
    match block.catch_target {
        Some(handler) => u.with_body(u.body.plus(StmtView::Handler(handler))),
        None => u,
    }
}

/// After the first `k` blocks.
pub open spec fn blocks_written(s: StateView, k: nat) -> StateView
    decreases k,
{
    if k == 0 {
        s
    } else {
        block_written(blocks_written(s, (k - 1) as nat), BlockId((k - 1) as usize))
    }
}

// ---------------------------------------------------------------------------
// Facts on single steps
// ---------------------------------------------------------------------------

/// `t` comes from `s` by emitting: the function, the method and the constants are
/// the same, no string, statement or value is lost or changed, and at most `n`
/// values are defined.
pub open spec fn extends(s: StateView, t: StateView, n: nat) -> bool {
    &&& t.func == s.func
    &&& t.method == s.method
    &&& t.constants == s.constants
    &&& starts_with(t.strings, s.strings)
    &&& starts_with(t.body.stmts, s.body.stmts)
    &&& s.body.next <= t.body.next <= s.body.next + n
    &&& forall|k: usize| #[trigger]
        s.values.dom().contains(k) ==> t.values.dom().contains(k) && t.values[k] == s.values[k]
}

proof fn lemma_extends_trans(s: StateView, t: StateView, u: StateView, n: nat, m: nat)
    requires
        extends(s, t, n),
        extends(t, u, m),
    ensures
        extends(s, u, n + m),
{
    assert forall|i: int| 0 <= i < s.strings.len() implies #[trigger] u.strings[i]
        == s.strings[i] by {
        assert(t.strings[i] == s.strings[i]);
    }
    assert forall|i: int| 0 <= i < s.body.stmts.len() implies #[trigger] u.body.stmts[i]
        == s.body.stmts[i] by {
        assert(t.body.stmts[i] == s.body.stmts[i]);
    }
}

/// A call keeps what was emitted and what has a value before it.
proof fn lemma_call_written(s: StateView, iid: InstrId, call: Call)
    requires
        call_ready(s.func, s.method, s.scope(), s.values.dom(), call),
        !s.values.dom().contains(iid.0),
    ensures
        extends(s, call_written(s, iid, call), 3),
        call_written(s, iid, call).values.dom() == s.values.dom().insert(iid.0),
{
    let noted = s.with_body(commented(s.body, call_notes(s.strings, call)));
    assert(extends(s, noted, 0));
    let called = callee_called(noted, call);
    assert(extends(noted, called, 2));
    assert(called.values == s.values);
    lemma_extends_trans(s, noted, called, 0, 2);
    let done = awaited(called, call.flags.has_async_eager_offset);
    assert(extends(called, done, 1));
    lemma_extends_trans(s, called, done, 2, 1);
}

proof fn lemma_hhbc_written(s: StateView, iid: InstrId, h: Hhbc)
    requires
        hhbc_has_value(h) ==> !s.values.dom().contains(iid.0),
    ensures
        extends(s, hhbc_written(s, iid, h), 3),
        hhbc_written(s, iid, h).values.dom() == if hhbc_has_value(h) {
            s.values.dom().insert(iid.0)
        } else {
            s.values.dom()
        },
{
}

proof fn lemma_special_written(s: StateView, iid: InstrId, sp: Special)
    requires
        special_has_value(sp) ==> !s.values.dom().contains(iid.0),
    ensures
        extends(s, special_written(s, iid, sp), 1),
        special_written(s, iid, sp).values.dom() == if special_has_value(sp) {
            s.values.dom().insert(iid.0)
        } else {
            s.values.dom()
        },
{
}

/// An instruction keeps what was emitted and what has a value before it.
pub proof fn instr_keeps_what_came_before(s: StateView, iid: InstrId)
    requires
        instr_ready(s.func, s.method, s.scope(), s.values.dom(), iid),
    ensures
        extends(s, instr_written(s, iid), 3),
        instr_written(s, iid).values.dom() == instr_values(s.func, s.values.dom(), iid),
{
    let instr = s.func.instrs@[iid.0 as int];
    let at = s.at_loc(instr_loc(instr));
    assert(extends(s, at, 0));
    match instr {
        Instr::Call(call) => lemma_call_written(at, iid, call),
        Instr::Hhbc(h) => lemma_hhbc_written(at, iid, h),
        Instr::MemberOp(_) => {},
        Instr::Special(sp) => lemma_special_written(at, iid, sp),
        Instr::Terminator(_) => {},
    }
    lemma_extends_trans(s, at, instr_written(s, iid), 0, 3);
}

/// So does a terminator, which has no value.
proof fn lemma_terminator_written(s: StateView, t: Terminator)
    ensures
        extends(s, terminator_written(s, t), 1),
        terminator_written(s, t).values == s.values,
        terminator_written(s, t).strings == s.strings,
{
}

/// `m` has all strings that `n` has, and the same constants.
pub open spec fn within(n: Scope, m: Scope) -> bool {
    n.n_strings <= m.n_strings && n.constants == m.constants
}

/// What can be emitted still can be when there are more strings.
proof fn lemma_more_strings(
    func: Func,
    method: Option<MethodInfo>,
    n: Scope,
    m: Scope,
    values: Set<usize>,
    iid: InstrId,
)
    requires
        within(n, m),
        instr_ready(func, method, n, values, iid),
    ensures
        instr_ready(func, method, m, values, iid),
{
    assert(forall|vid: ValueId| #[trigger] value_ready(func, n, values, vid) ==> value_ready(
        func,
        m,
        values,
        vid,
    ));
}

proof fn lemma_more_strings_terminator(
    func: Func,
    n: Scope,
    m: Scope,
    values: Set<usize>,
    t: Terminator,
)
    requires
        within(n, m),
        terminator_ready(func, n, values, t),
    ensures
        terminator_ready(func, m, values, t),
{
    assert(forall|vid: ValueId| #[trigger] value_ready(func, n, values, vid) ==> value_ready(
        func,
        m,
        values,
        vid,
    ));
}

pub proof fn lemma_take_next<A>(s: Seq<A>, i: int)
    requires
        0 <= i < s.len(),
    ensures
        s.take(i + 1).drop_last() == s.take(i),
        s.take(i + 1).last() == s[i],
        s.take(i + 1).len() == i + 1,
{
    assert(s.take(i + 1).drop_last() =~= s.take(i));
}

// ---------------------------------------------------------------------------
// Emitting
// ---------------------------------------------------------------------------

/// Give each parameter of a block a new value.
fn bind_params(state: &mut FuncState<'_>, params: &Vec<InstrId>) -> (r: Vec<Sid>)
    requires
        old(state)@.room(params@.len()),
        params_ready(old(state)@.values.dom(), params@),
    ensures
        sids_view(r@) == numbers_from(old(state)@.body.next, params@.len()),
        final(state)@ == params_bound(old(state)@, params@),
        final(state)@.values.dom() == params_values(old(state)@.values.dom(), params@),
        final(state)@.strings == old(state)@.strings,
        final(state)@.body.stmts == old(state)@.body.stmts,
        final(state)@.body.next == old(state)@.body.next + params@.len(),
        extends(old(state)@, final(state)@, params@.len()),
        old(state)@.sound() ==> final(state)@.sound(),
{
    let mut sids: Vec<Sid> = Vec::new();
    let mut i: usize = 0;
    let ghost start = state@;
    proof {
        assert(params@.take(0) =~= Seq::<InstrId>::empty());
        assert(params_values(start.values.dom(), params@.take(0)) =~= start.values.dom());
    }
    while i < params.len()
        invariant
            i <= params.len(),
            start == old(state)@,
            start.room(params@.len()),
            params_ready(start.values.dom(), params@),
            sids.len() == i,
            forall|k: int| 0 <= k < i ==> (#[trigger] sids@[k]).0 == start.body.next + k,
            state@ == params_bound(start, params@.take(i as int)),
            state@.values.dom() == params_values(start.values.dom(), params@.take(i as int)),
            state@.strings == start.strings,
            state@.body.stmts == start.body.stmts,
            state@.body.next == start.body.next + i,
            extends(start, state@, i as nat),
            start.sound() ==> state@.sound(),
        decreases params.len() - i,
    {
        let iid = params[i];
        let ghost before = state@;
        proof {
            lemma_params_step(start.values.dom(), params@, i as int);
            lemma_take_next(params@, i as int);
        }
        sids.push(state.alloc_sid_for_iid(iid));
        i += 1;
        proof {
            assert(state@.values.dom() =~= before.values.dom().insert(iid.0));
            lemma_extends_trans(start, before, state@, (i - 1) as nat, 1);
        }
    }
    proof {
        assert(params@.take(params@.len() as int) =~= params@);
        assert(sids_view(sids@) =~= numbers_from(start.body.next, params@.len()));
    }
    sids
}

/// Emit a block.
pub fn write_block(state: &mut FuncState<'_>, bid: BlockId)
    requires
        old(state)@.wf(),
        bid.0 < old(state)@.func.blocks@.len(),
        old(state)@.room(block_sids(old(state)@.func.blocks@[bid.0 as int])),
        block_ready(
            old(state)@.func,
            old(state)@.method,
            old(state)@.scope(),
            old(state)@.values.dom(),
            old(state)@.func.blocks@[bid.0 as int],
        ),
    ensures
        final(state)@.wf(),
        final(state)@ == block_written(old(state)@, bid),
        final(state)@.values.dom() == block_values(
            old(state)@.func,
            old(state)@.values.dom(),
            old(state)@.func.blocks@[bid.0 as int],
        ),
        extends(
            old(state)@,
            final(state)@,
            block_sids(old(state)@.func.blocks@[bid.0 as int]),
        ),
        old(state)@.sound() ==> final(state)@.sound(),
{
    proof {
        reveal(block_ready);
    }
    let func = state.func;
    let block = &func.blocks[bid.0];
    let ghost start = state@;
    let ghost scope = start.scope();
    let ghost p = block.params@.len();

    let params = bind_params(state, &block.params);
    let ghost bound = state@;
    // The entry block is there without a label.
    if bid.0 != ENTRY_BLOCK {
        proof {
            if start.sound() {
                reveal(BodyView::ordered);
                reveal(BodyView::scoped);
                assert(label_fits(state@.body, sids_view(params@)));
            }
        }
        state.fb.write_label(bid, params);
        assert(extends(bound, state@, 0));
    }
    let ghost started = state@;
    proof {
        assert(extends(bound, started, 0));
        lemma_extends_trans(start, bound, started, p, 0);
        assert(started == block_started(start, bid));
    }

    // All the non-terminators.
    let n_iids: usize = block.iids.len() - 1;
    let ghost body = block.iids@.drop_last();
    let ghost vals = params_values(start.values.dom(), block.params@);
    let mut i: usize = 0;
    proof {
        assert(body.take(0) =~= Seq::<InstrId>::empty());
    }
    while i < n_iids
        invariant
            i <= n_iids,
            n_iids == block.iids@.len() - 1,
            body == block.iids@.drop_last(),
            state@.wf(),
            started.room(3 * block.iids@.len()),
            scope == start.scope(),
            within(scope, started.scope()),
            instrs_ready(started.func, started.method, scope, vals, body),
            started.values.dom() == vals,
            state@ == instrs_written(started, body.take(i as int)),
            state@.values.dom() == instrs_values(started.func, vals, body.take(i as int)),
            extends(started, state@, (3 * i) as nat),
            start.sound() ==> state@.sound(),
        decreases n_iids - i,
    {
        let iid = block.iids[i];
        let ghost before = state@;
        proof {
            assert(body[i as int] == iid);
            assert(instr_ready(
                started.func,
                started.method,
                scope,
                instrs_values(started.func, vals, body.take(i as int)),
                body[i as int],
            ));
            lemma_more_strings(
                started.func,
                started.method,
                scope,
                before.scope(),
                before.values.dom(),
                iid,
            );
            instr_keeps_what_came_before(before, iid);
            lemma_take_next(body, i as int);
            lemma_extends_trans(started, before, instr_written(before, iid), (3 * i) as nat, 3);
        }
        write_instr(state, iid);
        i += 1;
    }
    proof {
        assert(body.take(body.len() as int) =~= body);
    }
    let ghost done = state@;

    // The terminator.
    let tid = block.iids[n_iids];
    let ghost term = func.instrs@[tid.0 as int]->Terminator_0;
    proof {
        lemma_more_strings_terminator(
            start.func,
            scope,
            done.scope(),
            done.values.dom(),
            term,
        );
        lemma_terminator_written(done, term);
        lemma_extends_trans(start, started, done, p, (3 * n_iids) as nat);
        lemma_extends_trans(
            start,
            done,
            terminator_written(done, term),
            (p + 3 * n_iids) as nat,
            1,
        );
    }
    write_terminator(state, tid);
    let ghost ended = state@;

    // Exception handler.
    match block.catch_target {
        Some(handler) => {
            state.fb.write_exception_handler(handler);
        },
        None => {},
    }
    proof {
        assert(extends(ended, state@, 0));
        lemma_extends_trans(start, ended, state@, (p + 3 * n_iids + 1) as nat, 0);
    }
}

proof fn lemma_more_strings_block(
    func: Func,
    method: Option<MethodInfo>,
    n: Scope,
    m: Scope,
    values: Set<usize>,
    block: Block,
)
    requires
        within(n, m),
        block_ready(func, method, n, values, block),
    ensures
        block_ready(func, method, m, values, block),
{
    reveal(block_ready);
    let vals = params_values(values, block.params@);
    let iids = block.iids@.drop_last();
    assert forall|i: int| 0 <= i < iids.len() implies instr_ready(
        func,
        method,
        m,
        instrs_values(func, vals, iids.take(i)),
        #[trigger] iids[i],
    ) by {
        lemma_more_strings(
            func,
            method,
            n,
            m,
            instrs_values(func, vals, iids.take(i)),
            iids[i],
        );
    }
    lemma_more_strings_terminator(
        func,
        n,
        m,
        block_values(func, values, block),
        func.instrs@[block.iids@.last().0 as int]->Terminator_0,
    );
}

/// The first blocks define no more values than all of them do.
pub proof fn lemma_blocks_sids(func: Func, k: nat, n: nat)
    requires
        k <= n,
    ensures
        blocks_sids(func, k) <= blocks_sids(func, n),
    decreases n - k,
{
    if k < n {
        lemma_blocks_sids(func, k, (n - 1) as nat);
    }
}

/// Emit all blocks of a function, in order.
pub fn write_blocks(state: &mut FuncState<'_>)
    requires
        old(state)@.wf(),
        old(state)@.values == Map::<usize, ExprView>::empty(),
        old(state)@.room(blocks_sids(old(state)@.func, old(state)@.func.blocks@.len())),
        body_ready(old(state)@.func, old(state)@.method, old(state)@.scope()),
    ensures
        final(state)@.wf(),
        final(state)@ == blocks_written(old(state)@, old(state)@.func.blocks@.len()),
        extends(
            old(state)@,
            final(state)@,
            blocks_sids(old(state)@.func, old(state)@.func.blocks@.len()),
        ),
        old(state)@.sound() ==> final(state)@.sound(),
{
    let func = state.func;
    let n: usize = func.blocks.len();
    let ghost start = state@;
    let ghost scope = start.scope();
    let mut b: usize = 0;
    proof {
        assert(start.values.dom() =~= Set::<usize>::empty());
    }
    while b < n
        invariant
            b <= n,
            n == start.func.blocks@.len(),
            start == old(state)@,
            scope == start.scope(),
            start.room(blocks_sids(start.func, n as nat)),
            body_ready(start.func, start.method, scope),
            state@.wf(),
            state@ == blocks_written(start, b as nat),
            state@.values.dom() == blocks_values(start.func, b as nat),
            extends(start, state@, blocks_sids(start.func, b as nat)),
            start.sound() ==> state@.sound(),
        decreases n - b,
    {
        let ghost before = state@;
        proof {
            let block = start.func.blocks@[b as int];
            assert(block_ready(
                start.func,
                start.method,
                scope,
                blocks_values(start.func, b as nat),
                block,
            ));
            lemma_more_strings_block(
                start.func,
                start.method,
                scope,
                before.scope(),
                before.values.dom(),
                block,
            );
            lemma_blocks_sids(start.func, (b + 1) as nat, n as nat);
        }
        write_block(state, BlockId(b));
        proof {
            lemma_extends_trans(
                start,
                before,
                state@,
                blocks_sids(start.func, b as nat),
                block_sids(start.func.blocks@[b as int]),
            );
        }
        b += 1;
    }
}

} // verus!
