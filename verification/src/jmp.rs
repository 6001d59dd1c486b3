//! From conditional jumps to non-deterministic ones.
//!
//! Textual has no "jump if". A jump names several targets, and each target
//! starts with an assertion that stops the paths on which the jump would not
//! have come there.

use vstd::prelude::*;

use crate::ir::{BlockId, Func, Instr, InstrId, Predicate, Special, Terminator, Textual, ValueId};

verus! {

/// The last instruction of a block.
pub open spec fn last_instr(func: Func, bid: int) -> Instr {
    func.instrs@[func.blocks@[bid].iids@.last().0 as int]
}

/// Whether an instruction is a terminator, and one whose targets exist where it
/// is a conditional jump.
pub open spec fn ends_block(instr: Instr, n_blocks: nat) -> bool {
    match instr {
        Instr::Terminator(Terminator::JmpOp { true_bid, false_bid, .. }) => true_bid.0 < n_blocks
            && false_bid.0 < n_blocks,
        Instr::Terminator(_) => true,
        _ => false,
    }
}

/// Every block ends with a terminator, and conditional jumps go to blocks of the
/// function.
pub open spec fn blocks_end(func: Func) -> bool {
    forall|b: int|
        0 <= b < func.blocks@.len() ==> {
            &&& (#[trigger] func.blocks@[b]).iids@.len() > 0
            &&& func.blocks@[b].iids@.last().0 < func.instrs@.len()
            &&& ends_block(last_instr(func, b), func.blocks@.len())
        }
}

/// The assertions that a block's last instruction calls for, with the blocks
/// that they belong in: that the condition is true where a true condition leads,
/// and then that it is false where a false one does.
pub open spec fn asserts_of(instr: Instr) -> Seq<(BlockId, Instr)> {
    match instr {
        Instr::Terminator(Terminator::JmpOp { cond, pred, true_bid, false_bid, loc }) => {
            let (on_true, on_false) = match pred {
                Predicate::NonZero => (true_bid, false_bid),
                Predicate::Zero => (false_bid, true_bid),
            };
            seq![
                (on_true, Instr::Special(Special::Textual(Textual::AssertTrue(cond, loc)))),
                (on_false, Instr::Special(Special::Textual(Textual::AssertFalse(cond, loc)))),
            ]
        },
        _ => Seq::empty(),
    }
}

/// The assertions that the first `k` blocks call for, in order.
pub open spec fn asserts_upto(func: Func, k: nat) -> Seq<(BlockId, Instr)>
    decreases k,
{
    if k == 0 {
        Seq::empty()
    } else {
        asserts_upto(func, (k - 1) as nat) + asserts_of(last_instr(func, k - 1))
    }
}

/// All assertions that a function calls for.
pub open spec fn all_asserts(func: Func) -> Seq<(BlockId, Instr)> {
    asserts_upto(func, func.blocks@.len())
}

/// The instructions to put in front of block `bid`, where the assertions are
/// numbered from `base` on: those that belong in it, the last one first.
pub open spec fn front_of(asserts: Seq<(BlockId, Instr)>, base: nat, bid: int) -> Seq<InstrId>
    decreases asserts.len(),
{
    if asserts.len() == 0 {
        Seq::empty()
    } else {
        let rest = front_of(asserts.drop_last(), base, bid);
        if asserts.last().0.0 == bid {
            seq![InstrId((base + asserts.len() - 1) as usize)] + rest
        } else {
            rest
        }
    }
}

/// `after` is `before` with the assertions added: they are new instructions at
/// the end, and each stands at the start of the block that it belongs in.
/// Nothing else changes.
pub open spec fn has_asserts(
    before: Func,
    after: Func,
    asserts: Seq<(BlockId, Instr)>,
) -> bool {
    &&& after.instrs@ == before.instrs@ + asserts.map_values(|a: (BlockId, Instr)| a.1)
    &&& after.blocks@.len() == before.blocks@.len()
    &&& forall|b: int|
        0 <= b < before.blocks@.len() ==> {
            &&& (#[trigger] after.blocks@[b]).iids@ == front_of(
                asserts,
                before.instrs@.len(),
                b,
            ) + before.blocks@[b].iids@
            &&& after.blocks@[b].params == before.blocks@[b].params
            &&& after.blocks@[b].catch_target == before.blocks@[b].catch_target
        }
    &&& after.constants == before.constants
    &&& after.loc_id == before.loc_id
    &&& after.locs == before.locs
    &&& after.params == before.params
    &&& after.return_type == before.return_type
}

/// Add an assertion: a new instruction at the start of a block.
fn add_assert(func: &mut Func, bid: BlockId, instr: Instr)
    requires
        bid.0 < old(func).blocks@.len(),
    ensures
        final(func).instrs@ == old(func).instrs@.push(instr),
        final(func).blocks@.len() == old(func).blocks@.len(),
        forall|b: int|
            0 <= b < old(func).blocks@.len() ==> {
                &&& (#[trigger] final(func).blocks@[b]).iids@ == if b == bid.0 {
                    seq![InstrId(old(func).instrs@.len() as usize)] + old(func).blocks@[b].iids@
                } else {
                    old(func).blocks@[b].iids@
                }
                &&& final(func).blocks@[b].params == old(func).blocks@[b].params
                &&& final(func).blocks@[b].catch_target == old(func).blocks@[b].catch_target
            },
        final(func).constants == old(func).constants,
        final(func).loc_id == old(func).loc_id,
        final(func).locs == old(func).locs,
        final(func).params == old(func).params,
        final(func).return_type == old(func).return_type,
{
    let iid = InstrId(func.instrs.len());
    func.instrs.push(instr);
    func.blocks[bid.0].iids.insert(0, iid);
    assert(func.blocks@[bid.0 as int].iids@ =~= seq![iid] + old(func).blocks@[bid.0 as int].iids@);
}

/// One more assertion goes in front of the block that it belongs in.
proof fn lemma_front_push(
    asserts: Seq<(BlockId, Instr)>,
    a: (BlockId, Instr),
    base: nat,
    bid: int,
)
    ensures
        front_of(asserts.push(a), base, bid) == if a.0.0 == bid {
            seq![InstrId((base + asserts.len()) as usize)] + front_of(asserts, base, bid)
        } else {
            front_of(asserts, base, bid)
        },
{
    assert(asserts.push(a).drop_last() =~= asserts);
}

/// Adding one assertion more to a function that has some already.
proof fn lemma_add(
    before: Func,
    mid: Func,
    after: Func,
    asserts: Seq<(BlockId, Instr)>,
    a: (BlockId, Instr),
)
    requires
        has_asserts(before, mid, asserts),
        after.instrs@ == mid.instrs@.push(a.1),
        after.blocks@.len() == mid.blocks@.len(),
        forall|b: int|
            0 <= b < mid.blocks@.len() ==> {
                &&& (#[trigger] after.blocks@[b]).iids@ == if b == a.0.0 {
                    seq![InstrId(mid.instrs@.len() as usize)] + mid.blocks@[b].iids@
                } else {
                    mid.blocks@[b].iids@
                }
                &&& after.blocks@[b].params == mid.blocks@[b].params
                &&& after.blocks@[b].catch_target == mid.blocks@[b].catch_target
            },
        after.constants == mid.constants,
        after.loc_id == mid.loc_id,
        after.locs == mid.locs,
        after.params == mid.params,
        after.return_type == mid.return_type,
    ensures
        has_asserts(before, after, asserts.push(a)),
{
    let more = asserts.push(a);
    assert(after.instrs@ =~= before.instrs@ + more.map_values(|a: (BlockId, Instr)| a.1));
    assert forall|b: int| 0 <= b < before.blocks@.len() implies (#[trigger] after.blocks@[b]).iids@
        == front_of(more, before.instrs@.len(), b) + before.blocks@[b].iids@ by {
        lemma_front_push(asserts, a, before.instrs@.len(), b);
        assert(mid.blocks@[b].iids@ == front_of(asserts, before.instrs@.len(), b)
            + before.blocks@[b].iids@);
        assert(after.blocks@[b].iids@ =~= front_of(more, before.instrs@.len(), b)
            + before.blocks@[b].iids@);
    }
}

/// The rewritten function keeps every terminator, so that a conditional jump is
/// still there as a marker for where to jump to.
pub proof fn terminators_are_kept(
    before: Func,
    after: Func,
    asserts: Seq<(BlockId, Instr)>,
    b: int,
)
    requires
        blocks_end(before),
        has_asserts(before, after, asserts),
        0 <= b < before.blocks@.len(),
    ensures
        after.blocks@[b].iids@.len() > 0,
        after.blocks@[b].iids@.last() == before.blocks@[b].iids@.last(),
        after.blocks@[b].iids@.last().0 < after.instrs@.len(),
        last_instr(after, b) == last_instr(before, b),
{
    assert(before.blocks@[b].iids@.len() > 0);
    assert(after.blocks@[b].iids@ == front_of(asserts, before.instrs@.len(), b)
        + before.blocks@[b].iids@);
}

/// Convert from a deterministic jump model to a non-deterministic model.
///
/// In Textual instead of "jump if" you say "jump to a, b" and then in 'a' and 'b'
/// you say "stop if my condition isn't met".
///
/// This inserts the needed 'assert_true' and 'assert_false' instructions but
/// leaves the JmpOp in place as a marker for where to jump to.
pub fn rewrite_jmp_ops(func: Func) -> (r: Func)
    requires
        blocks_end(func),
    ensures
        has_asserts(func, r, all_asserts(func)),
{
    let mut out = func;
    let n: usize = out.blocks.len();
    proof {
        assert(out.instrs@ =~= func.instrs@ + asserts_upto(func, 0).map_values(
            |a: (BlockId, Instr)| a.1,
        ));
        assert forall|b: int| 0 <= b < func.blocks@.len() implies (
        #[trigger] out.blocks@[b]).iids@ == front_of(
            asserts_upto(func, 0),
            func.instrs@.len(),
            b,
        ) + func.blocks@[b].iids@ by {
            assert(out.blocks@[b].iids@ =~= front_of(
                asserts_upto(func, 0),
                func.instrs@.len(),
                b,
            ) + func.blocks@[b].iids@);
        }
    }
    let mut k: usize = 0;
    while k < n
        invariant
            k <= n,
            n == func.blocks@.len(),
            blocks_end(func),
            has_asserts(func, out, asserts_upto(func, k as nat)),
        decreases n - k,
    {
        proof {
            terminators_are_kept(func, out, asserts_upto(func, k as nat), k as int);
            assert(func.blocks@[k as int].iids@.len() > 0);
        }
        let n_iids = out.blocks[k].iids.len();
        let tid = out.blocks[k].iids[n_iids - 1];
        let ghost done = asserts_upto(func, k as nat);
        let ghost instr = last_instr(func, k as int);
        match &out.instrs[tid.0] {
            Instr::Terminator(
                Terminator::JmpOp { cond, pred, true_bid, false_bid, loc },
            ) => {
                // Because there are no critical edges the assertion can go at the
                // start of the target block: this is the only way there.
                let cond = *cond;
                let loc = *loc;
                let (on_true, on_false) = match *pred {
                    Predicate::Zero => (*false_bid, *true_bid),
                    Predicate::NonZero => (*true_bid, *false_bid),
                };
                let ghost first = (
                    on_true,
                    Instr::Special(Special::Textual(Textual::AssertTrue(cond, loc))),
                );
                let ghost second = (
                    on_false,
                    Instr::Special(Special::Textual(Textual::AssertFalse(cond, loc))),
                );
                let ghost mid0 = out;
                add_assert(
                    &mut out,
                    on_true,
                    Instr::Special(Special::Textual(Textual::AssertTrue(cond, loc))),
                );
                let ghost mid1 = out;
                proof {
                    lemma_add(func, mid0, mid1, done, first);
                }
                add_assert(
                    &mut out,
                    on_false,
                    Instr::Special(Special::Textual(Textual::AssertFalse(cond, loc))),
                );
                proof {
                    lemma_add(func, mid1, out, done.push(first), second);
                    assert(asserts_of(instr) =~= seq![first, second]);
                    assert(done.push(first).push(second) =~= done + seq![first, second]);
                }
            },
            _ => {
                proof {
                    assert(asserts_of(instr) =~= Seq::<(BlockId, Instr)>::empty());
                    assert(done + asserts_of(instr) =~= done);
                }
            },
        }
        k += 1;
    }
    out
}

// ---------------------------------------------------------------------------
// What the assertions mean
// ---------------------------------------------------------------------------

/// The targets of a conditional jump.
pub open spec fn jump_targets(instr: Instr) -> Option<(BlockId, BlockId)> {
    match instr {
        Instr::Terminator(Terminator::JmpOp { true_bid, false_bid, .. }) => Some(
            (true_bid, false_bid),
        ),
        _ => None,
    }
}

/// Whether two pairs of targets have no block in common.
pub open spec fn disjoint(a: (BlockId, BlockId), b: (BlockId, BlockId)) -> bool {
    a.0 != b.0 && a.0 != b.1 && a.1 != b.0 && a.1 != b.1
}

/// There are no critical edges: each target of a conditional jump is a target of
/// no other one, and the two targets of a jump are different.
pub open spec fn no_critical_edges(func: Func) -> bool {
    &&& forall|b: int|
        0 <= b < func.blocks@.len() ==> (jump_targets(#[trigger] last_instr(func, b)) matches Some(
            t,
        ) ==> t.0 != t.1)
    &&& forall|b: int, c: int|
        0 <= b < func.blocks@.len() && 0 <= c < func.blocks@.len() && b != c ==> (jump_targets(
            #[trigger] last_instr(func, b),
        ) matches Some(t) ==> (jump_targets(#[trigger] last_instr(func, c)) matches Some(u)
            ==> disjoint(t, u)))
}

/// The assertion at position `p` comes from block `c`, where it is the one at
/// position `off`.
pub open spec fn comes_from(func: Func, p: int, c: int, off: int) -> bool {
    &&& 0 <= c < func.blocks@.len()
    &&& 0 <= off < asserts_of(last_instr(func, c)).len()
    &&& p == asserts_upto(func, c as nat).len() + off
}

/// Each assertion comes from some block.
proof fn lemma_origin(func: Func, k: nat, p: int)
    requires
        k <= func.blocks@.len(),
        0 <= p < asserts_upto(func, k).len(),
    ensures
        exists|c: int, off: int| #[trigger]
            comes_from(func, p, c, off) && c < k && asserts_upto(func, k)[p] == asserts_of(
                last_instr(func, c),
            )[off],
    decreases k,
{
    let rest = asserts_upto(func, (k - 1) as nat);
    if p < rest.len() {
        lemma_origin(func, (k - 1) as nat, p);
        let (c, off) = choose|c: int, off: int| #[trigger]
            comes_from(func, p, c, off) && c < k - 1 && rest[p] == asserts_of(
                last_instr(func, c),
            )[off];
        assert(comes_from(func, p, c, off));
        assert(asserts_upto(func, k)[p] == rest[p]);
    } else {
        assert(comes_from(func, p, k - 1, p - rest.len()));
    }
}

/// The assertions of a block stand together, after those of the blocks before it.
proof fn lemma_position(func: Func, k: nat, b: int, off: int)
    requires
        0 <= b < k <= func.blocks@.len(),
        0 <= off < asserts_of(last_instr(func, b)).len(),
    ensures
        asserts_upto(func, b as nat).len() + off < asserts_upto(func, k).len(),
        asserts_upto(func, k)[asserts_upto(func, b as nat).len() + off] == asserts_of(
            last_instr(func, b),
        )[off],
    decreases k,
{
    if b < k - 1 {
        lemma_position(func, (k - 1) as nat, b, off);
    }
}

/// Without critical edges no two assertions belong in the same block.
proof fn lemma_distinct_blocks(func: Func, p: int, q: int)
    requires
        no_critical_edges(func),
        0 <= p < all_asserts(func).len(),
        0 <= q < all_asserts(func).len(),
        p != q,
    ensures
        all_asserts(func)[p].0 != all_asserts(func)[q].0,
{
    let n = func.blocks@.len();
    let all = all_asserts(func);
    lemma_origin(func, n, p);
    lemma_origin(func, n, q);
    let (c, off) = choose|c: int, off: int| #[trigger]
        comes_from(func, p, c, off) && c < n && all[p] == asserts_of(last_instr(func, c))[off];
    let (d, out) = choose|c: int, off: int| #[trigger]
        comes_from(func, q, c, off) && c < n && all[q] == asserts_of(last_instr(func, c))[off];
    assert(comes_from(func, p, c, off));
    assert(comes_from(func, q, d, out));
    assert(jump_targets(last_instr(func, c)) is Some);
    assert(jump_targets(last_instr(func, d)) is Some);
    if c == d {
        assert(off != out);
    }
}

/// Where only the assertion at position `m` belongs in a block, it alone goes in
/// front of it.
proof fn lemma_front_single(asserts: Seq<(BlockId, Instr)>, base: nat, bid: int, m: int)
    requires
        0 <= m < asserts.len(),
        asserts[m].0.0 == bid,
        forall|q: int| 0 <= q < asserts.len() && q != m ==> (#[trigger] asserts[q]).0.0 != bid,
    ensures
        front_of(asserts, base, bid) == seq![InstrId((base + m) as usize)],
    decreases asserts.len(),
{
    let rest = asserts.drop_last();
    assert(forall|q: int| 0 <= q < rest.len() ==> rest[q] == asserts[q]);
    if m == asserts.len() - 1 {
        assert forall|q: int| 0 <= q < rest.len() implies (#[trigger] rest[q]).0.0 != bid by {
            assert(asserts[q].0.0 != bid);
        }
        lemma_front_none(rest, base, bid);
        assert(front_of(asserts, base, bid) =~= seq![InstrId((base + m) as usize)]);
    } else {
        assert(asserts[asserts.len() - 1].0.0 != bid);
        lemma_front_single(rest, base, bid, m);
    }
}

proof fn lemma_front_none(asserts: Seq<(BlockId, Instr)>, base: nat, bid: int)
    requires
        forall|q: int| 0 <= q < asserts.len() ==> (#[trigger] asserts[q]).0.0 != bid,
    ensures
        front_of(asserts, base, bid) == Seq::<InstrId>::empty(),
    decreases asserts.len(),
{
    if asserts.len() > 0 {
        let rest = asserts.drop_last();
        assert(forall|q: int| 0 <= q < rest.len() ==> rest[q] == asserts[q]);
        lemma_front_none(rest, base, bid);
        assert(asserts[asserts.len() - 1].0.0 != bid);
    }
}

/// Block `bid` of `after` is that of `before` with `instr` in front, as a new
/// instruction.
pub open spec fn starts_with_instr(before: Func, after: Func, bid: BlockId, instr: Instr) -> bool {
    let iids = after.blocks@[bid.0 as int].iids@;
    &&& iids.len() > 0
    &&& before.instrs@.len() <= iids[0].0 < after.instrs@.len()
    &&& after.instrs@[iids[0].0 as int] == instr
    &&& iids.drop_first() == before.blocks@[bid.0 as int].iids@
}

/// Without critical edges each target of a conditional jump gets exactly one
/// assertion, in front of what it held before.
pub proof fn each_target_gets_one_assertion(func: Func, after: Func, b: int, off: int)
    requires
        blocks_end(func),
        no_critical_edges(func),
        has_asserts(func, after, all_asserts(func)),
        0 <= b < func.blocks@.len(),
        0 <= off < asserts_of(last_instr(func, b)).len(),
    ensures
        starts_with_instr(
            func,
            after,
            asserts_of(last_instr(func, b))[off].0,
            asserts_of(last_instr(func, b))[off].1,
        ),
{
    let all = all_asserts(func);
    let n = func.blocks@.len();
    let base = func.instrs@.len();
    let m = asserts_upto(func, b as nat).len() + off;
    let a = asserts_of(last_instr(func, b))[off];
    lemma_position(func, n, b, off);
    assert forall|q: int| 0 <= q < all.len() && q != m implies (#[trigger] all[q]).0.0
        != a.0.0 by {
        lemma_distinct_blocks(func, q, m);
    }
    lemma_front_single(all, base, a.0.0 as int, m);
    let t = a.0.0 as int;
    assert(func.blocks@[b].iids@.len() > 0);
    assert(ends_block(last_instr(func, b), n));
    assert(t < n);
    let iids = after.blocks@[t].iids@;
    assert(iids == front_of(all, base, t) + func.blocks@[t].iids@);
    assert(after.instrs@.len() == base + all.len());
    assert(after.instrs.len() == after.instrs@.len());
    assert(iids.drop_first() =~= func.blocks@[t].iids@);
}

/// Without critical edges, the block that a true condition leads to starts with an
/// assertion that the condition of the jump is true, and the block that a false one
/// leads to with an assertion that it is false, both at the location of the jump. The
/// rest of these blocks is as before.
pub proof fn a_conditional_jump_guards_its_targets(func: Func, after: Func, b: int)
    requires
        blocks_end(func),
        no_critical_edges(func),
        has_asserts(func, after, all_asserts(func)),
        0 <= b < func.blocks@.len(),
    ensures
        last_instr(func, b) matches Instr::Terminator(
            Terminator::JmpOp { cond, pred, true_bid, false_bid, loc },
        ) ==> {
            let (on_true, on_false) = if pred == Predicate::NonZero {
                (true_bid, false_bid)
            } else {
                (false_bid, true_bid)
            };
            let yes = after.blocks@[on_true.0 as int].iids@;
            let no = after.blocks@[on_false.0 as int].iids@;
            &&& yes.len() > 0
            &&& no.len() > 0
            &&& after.instrs@[yes[0].0 as int] == Instr::Special(
                Special::Textual(Textual::AssertTrue(cond, loc)),
            )
            &&& after.instrs@[no[0].0 as int] == Instr::Special(
                Special::Textual(Textual::AssertFalse(cond, loc)),
            )
            &&& yes.drop_first() == func.blocks@[on_true.0 as int].iids@
            &&& no.drop_first() == func.blocks@[on_false.0 as int].iids@
        },
{
    if last_instr(func, b) matches Instr::Terminator(Terminator::JmpOp { .. }) {
        each_target_gets_one_assertion(func, after, b, 0);
        each_target_gets_one_assertion(func, after, b, 1);
    }
}

/// Rewriting changes nothing but what it adds: instructions are only added at the end,
/// blocks only grow at their start, and all else is the same.
pub proof fn rewriting_only_adds(func: Func, after: Func, k: int, b: int)
    requires
        has_asserts(func, after, all_asserts(func)),
    ensures
        after.instrs@.len() >= func.instrs@.len(),
        0 <= k < func.instrs@.len() ==> after.instrs@[k] == func.instrs@[k],
        after.blocks@.len() == func.blocks@.len(),
        0 <= b < func.blocks@.len() ==> {
            let old_iids = func.blocks@[b].iids@;
            let new_iids = after.blocks@[b].iids@;
            &&& new_iids.len() >= old_iids.len()
            &&& new_iids.skip(new_iids.len() - old_iids.len()) == old_iids
            &&& after.blocks@[b].params == func.blocks@[b].params
            &&& after.blocks@[b].catch_target == func.blocks@[b].catch_target
        },
        after.constants == func.constants,
        after.loc_id == func.loc_id,
        after.locs == func.locs,
        after.params == func.params,
        after.return_type == func.return_type,
{
    if 0 <= b < func.blocks@.len() {
        let old_iids = func.blocks@[b].iids@;
        let new_iids = after.blocks@[b].iids@;
        assert(new_iids == front_of(all_asserts(func), func.instrs@.len(), b) + old_iids);
        assert(new_iids.skip(new_iids.len() - old_iids.len()) =~= old_iids);
    }
}

/// What goes in front of a block are the numbers of the assertions that belong in it,
/// the last one first.
proof fn lemma_front(asserts: Seq<(BlockId, Instr)>, base: nat, bid: int)
    requires
        base + asserts.len() <= usize::MAX,
    ensures
        forall|i: int|
            0 <= i < front_of(asserts, base, bid).len() ==> {
                let k = (#[trigger] front_of(asserts, base, bid)[i]).0 - base;
                0 <= k < asserts.len() && asserts[k].0.0 == bid
            },
        forall|k: int|
            0 <= k < asserts.len() && (#[trigger] asserts[k]).0.0 == bid ==> front_of(
                asserts,
                base,
                bid,
            ).contains(InstrId((base + k) as usize)),
        forall|i: int, j: int|
            0 <= i < j < front_of(asserts, base, bid).len() ==> (#[trigger] front_of(
                asserts,
                base,
                bid,
            )[i]).0 > (#[trigger] front_of(asserts, base, bid)[j]).0,
    decreases asserts.len(),
{
    if asserts.len() > 0 {
        let rest = asserts.drop_last();
        let front = front_of(asserts, base, bid);
        let tail = front_of(rest, base, bid);
        lemma_front(rest, base, bid);
        assert(forall|k: int| 0 <= k < rest.len() ==> #[trigger] rest[k] == asserts[k]);
        let last = asserts.len() - 1;
        if asserts[last].0.0 == bid {
            assert(front =~= seq![InstrId((base + last) as usize)] + tail);
            assert(front.len() == tail.len() + 1);
            assert(forall|i: int| 0 < i < front.len() ==> #[trigger] front[i] == tail[i - 1]);
            assert(front[0].0 == base + last);
            assert forall|i: int| 0 <= i < front.len() implies {
                let k = (#[trigger] front[i]).0 - base;
                0 <= k < asserts.len() && asserts[k].0.0 == bid
            } by {
                if i > 0 {
                    let k = tail[i - 1].0 - base;
                    assert(0 <= k < rest.len() && rest[k].0.0 == bid);
                }
            }
            assert forall|i: int, j: int| 0 <= i < j < front.len() implies (#[trigger] front[i]).0
                > (#[trigger] front[j]).0 by {
                let k = tail[j - 1].0 - base;
                assert(0 <= k < rest.len() && rest[k].0.0 == bid);
                if i > 0 {
                    assert(tail[i - 1].0 > tail[j - 1].0);
                }
            }
            assert forall|k: int|
                0 <= k < asserts.len() && (#[trigger] asserts[k]).0.0 == bid implies front.contains(
                InstrId((base + k) as usize),
            ) by {
                if k < last {
                    assert(rest[k].0.0 == bid);
                    let i = choose|i: int|
                        0 <= i < tail.len() && tail[i] == InstrId((base + k) as usize);
                    assert(front[i + 1] == InstrId((base + k) as usize));
                } else {
                    assert(front[0] == InstrId((base + k) as usize));
                }
            }
        } else {
            assert(front == tail);
            assert forall|i: int| 0 <= i < front.len() implies {
                let k = (#[trigger] front[i]).0 - base;
                0 <= k < asserts.len() && asserts[k].0.0 == bid
            } by {
                let k = tail[i].0 - base;
                assert(0 <= k < rest.len() && rest[k].0.0 == bid);
            }
            assert forall|k: int|
                0 <= k < asserts.len() && (#[trigger] asserts[k]).0.0 == bid implies front.contains(
                InstrId((base + k) as usize),
            ) by {
                assert(rest[k].0.0 == bid);
            }
        }
    }
}

/// With or without critical edges: every conditional jump puts its two assertions in
/// front of its targets.
pub proof fn every_jump_guards_its_targets(func: Func, after: Func, b: int)
    requires
        blocks_end(func),
        has_asserts(func, after, all_asserts(func)),
        0 <= b < func.blocks@.len(),
    ensures
        last_instr(func, b) matches Instr::Terminator(
            Terminator::JmpOp { cond, pred, true_bid, false_bid, loc },
        ) ==> {
            let (on_true, on_false) = if pred == Predicate::NonZero {
                (true_bid, false_bid)
            } else {
                (false_bid, true_bid)
            };
            &&& has_in_front(
                func,
                after,
                on_true,
                Instr::Special(Special::Textual(Textual::AssertTrue(cond, loc))),
            )
            &&& has_in_front(
                func,
                after,
                on_false,
                Instr::Special(Special::Textual(Textual::AssertFalse(cond, loc))),
            )
        },
{
    if last_instr(func, b) matches Instr::Terminator(Terminator::JmpOp { .. }) {
        assert(func.blocks@[b].iids@.len() > 0);
        assert(ends_block(last_instr(func, b), func.blocks@.len()));
        lemma_in_front(func, after, b, 0);
        lemma_in_front(func, after, b, 1);
    }
}

/// Whether `instr` is one of the new instructions in front of a block.
pub open spec fn has_in_front(func: Func, after: Func, bid: BlockId, instr: Instr) -> bool {
    let new_iids = after.blocks@[bid.0 as int].iids@;
    exists|i: int|
        0 <= i < new_iids.len() - func.blocks@[bid.0 as int].iids@.len()
            && func.instrs@.len() <= (#[trigger] new_iids[i]).0 < after.instrs@.len()
            && after.instrs@[new_iids[i].0 as int] == instr
}

proof fn lemma_in_front(func: Func, after: Func, b: int, off: int)
    requires
        blocks_end(func),
        has_asserts(func, after, all_asserts(func)),
        0 <= b < func.blocks@.len(),
        0 <= off < asserts_of(last_instr(func, b)).len(),
        asserts_of(last_instr(func, b))[off].0.0 < func.blocks@.len(),
    ensures
        has_in_front(
            func,
            after,
            asserts_of(last_instr(func, b))[off].0,
            asserts_of(last_instr(func, b))[off].1,
        ),
{
    let all = all_asserts(func);
    let base = func.instrs@.len();
    let a = asserts_of(last_instr(func, b))[off];
    let m = asserts_upto(func, b as nat).len() + off;
    lemma_position(func, func.blocks@.len(), b, off);
    assert(after.instrs@.len() == base + all.len());
    assert(after.instrs.len() == after.instrs@.len());
    lemma_front(all, base, a.0.0 as int);
    let front = front_of(all, base, a.0.0 as int);
    assert(all[m].0.0 == a.0.0);
    assert(front.contains(InstrId((base + m) as usize)));
    let i = choose|i: int| 0 <= i < front.len() && front[i] == InstrId((base + m) as usize);
    let new_iids = after.blocks@[a.0.0 as int].iids@;
    assert(new_iids == front + func.blocks@[a.0.0 as int].iids@);
    assert(new_iids[i].0 == base + m);
}

/// And nothing else stands in front: each new instruction there is an assertion that
/// some conditional jump puts there, and later ones stand before earlier ones.
pub proof fn only_jumps_guard_blocks(func: Func, after: Func, bid: BlockId, i: int)
    requires
        has_asserts(func, after, all_asserts(func)),
        bid.0 < func.blocks@.len(),
        0 <= i < after.blocks@[bid.0 as int].iids@.len() - func.blocks@[bid.0 as int].iids@.len(),
    ensures
        ({
            let new_iids = after.blocks@[bid.0 as int].iids@;
            let fresh = new_iids.len() - func.blocks@[bid.0 as int].iids@.len();
            &&& func.instrs@.len() <= new_iids[i].0 < after.instrs@.len()
            &&& forall|j: int| i < j < fresh ==> new_iids[i].0 > (#[trigger] new_iids[j]).0
            &&& exists|b: int|
                0 <= b < func.blocks@.len() && guards(
                    #[trigger] last_instr(func, b),
                    bid,
                    after.instrs@[new_iids[i].0 as int],
                )
        }),
{
    let all = all_asserts(func);
    let base = func.instrs@.len();
    assert(after.instrs@.len() == base + all.len());
    assert(after.instrs.len() == after.instrs@.len());
    lemma_front(all, base, bid.0 as int);
    let front = front_of(all, base, bid.0 as int);
    let new_iids = after.blocks@[bid.0 as int].iids@;
    assert(new_iids == front + func.blocks@[bid.0 as int].iids@);
    assert(new_iids[i] == front[i]);
    let k = front[i].0 - base;
    assert(0 <= k < all.len() && all[k].0.0 == bid.0);
    lemma_origin(func, func.blocks@.len(), k);
    let (c, off) = choose|c: int, off: int| #[trigger]
        comes_from(func, k, c, off) && c < func.blocks@.len() && all[k] == asserts_of(
            last_instr(func, c),
        )[off];
    assert(comes_from(func, k, c, off));
    assert(guards(last_instr(func, c), bid, after.instrs@[new_iids[i].0 as int]));
    assert forall|j: int| i < j < front.len() implies new_iids[i].0 > (
    #[trigger] new_iids[j]).0 by {
        assert(front[i].0 > front[j].0);
    }
}

/// Whether a conditional jump calls for the assertion `guard` in front of a block.
pub open spec fn guards(jump: Instr, bid: BlockId, guard: Instr) -> bool {
    jump matches Instr::Terminator(Terminator::JmpOp { cond, pred, true_bid, false_bid, loc }) && {
        ||| guard == Instr::Special(Special::Textual(Textual::AssertTrue(cond, loc))) && bid == (
        if pred == Predicate::NonZero {
            true_bid
        } else {
            false_bid
        })
        ||| guard == Instr::Special(Special::Textual(Textual::AssertFalse(cond, loc))) && bid == (
        if pred == Predicate::NonZero {
            false_bid
        } else {
            true_bid
        })
    }
}

/// Where a conditional jump goes when its condition is true, or not.
pub open spec fn goes_to(
    pred: Predicate,
    true_bid: BlockId,
    false_bid: BlockId,
    truth: bool,
) -> BlockId {
    if truth == (pred == Predicate::NonZero) {
        true_bid
    } else {
        false_bid
    }
}

/// Whether a path goes on past an assertion on `cond`, where that is true or not.
pub open spec fn passes(instr: Instr, cond: ValueId, truth: bool) -> bool {
    match instr {
        Instr::Special(Special::Textual(Textual::AssertTrue(c, _))) => c == cond && truth,
        Instr::Special(Special::Textual(Textual::AssertFalse(c, _))) => c == cond && !truth,
        _ => false,
    }
}

/// The rewritten jump is the conditional jump: of the two blocks that it may go
/// to, the one that the condition selects starts with an assertion that passes,
/// and the other with one that does not.
pub proof fn rewritten_jump_selects_the_same_target(func: Func, after: Func, b: int, truth: bool)
    requires
        blocks_end(func),
        no_critical_edges(func),
        has_asserts(func, after, all_asserts(func)),
        0 <= b < func.blocks@.len(),
        last_instr(func, b) matches Instr::Terminator(Terminator::JmpOp { .. }),
    ensures
        last_instr(after, b) == last_instr(func, b),
        last_instr(func, b) matches Instr::Terminator(
            Terminator::JmpOp { cond, pred, true_bid, false_bid, .. },
        ) ==> {
            let taken = goes_to(pred, true_bid, false_bid, truth);
            let other = goes_to(pred, true_bid, false_bid, !truth);
            &&& passes(
                after.instrs@[after.blocks@[taken.0 as int].iids@[0].0 as int],
                cond,
                truth,
            )
            &&& !passes(
                after.instrs@[after.blocks@[other.0 as int].iids@[0].0 as int],
                cond,
                truth,
            )
        },
{
    terminators_are_kept(func, after, all_asserts(func), b);
    each_target_gets_one_assertion(func, after, b, 0);
    each_target_gets_one_assertion(func, after, b, 1);
}

/// A block that no conditional jump goes to keeps its instructions.
pub proof fn other_blocks_are_kept(func: Func, after: Func, bid: int)
    requires
        has_asserts(func, after, all_asserts(func)),
        0 <= bid < func.blocks@.len(),
        forall|b: int|
            0 <= b < func.blocks@.len() ==> (jump_targets(
                #[trigger] last_instr(func, b),
            ) matches Some(t) ==> t.0.0 != bid && t.1.0 != bid),
    ensures
        after.blocks@[bid].iids@ == func.blocks@[bid].iids@,
{
    let all = all_asserts(func);
    let n = func.blocks@.len();
    assert forall|q: int| 0 <= q < all.len() implies (#[trigger] all[q]).0.0 != bid by {
        lemma_origin(func, n, q);
        let (c, off) = choose|c: int, off: int| #[trigger]
            comes_from(func, q, c, off) && c < n && all[q] == asserts_of(
                last_instr(func, c),
            )[off];
        assert(comes_from(func, q, c, off));
        assert(jump_targets(last_instr(func, c)) is Some);
    }
    lemma_front_none(all, func.instrs@.len(), bid);
    assert(after.blocks@[bid].iids@ =~= func.blocks@[bid].iids@);
}

} // verus!
