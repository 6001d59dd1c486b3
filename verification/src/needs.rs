//! What can be emitted, written out.

use vstd::prelude::*;

use crate::block::{
    block_ready, block_values, blocks_sids, blocks_values, body_ready, instrs_values, params_values,
};
use crate::constants::{body_scope, is_array_operand, mentioned_at};
use crate::func::{can_begin, can_write, PreparedFunc};
use crate::instr::{has_value, instr_ready, terminator_ready};
use crate::ir::{
    instr_loc, instr_locals, mentioned_operands, terminator_loc, Block, CallDetail, Constant,
    ConstantId, Func, Hhbc, Instr, InstrId, LocalId, ObjMethodOp, Special, Terminator, Textual,
    ValueId,
};
use crate::locals::{body_names, named_at};
use crate::state::{value_ready, values_ready, MethodInfo, Scope};

verus! {

/// An operand can be looked up where it is an instruction that has a value or is a
/// local, an array literal for which a value has been emitted, or any other constant,
/// whose string is interned if it has one.
pub proof fn what_an_operand_needs(func: Func, scope: Scope, values: Set<usize>, vid: ValueId)
    ensures
        value_ready(func, scope, values, vid) <==> match vid {
            ValueId::Instr(iid) => values.contains(iid.0) || (iid.0 < func.instrs@.len()
                && func.instrs@[iid.0 as int] matches Instr::Special(
                Special::Textual(Textual::Deref(_)),
            )),
            ValueId::Constant(c) => c.0 < func.constants@.len()
                && match func.constants@[c.0 as int] {
                Constant::Array(_) => scope.constants.contains(c.0),
                Constant::String(id) => id.0 < scope.n_strings,
                _ => true,
            },
            ValueId::Absent => false,
        },
{
}

/// A list of operands can be looked up where each of them can.
pub proof fn what_operands_need(func: Func, scope: Scope, values: Set<usize>, vids: Seq<ValueId>)
    ensures
        values_ready(func, scope, values, vids) <==> forall|j: int|
            0 <= j < vids.len() ==> value_ready(func, scope, values, #[trigger] vids[j]),
{
}

/// An instruction has a value of its own, unless it unsets a local, asserts, is a local
/// for use as an operand, belongs to another pass, or is a terminator.
pub proof fn which_instructions_have_a_value(instr: Instr)
    ensures
        has_value(instr) <==> !(match instr {
            Instr::Hhbc(Hhbc::UnsetL(_, _)) => true,
            Instr::Special(Special::Textual(Textual::AssertFalse(_, _))) => true,
            Instr::Special(Special::Textual(Textual::AssertTrue(_, _))) => true,
            Instr::Special(Special::Textual(Textual::Deref(_))) => true,
            Instr::Special(Special::IrToBc) => true,
            Instr::Special(Special::Param) => true,
            Instr::Special(Special::Tmp) => true,
            Instr::Special(Special::Tombstone) => true,
            Instr::Terminator(_) => true,
            _ => false,
        }),
{
}

/// What an instruction needs beside a source location, operands and no value yet.
pub open spec fn kind_can_be_emitted(
    func: Func,
    method: Option<MethodInfo>,
    scope: Scope,
    values: Set<usize>,
    instr: Instr,
) -> bool {
    match instr {
        Instr::Call(call) => {
            &&& call.readonly matches Some(list) ==> list@.len() == 0
            &&& call.context matches Some(id) ==> id.0 < scope.n_strings
            &&& match call.detail {
                CallDetail::FCallCtor => false,
                CallDetail::FCallClsMethodSD { .. } => method is Some,
                CallDetail::FCallObjMethodD { flavor, .. } => flavor != ObjMethodOp::NullSafe,
                _ => true,
            }
        },
        Instr::Hhbc(Hhbc::SelfCls(_)) => method is Some,
        Instr::Hhbc(Hhbc::This(_)) => method is Some,
        Instr::Hhbc(_) => true,
        Instr::MemberOp(_) => true,
        Instr::Special(Special::Copy(ValueId::Constant(c))) => c.0 < func.constants@.len()
            && match func.constants@[c.0 as int] {
            Constant::Dir
            | Constant::File
            | Constant::FuncCred
            | Constant::Method
            | Constant::Named(_)
            | Constant::NewCol(_) => false,
            Constant::String(id) => id.0 < scope.n_strings,
            _ => true,
        },
        Instr::Special(Special::Copy(vid)) => value_ready(func, scope, values, vid),
        Instr::Special(Special::Select(_, _)) => true,
        Instr::Special(Special::Textual(Textual::String(id))) => id.0 < scope.n_strings,
        Instr::Special(Special::Textual(_)) => true,
        Instr::Special(_) => false,
        Instr::Terminator(_) => false,
    }
}

/// An instruction can be emitted where it exists, its source location exists, all
/// operands that it mentions can be looked up, it has no value yet if it is to get
/// one, and it is of a kind that is left after lowering. Nothing else is asked.
pub proof fn what_an_instruction_needs(
    func: Func,
    method: Option<MethodInfo>,
    scope: Scope,
    values: Set<usize>,
    iid: InstrId,
)
    ensures
        instr_ready(func, method, scope, values, iid) <==> {
            let instr = func.instrs@[iid.0 as int];
            &&& iid.0 < func.instrs@.len()
            &&& instr_loc(instr) matches Some(l) ==> l.0 < func.locs@.len()
            &&& has_value(instr) ==> !values.contains(iid.0)
            &&& forall|j: int|
                0 <= j < mentioned_operands(instr).len() ==> value_ready(
                    func,
                    scope,
                    values,
                    #[trigger] mentioned_operands(instr)[j],
                )
            &&& kind_can_be_emitted(func, method, scope, values, instr)
        },
{
    let instr = func.instrs@[iid.0 as int];
    let operands = mentioned_operands(instr);
    if operands.len() > 0 {
        let first = operands[0];
        assert(value_ready(func, scope, values, first) || !value_ready(func, scope, values, first));
    }
    if let Instr::Call(call) = instr {
        assert(forall|j: int|
            0 <= j < call.args@.len() ==> #[trigger] call.args@[j] == operands[j]);
        assert(forall|j: int|
            0 <= j < call.args@.len() ==> call.args@[j] == #[trigger] operands[j]);
        if let CallDetail::FCallObjMethodD { obj, .. } = call.detail {
            assert(operands[call.args@.len() as int] == obj);
        }
    }
}

/// A terminator can be emitted where its source location exists and all operands that
/// it mentions can be looked up.
pub proof fn what_a_terminator_needs(func: Func, scope: Scope, values: Set<usize>, t: Terminator)
    ensures
        terminator_ready(func, scope, values, t) <==> {
            &&& terminator_loc(t) matches Some(l) ==> l.0 < func.locs@.len()
            &&& forall|j: int|
                0 <= j < mentioned_operands(Instr::Terminator(t)).len() ==> value_ready(
                    func,
                    scope,
                    values,
                    #[trigger] mentioned_operands(Instr::Terminator(t))[j],
                )
        },
{
    let operands = mentioned_operands(Instr::Terminator(t));
    if operands.len() > 0 {
        let first = operands[0];
        assert(value_ready(func, scope, values, first) || !value_ready(func, scope, values, first));
    }
}

/// Which instructions have a value once some have been emitted: those that had one,
/// and those among the new ones that get one.
pub proof fn emitted_instructions_have_values(
    func: Func,
    values: Set<usize>,
    iids: Seq<InstrId>,
    k: usize,
)
    ensures
        instrs_values(func, values, iids).contains(k) <==> values.contains(k) || exists|i: int|
            0 <= i < iids.len() && (#[trigger] iids[i]).0 == k && has_value(
                func.instrs@[k as int],
            ),
    decreases iids.len(),
{
    if iids.len() > 0 {
        let rest = iids.drop_last();
        emitted_instructions_have_values(func, values, rest, k);
        assert(forall|i: int| 0 <= i < rest.len() ==> #[trigger] rest[i] == iids[i]);
        if exists|i: int|
            0 <= i < rest.len() && (#[trigger] rest[i]).0 == k && has_value(
                func.instrs@[k as int],
            ) {
            let i = choose|i: int|
                0 <= i < rest.len() && (#[trigger] rest[i]).0 == k && has_value(
                    func.instrs@[k as int],
                );
            assert(iids[i].0 == k);
        }
        if iids.last().0 == k {
            assert(iids[iids.len() - 1].0 == k);
        }
        if exists|i: int|
            0 <= i < iids.len() && (#[trigger] iids[i]).0 == k && has_value(
                func.instrs@[k as int],
            ) {
            let i = choose|i: int|
                0 <= i < iids.len() && (#[trigger] iids[i]).0 == k && has_value(
                    func.instrs@[k as int],
                );
            if i < rest.len() {
                assert(rest[i].0 == k);
            }
        }
    }
}

/// Which instructions have a value once a block has been emitted: also its parameters.
pub proof fn blocks_give_values(func: Func, values: Set<usize>, block: Block, n: nat, k: usize)
    ensures
        params_values(values, block.params@).contains(k) <==> values.contains(k) || exists|i: int|
            0 <= i < block.params@.len() && (#[trigger] block.params@[i]).0 == k,
        block_values(func, values, block) == instrs_values(
            func,
            params_values(values, block.params@),
            block.iids@.drop_last(),
        ),
        !blocks_values(func, 0).contains(k),
        blocks_values(func, n + 1) == block_values(
            func,
            blocks_values(func, n),
            func.blocks@[n as int],
        ),
{
}

/// A block can be emitted where its parameters are new and distinct, each instruction
/// can be emitted after those before it, and the last one is a terminator that can.
pub proof fn what_a_block_needs(
    func: Func,
    method: Option<MethodInfo>,
    scope: Scope,
    values: Set<usize>,
    block: Block,
)
    ensures
        block_ready(func, method, scope, values, block) <==> {
            let n = block.iids@.len() as int;
            let bound = params_values(values, block.params@);
            &&& n > 0
            &&& forall|i: int|
                0 <= i < block.params@.len() ==> !values.contains((#[trigger] block.params@[i]).0)
            &&& forall|i: int, j: int|
                0 <= i < j < block.params@.len() ==> #[trigger] block.params@[i]
                    != #[trigger] block.params@[j]
            &&& forall|i: int|
                0 <= i < n - 1 ==> instr_ready(
                    func,
                    method,
                    scope,
                    instrs_values(func, bound, block.iids@.take(i)),
                    #[trigger] block.iids@[i],
                )
            &&& block.iids@[n - 1].0 < func.instrs@.len()
            &&& func.instrs@[block.iids@[n - 1].0 as int] matches Instr::Terminator(t)
                && terminator_ready(
                func,
                scope,
                instrs_values(func, bound, block.iids@.take(n - 1)),
                t,
            )
        },
{
    reveal(block_ready);
    let n = block.iids@.len() as int;
    if n > 0 {
        let body = block.iids@.drop_last();
        assert(body =~= block.iids@.take(n - 1));
        assert forall|i: int| 0 <= i < n - 1 implies #[trigger] body.take(i) == block.iids@.take(
            i,
        ) by {
            assert(body.take(i) =~= block.iids@.take(i));
        }
        let bound = params_values(values, block.params@);
        if block_ready(func, method, scope, values, block) {
            assert forall|i: int| 0 <= i < n - 1 implies instr_ready(
                func,
                method,
                scope,
                instrs_values(func, bound, block.iids@.take(i)),
                #[trigger] block.iids@[i],
            ) by {
                assert(body[i] == block.iids@[i]);
                assert(body.take(i) == block.iids@.take(i));
            }
        }
        if forall|i: int|
            0 <= i < n - 1 ==> instr_ready(
                func,
                method,
                scope,
                instrs_values(func, bound, block.iids@.take(i)),
                #[trigger] block.iids@[i],
            ) {
            assert forall|i: int| 0 <= i < body.len() implies instr_ready(
                func,
                method,
                scope,
                instrs_values(func, bound, body.take(i)),
                #[trigger] body[i],
            ) by {
                assert(body[i] == block.iids@[i]);
                assert(body.take(i) == block.iids@.take(i));
            }
        }
    }
}

/// A body can be emitted where each block can after those before it. The operands may
/// be interned strings, and the array literals that some block has as operands.
pub proof fn what_a_body_needs(func: Func, method: Option<MethodInfo>, n_strings: nat, c: usize)
    ensures
        body_ready(func, method, body_scope(func, n_strings)) <==> forall|b: int|
            0 <= b < func.blocks@.len() ==> block_ready(
                func,
                method,
                body_scope(func, n_strings),
                blocks_values(func, b as nat),
                #[trigger] func.blocks@[b],
            ),
        body_scope(func, n_strings).n_strings == n_strings,
        body_scope(func, n_strings).constants.contains(c) <==> c < func.constants@.len()
            && func.constants@[c as int] is Array && exists|b: int, i: int|
            {
                &&& 0 <= b < func.blocks@.len()
                &&& 0 <= i < func.blocks@[b].iids@.len()
                &&& (#[trigger] func.blocks@[b].iids@[i]).0 < func.instrs@.len()
                &&& mentioned_operands(func.instrs@[func.blocks@[b].iids@[i].0 as int]).contains(
                    ValueId::Constant(ConstantId(c)),
                )
            },
{
    if is_array_operand(func, c) {
        let (b, i) = choose|b: int, i: int| mentioned_at(func, b, i, c);
        assert(func.blocks@[b].iids@[i].0 < func.instrs@.len());
    }
    if exists|b: int, i: int|
        {
            &&& 0 <= b < func.blocks@.len()
            &&& 0 <= i < func.blocks@[b].iids@.len()
            &&& (#[trigger] func.blocks@[b].iids@[i]).0 < func.instrs@.len()
            &&& mentioned_operands(func.instrs@[func.blocks@[b].iids@[i].0 as int]).contains(
                ValueId::Constant(ConstantId(c)),
            )
        } {
        let (b, i) = choose|b: int, i: int|
            {
                &&& 0 <= b < func.blocks@.len()
                &&& 0 <= i < func.blocks@[b].iids@.len()
                &&& (#[trigger] func.blocks@[b].iids@[i]).0 < func.instrs@.len()
                &&& mentioned_operands(func.instrs@[func.blocks@[b].iids@[i].0 as int]).contains(
                    ValueId::Constant(ConstantId(c)),
                )
            };
        assert(mentioned_at(func, b, i, c));
    }
}

/// A function can be prepared where its own location exists, every block ends with a
/// terminator and lists instructions that exist, conditional jumps go to blocks of the
/// function, and the names of locals are interned.
pub proof fn what_preparing_needs(strings: Seq<Seq<u8>>, func: Func)
    ensures
        can_begin(strings, func) <==> {
            &&& func.loc_id.0 < func.locs@.len()
            &&& forall|b: int|
                0 <= b < func.blocks@.len() ==> {
                    let iids = (#[trigger] func.blocks@[b]).iids@;
                    &&& iids.len() > 0
                    &&& iids.last().0 < func.instrs@.len()
                    &&& func.instrs@[iids.last().0 as int] matches Instr::Terminator(t)
                    &&& t matches Terminator::JmpOp { true_bid, false_bid, .. } ==> true_bid.0
                        < func.blocks@.len() && false_bid.0 < func.blocks@.len()
                }
            &&& forall|b: int, i: int|
                0 <= b < func.blocks@.len() && 0 <= i < func.blocks@[b].iids@.len() ==> (
                #[trigger] func.blocks@[b].iids@[i]).0 < func.instrs@.len()
            &&& forall|b: int, i: int, lid: LocalId| #[trigger]
                named_at(func, b, i, lid) ==> (lid matches LocalId::Named(id) ==> id.0
                    < strings.len())
        },
{
    assert(forall|b: int, i: int, lid: LocalId| #[trigger]
        named_at(func, b, i, lid) ==> body_names(func, lid));
}

/// Where a local is named: by an instruction that the block lists.
pub proof fn where_a_local_is_named(func: Func, b: int, i: int, lid: LocalId)
    ensures
        named_at(func, b, i, lid) <==> 0 <= b < func.blocks@.len() && 0 <= i
            < func.blocks@[b].iids@.len() && instr_locals(
            func.instrs@[func.blocks@[b].iids@[i].0 as int],
        ).contains(lid),
{
}

/// A prepared function can be written where its body can be emitted, it has a first
/// parameter, and there are numbers for its values.
pub proof fn what_writing_needs(p: PreparedFunc, strings: Seq<Seq<u8>>)
    ensures
        can_write(p, strings) <==> {
            &&& body_ready(p.body, p.method_info, body_scope(p.body, strings.len()))
            &&& p.body.constants@.len() + blocks_sids(p.body, p.body.blocks@.len())
                <= usize::MAX
            &&& 0 < p.params@.len()
            &&& p.params@.len() + 2 <= usize::MAX
        },
{
}

/// The bound on the values of a block grows by one for a parameter and by three for
/// an instruction, and that of a body is the sum over its blocks.
pub proof fn how_values_are_counted(func: Func, k: nat)
    ensures
        blocks_sids(func, 0) == 0,
        blocks_sids(func, k + 1) == blocks_sids(func, k)
            + func.blocks@[k as int].params@.len() + 3 * func.blocks@[k as int].iids@.len(),
{
}

} // verus!
