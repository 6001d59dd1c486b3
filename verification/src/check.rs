//! Tests whether a function can be emitted, for callers that cannot know.

use std::collections::HashSet;
use vstd::prelude::*;

use crate::block::{
    block_ready, block_values, blocks_sids, blocks_values, body_ready, instrs_values,
    lemma_blocks_sids, lemma_params_step, lemma_take_next, params_ready, params_values,
};
use crate::call::{call_ready, is_listed};
use crate::constants::{array_operands, body_scope};
use crate::func::{body_sids, can_begin, can_write, PreparedFunc, UnitState};
use crate::instr::{
    copy_ready, has_value, hhbc_ready, instr_ready, loc_ready, special_ready, terminator_ready,
};
use crate::ir::{
    Block, Call, CallDetail, Constant, Func, Hhbc, Instr, InstrId, LocId, LocalId, ObjMethodOp,
    Special, Terminator, Textual, ValueId,
};
use crate::jmp::{blocks_end, ends_block, last_instr};
use crate::locals::{body_locals, body_names, iids_exist, lid_known};
use crate::state::{value_ready, values_ready, MethodInfo, Scope};
use crate::strings::{same_bytes, StringInterner};

verus! {

/// The instructions that have a value.
struct Values {
    set: HashSet<usize>,
}

impl View for Values {
    type V = Set<usize>;

    closed spec fn view(&self) -> Set<usize> {
        self.set@
    }
}

impl Values {
    fn new() -> (r: Values)
        ensures
            r@ == Set::<usize>::empty(),
    {
        broadcast use vstd::std_specs::hash::group_hash_axioms;

        Values { set: HashSet::new() }
    }

    fn contains(&self, k: usize) -> (r: bool)
        ensures
            r == self@.contains(k),
    {
        broadcast use vstd::std_specs::hash::group_hash_axioms;

        self.set.contains(&k)
    }

    fn insert(&mut self, k: usize)
        ensures
            final(self)@ == old(self)@.insert(k),
    {
        broadcast use vstd::std_specs::hash::group_hash_axioms;

        let _new = self.set.insert(k);
    }
}

/// What operands may refer to beside instructions.
struct Known {
    n_strings: usize,
    constants: Vec<bool>,
}

impl View for Known {
    type V = Scope;

    closed spec fn view(&self) -> Scope {
        Scope {
            n_strings: self.n_strings as nat,
            constants: Set::new(|c: usize| c < self.constants@.len() && self.constants@[c as int]),
        }
    }
}

/// Whether an operand has a value.
fn is_value_ready(
    func: &Func,
    known: &Known,
    values: &Values,
    vid: ValueId,
) -> (r: bool)
    ensures
        r == value_ready(*func, known@, values@, vid),
{
    match vid {
        ValueId::Instr(iid) => {
            if values.contains(iid.0) {
                true
            } else if iid.0 < func.instrs.len() {
                match &func.instrs[iid.0] {
                    Instr::Special(Special::Textual(Textual::Deref(_))) => true,
                    _ => false,
                }
            } else {
                false
            }
        },
        ValueId::Constant(c) => {
            if c.0 < func.constants.len() {
                match func.constants[c.0] {
                    Constant::Array(_) => c.0 < known.constants.len() && known.constants[c.0],
                    Constant::String(s) => s.0 < known.n_strings,
                    _ => true,
                }
            } else {
                false
            }
        },
        ValueId::Absent => false,
    }
}

/// Whether all operands have a value.
fn are_values_ready(
    func: &Func,
    known: &Known,
    values: &Values,
    vids: &Vec<ValueId>,
) -> (r: bool)
    ensures
        r == values_ready(*func, known@, values@, vids@),
{
    let mut i: usize = 0;
    while i < vids.len()
        invariant
            i <= vids@.len(),
            forall|k: int|
                0 <= k < i ==> value_ready(
                    *func,
                    known@,
                    values@,
                    #[trigger] vids@[k],
                ),
        decreases vids.len() - i,
    {
        if !is_value_ready(func, known, values, vids[i]) {
            assert(!value_ready(
                *func,
                known@,
                values@,
                vids@[i as int],
            ));
            return false;
        }
        i += 1;
    }
    true
}

/// Whether a source location exists.
fn is_loc_ready(func: &Func, loc: Option<LocId>) -> (r: bool)
    ensures
        r == loc_ready(*func, loc),
{
    match loc {
        Some(l) => l.0 < func.locs.len(),
        None => true,
    }
}

/// Whether a call can be emitted.
fn is_call_ready(
    func: &Func,
    method: Option<MethodInfo>,
    known: &Known,
    values: &Values,
    call: &Call,
) -> (r: bool)
    ensures
        r == call_ready(*func, method, known@, values@, *call),
{
    let context_ready = match call.context {
        Some(id) => id.0 < known.n_strings,
        None => true,
    };
    let detail_ready = match call.detail {
        CallDetail::FCallClsMethodSD { .. } => method.is_some(),
        CallDetail::FCallCtor => false,
        CallDetail::FCallObjMethodD { flavor, method: _, obj } => flavor != ObjMethodOp::NullSafe
            && is_value_ready(func, known, values, obj),
        _ => true,
    };
    !is_listed(&call.readonly) && context_ready && are_values_ready(
        func,
        known,
        values,
        &call.args,
    ) && detail_ready
}

/// Whether an instruction of the virtual machine can be emitted.
fn is_hhbc_ready(
    func: &Func,
    method: Option<MethodInfo>,
    known: &Known,
    values: &Values,
    h: &Hhbc,
) -> (r: bool)
    ensures
        r == hhbc_ready(*func, method, known@, values@, *h),
{
    match h {
        Hhbc::CreateCl { operands, .. } => are_values_ready(func, known, values, operands),
        Hhbc::SelfCls(_) => method.is_some(),
        Hhbc::SetL(vid, _, _) => is_value_ready(func, known, values, *vid),
        Hhbc::This(_) => method.is_some(),
        Hhbc::Other { operands, .. } => are_values_ready(func, known, values, operands),
        _ => true,
    }
}

/// Whether an operand can be copied.
fn is_copy_ready(
    func: &Func,
    known: &Known,
    values: &Values,
    vid: ValueId,
) -> (r: bool)
    ensures
        r == copy_ready(*func, known@, values@, vid),
{
    match vid {
        ValueId::Constant(c) => {
            if c.0 < func.constants.len() {
                match func.constants[c.0] {
                    Constant::Array(_)
                    | Constant::Bool(_)
                    | Constant::Float(_)
                    | Constant::Int(_)
                    | Constant::Null
                    | Constant::Uninit => true,
                    Constant::String(s) => s.0 < known.n_strings,
                    _ => false,
                }
            } else {
                false
            }
        },
        _ => is_value_ready(func, known, values, vid),
    }
}

/// Whether a special instruction can be emitted.
fn is_special_ready(
    func: &Func,
    known: &Known,
    values: &Values,
    sp: &Special,
) -> (r: bool)
    ensures
        r == special_ready(*func, known@, values@, *sp),
{
    match sp {
        Special::Copy(vid) => is_copy_ready(func, known, values, *vid),
        Special::Select(vid, _) => is_value_ready(func, known, values, *vid),
        Special::Textual(Textual::AssertFalse(vid, _)) => is_value_ready(
            func,
            known,
            values,
            *vid,
        ),
        Special::Textual(Textual::AssertTrue(vid, _)) => is_value_ready(
            func,
            known,
            values,
            *vid,
        ),
        Special::Textual(Textual::Deref(_)) => true,
        Special::Textual(Textual::HackBuiltin { values: args, .. }) => are_values_ready(
            func,
            known,
            values,
            args,
        ),
        Special::Textual(Textual::String(id)) => id.0 < known.n_strings,
        _ => false,
    }
}

/// Whether an instruction has a value of its own.
fn is_value(instr: &Instr) -> (r: bool)
    ensures
        r == has_value(*instr),
{
    match instr {
        Instr::Call(_) => true,
        Instr::Hhbc(Hhbc::UnsetL(_, _)) => false,
        Instr::Hhbc(_) => true,
        Instr::MemberOp(_) => true,
        Instr::Special(Special::Copy(_)) => true,
        Instr::Special(Special::Select(_, _)) => true,
        Instr::Special(Special::Textual(Textual::HackBuiltin { .. })) => true,
        Instr::Special(Special::Textual(Textual::String(_))) => true,
        Instr::Special(_) => false,
        Instr::Terminator(_) => false,
    }
}

/// Whether an instruction can be emitted.
fn is_instr_ready(
    func: &Func,
    method: Option<MethodInfo>,
    known: &Known,
    values: &Values,
    iid: InstrId,
) -> (r: bool)
    ensures
        r == instr_ready(*func, method, known@, values@, iid),
        r ==> iid.0 < func.instrs@.len(),
{
    if iid.0 >= func.instrs.len() {
        return false;
    }
    let instr = &func.instrs[iid.0];
    if !is_loc_ready(func, instr.loc_id()) {
        return false;
    }
    if is_value(instr) && values.contains(iid.0) {
        return false;
    }
    match instr {
        Instr::Call(call) => is_call_ready(func, method, known, values, call),
        Instr::Hhbc(h) => is_hhbc_ready(func, method, known, values, h),
        Instr::MemberOp(mop) => are_values_ready(func, known, values, &mop.operands),
        Instr::Special(sp) => is_special_ready(func, known, values, sp),
        Instr::Terminator(_) => false,
    }
}

/// Whether an instruction is a terminator that can be emitted.
fn is_terminator_ready(
    func: &Func,
    known: &Known,
    values: &Values,
    iid: InstrId,
) -> (r: bool)
    ensures
        r == (iid.0 < func.instrs@.len() && (func.instrs@[iid.0 as int] matches Instr::Terminator(t)
            && terminator_ready(*func, known@, values@, t))),
{
    if iid.0 >= func.instrs.len() {
        return false;
    }
    match &func.instrs[iid.0] {
        Instr::Terminator(t) => {
            let operands_ready = match t {
                Terminator::Exit(msg, _) => is_value_ready(func, known, values, *msg),
                Terminator::Fatal(msg, _) => is_value_ready(func, known, values, *msg),
                Terminator::JmpArgs(_, params, _) => are_values_ready(
                    func,
                    known,
                    values,
                    params,
                ),
                Terminator::Ret(vid, _) => is_value_ready(func, known, values, *vid),
                Terminator::Throw(vid, _) => is_value_ready(func, known, values, *vid),
                _ => true,
            };
            is_loc_ready(func, t.loc_id()) && operands_ready
        },
        _ => false,
    }
}

/// Bind the parameters of a block, where they are new.
fn check_params(values: &mut Values, params: &Vec<InstrId>) -> (r: bool)
    ensures
        r == params_ready(old(values)@, params@),
        r ==> final(values)@ == params_values(old(values)@, params@),
{
    let ghost start = values@;
    let mut i: usize = 0;
    assert(params_values(start, params@.take(0)) =~= start);
    while i < params.len()
        invariant
            i <= params@.len(),
            start == old(values)@,
            values@ == params_values(start, params@.take(i as int)),
            forall|k: int| 0 <= k < i ==> !start.contains((#[trigger] params@[k]).0),
            forall|j: int, k: int|
                0 <= j < k < i ==> #[trigger] params@[j] != #[trigger] params@[k],
        decreases params.len() - i,
    {
        proof {
            lemma_params_step(start, params@, i as int);
        }
        if values.contains(params[i].0) {
            return false;
        }
        values.insert(params[i].0);
        i += 1;
    }
    assert(params@.take(params@.len() as int) =~= params@);
    true
}

/// Whether a block can be emitted where the instructions in `values` have a
/// value. If so, those of the block are added.
fn check_block(
    func: &Func,
    method: Option<MethodInfo>,
    known: &Known,
    values: &mut Values,
    block: &Block,
) -> (r: bool)
    ensures
        r == block_ready(*func, method, known@, old(values)@, *block),
        r ==> final(values)@ == block_values(*func, old(values)@, *block),
{
    proof {
        reveal(block_ready);
    }
    if block.iids.len() == 0 {
        return false;
    }
    if !check_params(values, &block.params) {
        return false;
    }
    let ghost start = values@;
    let ghost body = block.iids@.drop_last();
    let n_iids: usize = block.iids.len() - 1;
    let mut i: usize = 0;
    assert(body.take(0) =~= Seq::<InstrId>::empty());
    while i < n_iids
        invariant
            i <= n_iids,
            n_iids == block.iids@.len() - 1,
            body == block.iids@.drop_last(),
            start == params_values(old(values)@, block.params@),
            values@ == instrs_values(*func, start, body.take(i as int)),
            forall|k: int|
                0 <= k < i ==> instr_ready(
                    *func,
                    method,
                    known@,
                    instrs_values(*func, start, body.take(k)),
                    #[trigger] body[k],
                ),
        decreases n_iids - i,
    {
        let iid = block.iids[i];
        proof {
            lemma_take_next(body, i as int);
            assert(body[i as int] == iid);
        }
        if !is_instr_ready(func, method, known, values, iid) {
            proof {
                reveal(block_ready);
            }
            assert(!instr_ready(
                *func,
                method,
                known@,
                instrs_values(*func, start, body.take(i as int)),
                body[i as int],
            ));
            return false;
        }
        if is_value(&func.instrs[iid.0]) {
            values.insert(iid.0);
        }
        i += 1;
    }
    assert(body.take(body.len() as int) =~= body);
    is_terminator_ready(func, known, values, block.iids[n_iids])
}

/// Whether all blocks of a function can be emitted, where `n_strings`
/// strings are interned.
pub fn check_body(func: &Func, method: Option<MethodInfo>, n_strings: usize) -> (r: bool)
    ensures
        r == body_ready(*func, method, body_scope(*func, n_strings as nat)),
{
    let known = Known { n_strings, constants: array_operands(func) };
    assert(known@.constants =~= body_scope(*func, n_strings as nat).constants);
    let mut values = Values::new();
    let mut b: usize = 0;
    while b < func.blocks.len()
        invariant
            b <= func.blocks@.len(),
            known@ == body_scope(*func, n_strings as nat),
            values@ == blocks_values(*func, b as nat),
            forall|k: int|
                0 <= k < b ==> block_ready(
                    *func,
                    method,
                    known@,
                    blocks_values(*func, k as nat),
                    #[trigger] func.blocks@[k],
                ),
        decreases func.blocks.len() - b,
    {
        if !check_block(func, method, &known, &mut values, &func.blocks[b]) {
            assert(!block_ready(
                *func,
                method,
                known@,
                blocks_values(*func, b as nat),
                func.blocks@[b as int],
            ));
            return false;
        }
        b += 1;
    }
    true
}

/// Whether there are numbers enough for the values of a function.
pub fn check_sids(func: &Func) -> (r: bool)
    ensures
        r == (body_sids(*func) <= usize::MAX),
{
    let mut total: u128 = func.constants.len() as u128;
    let mut b: usize = 0;
    while b < func.blocks.len()
        invariant
            b <= func.blocks@.len(),
            total == func.constants@.len() + blocks_sids(*func, b as nat),
            total <= usize::MAX,
        decreases func.blocks.len() - b,
    {
        let block = &func.blocks[b];
        let params: u128 = block.params.len() as u128;
        let iids: u128 = block.iids.len() as u128;
        total = total + params + 3 * iids;
        b += 1;
        if total > usize::MAX as u128 {
            proof {
                lemma_blocks_sids(*func, b as nat, func.blocks@.len());
            }
            return false;
        }
    }
    true
}

/// Whether a prepared function can be written.
pub fn check_write(prepared: &PreparedFunc, strings: &StringInterner) -> (r: bool)
    ensures
        r == can_write(*prepared, strings@),
{
    check_body(&prepared.body, prepared.method_info, strings.strings.len()) && check_sids(
        &prepared.body,
    ) && 0 < prepared.params.len() && prepared.params.len() < usize::MAX - 1
}

/// Whether an interner holds no string twice, as it does when it was filled with its
/// own methods.
pub fn check_strings(strings: &StringInterner) -> (r: bool)
    ensures
        r == strings.wf(),
{
    let list = &strings.strings;
    let n: usize = list.len();
    assert(strings@.len() == n);
    let mut j: usize = 0;
    while j < n
        invariant
            j <= n,
            *list == strings.strings,
            n == list@.len(),
            n == strings@.len(),
            forall|a: int, b: int|
                0 <= a < b < j ==> #[trigger] strings@[a] != #[trigger] strings@[b],
        decreases n - j,
    {
        let mut i: usize = 0;
        while i < j
            invariant
                i <= j,
                j < n,
                *list == strings.strings,
                n == list@.len(),
                n == strings@.len(),
                forall|a: int| 0 <= a < i ==> #[trigger] strings@[a] != strings@[j as int],
            decreases j - i,
        {
            assert(strings@[i as int] == list@[i as int]@);
            assert(strings@[j as int] == list@[j as int]@);
            if same_bytes(list[i].as_slice(), list[j].as_slice()) {
                return false;
            }
            i += 1;
        }
        j += 1;
    }
    true
}

/// Whether the blocks of a function end as they should.
pub fn check_blocks_end(func: &Func) -> (r: bool)
    ensures
        r == blocks_end(*func),
{
    let n: usize = func.blocks.len();
    let mut b: usize = 0;
    while b < n
        invariant
            b <= n,
            n == func.blocks@.len(),
            forall|k: int|
                0 <= k < b ==> {
                    &&& (#[trigger] func.blocks@[k]).iids@.len() > 0
                    &&& func.blocks@[k].iids@.last().0 < func.instrs@.len()
                    &&& ends_block(last_instr(*func, k), func.blocks@.len())
                },
        decreases n - b,
    {
        let iids = &func.blocks[b].iids;
        assert(*iids == func.blocks@[b as int].iids);
        if iids.len() == 0 {
            return false;
        }
        let last = iids[iids.len() - 1];
        if last.0 >= func.instrs.len() {
            return false;
        }
        let ends = match &func.instrs[last.0] {
            Instr::Terminator(
                Terminator::JmpOp { true_bid, false_bid, .. },
            ) => true_bid.0 < n && false_bid.0 < n,
            Instr::Terminator(_) => true,
            _ => false,
        };
        if !ends {
            assert(!ends_block(last_instr(*func, b as int), func.blocks@.len()));
            return false;
        }
        b += 1;
    }
    true
}

/// Whether the instructions exist that the blocks of a function list.
pub fn check_iids(func: &Func) -> (r: bool)
    ensures
        r == iids_exist(*func),
{
    let mut b: usize = 0;
    while b < func.blocks.len()
        invariant
            b <= func.blocks@.len(),
            forall|c: int, i: int|
                0 <= c < b && 0 <= i < func.blocks@[c].iids@.len() ==> (
                #[trigger] func.blocks@[c].iids@[i]).0 < func.instrs@.len(),
        decreases func.blocks.len() - b,
    {
        let iids = &func.blocks[b].iids;
        let mut i: usize = 0;
        while i < iids.len()
            invariant
                b < func.blocks@.len(),
                *iids == func.blocks@[b as int].iids,
                i <= iids@.len(),
                forall|k: int| 0 <= k < i ==> (#[trigger] iids@[k]).0 < func.instrs@.len(),
            decreases iids.len() - i,
        {
            if iids[i].0 >= func.instrs.len() {
                assert(func.blocks@[b as int].iids@[i as int].0 >= func.instrs@.len());
                return false;
            }
            i += 1;
        }
        b += 1;
    }
    true
}

/// Whether a function can be prepared.
pub fn check_begin(unit_state: &UnitState, func: &Func) -> (r: bool)
    ensures
        r == can_begin(unit_state.strings@, *func),
{
    if !check_blocks_end(func) || !check_iids(func) || func.loc_id.0 >= func.locs.len() {
        return false;
    }
    let n: usize = unit_state.strings.strings.len();
    let locals = body_locals(func);
    let mut i: usize = 0;
    while i < locals.len()
        invariant
            i <= locals@.len(),
            n == unit_state.strings@.len(),
            forall|l: LocalId| #[trigger] locals@.contains(l) <==> body_names(*func, l),
            forall|k: int|
                0 <= k < i ==> lid_known(unit_state.strings@, #[trigger] locals@[k]),
        decreases locals.len() - i,
    {
        let known = match locals[i] {
            LocalId::Named(id) => id.0 < n,
            LocalId::Unnamed(_) => true,
        };
        if !known {
            assert(locals@.contains(locals@[i as int]));
            assert(body_names(*func, locals@[i as int]));
            return false;
        }
        i += 1;
    }
    proof {
        assert forall|l: LocalId| #[trigger] body_names(*func, l) implies lid_known(
            unit_state.strings@,
            l,
        ) by {
            assert(locals@.contains(l));
            let k = choose|k: int| 0 <= k < locals@.len() && locals@[k] == l;
            assert(lid_known(unit_state.strings@, locals@[k]));
        }
    }
    true
}

} // verus!
