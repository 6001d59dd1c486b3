//! Constants whose value is emitted before it is used.
//!
//! An array literal that is an operand somewhere is evaluated once, in front of the
//! first block. Wherever it is an operand, the value that was emitted for it stands
//! there. A copy of it evaluates it again.

use vstd::prelude::*;

use crate::ir::{mentioned_operands, Constant, ConstantId, Func, ValueId};
use crate::state::{FuncState, Scope, StateView};
use crate::textual::{starts_with, Expr, ExprView};

verus! {

/// Whether what the instruction at position `i` of block `b` becomes mentions the
/// constant `c`.
pub open spec fn mentioned_at(func: Func, b: int, i: int, c: usize) -> bool {
    &&& 0 <= b < func.blocks@.len()
    &&& 0 <= i < func.blocks@[b].iids@.len()
    &&& func.blocks@[b].iids@[i].0 < func.instrs@.len()
    &&& mentioned_operands(func.instrs@[func.blocks@[b].iids@[i].0 as int]).contains(
        ValueId::Constant(ConstantId(c)),
    )
}

/// Whether the constant `c` is an array literal that is an operand in some block.
pub open spec fn is_array_operand(func: Func, c: usize) -> bool {
    &&& c < func.constants@.len()
    &&& func.constants@[c as int] is Array
    &&& exists|b: int, i: int| mentioned_at(func, b, i, c)
}

/// How many of the first `k` constants are array literals that are operands.
pub open spec fn array_count(func: Func, k: nat) -> nat
    decreases k,
{
    if k == 0 {
        0
    } else {
        array_count(func, (k - 1) as nat) + if is_array_operand(func, (k - 1) as usize) {
            1nat
        } else {
            0nat
        }
    }
}

/// What operands in the blocks of a function may refer to beside instructions.
pub open spec fn body_scope(func: Func, n_strings: nat) -> Scope {
    Scope { n_strings, constants: Set::new(|c: usize| is_array_operand(func, c)) }
}

/// After the array literals among the first `k` constants have been evaluated, as
/// far as they are operands.
pub open spec fn constants_written(s: StateView, k: nat) -> StateView
    decreases k,
{
    if k == 0 {
        s
    } else {
        let t = constants_written(s, (k - 1) as nat);
        match s.func.constants@[k - 1] {
            Constant::Array(id) if is_array_operand(s.func, (k - 1) as usize) => t.with_body(
                t.body.eval(ExprView::Array(id)),
            ).bind_constant((k - 1) as usize, t.body.next),
            _ => t,
        }
    }
}

/// Mark the array literals among some operands.
fn mark_arrays(func: &Func, marked: &mut Vec<bool>, operands: &Vec<ValueId>)
    requires
        old(marked)@.len() == func.constants@.len(),
    ensures
        final(marked)@.len() == func.constants@.len(),
        forall|c: usize|
            c < func.constants@.len() ==> (#[trigger] final(marked)@[c as int] <==> old(
                marked,
            )@[c as int] || (func.constants@[c as int] is Array && operands@.contains(
                ValueId::Constant(ConstantId(c)),
            ))),
{
    let mut i: usize = 0;
    while i < operands.len()
        invariant
            i <= operands@.len(),
            marked@.len() == func.constants@.len(),
            forall|c: usize|
                c < func.constants@.len() ==> (#[trigger] marked@[c as int] <==> old(
                    marked,
                )@[c as int] || (func.constants@[c as int] is Array && exists|k: int|
                    0 <= k < i && #[trigger] operands@[k] == ValueId::Constant(ConstantId(c)))),
        decreases operands.len() - i,
    {
        if let ValueId::Constant(c) = operands[i] {
            if c.0 < func.constants.len() {
                if let Constant::Array(_) = func.constants[c.0] {
                    marked.set(c.0, true);
                }
            }
        }
        i += 1;
    }
}

/// For each constant of a function, whether it is an array literal that is an
/// operand in some block.
pub fn array_operands(func: &Func) -> (r: Vec<bool>)
    ensures
        r@.len() == func.constants@.len(),
        forall|c: usize|
            c < func.constants@.len() ==> #[trigger] r@[c as int] == is_array_operand(*func, c),
{
    let mut marked: Vec<bool> = Vec::new();
    while marked.len() < func.constants.len()
        invariant
            marked@.len() <= func.constants@.len(),
            forall|c: int| 0 <= c < marked@.len() ==> !(#[trigger] marked@[c]),
        decreases func.constants.len() - marked.len(),
    {
        marked.push(false);
    }
    let mut b: usize = 0;
    while b < func.blocks.len()
        invariant
            b <= func.blocks@.len(),
            marked@.len() == func.constants@.len(),
            forall|c: usize|
                c < func.constants@.len() ==> (#[trigger] marked@[c as int]
                    <==> func.constants@[c as int] is Array && exists|d: int, j: int|
                    d < b && #[trigger] mentioned_at(*func, d, j, c)),
        decreases func.blocks.len() - b,
    {
        let iids = &func.blocks[b].iids;
        let mut i: usize = 0;
        while i < iids.len()
            invariant
                b < func.blocks@.len(),
                *iids == func.blocks@[b as int].iids,
                i <= iids@.len(),
                marked@.len() == func.constants@.len(),
                forall|c: usize|
                    c < func.constants@.len() ==> (#[trigger] marked@[c as int]
                        <==> func.constants@[c as int] is Array && exists|d: int, j: int|
                        (d < b || d == b && j < i) && #[trigger] mentioned_at(*func, d, j, c)),
            decreases iids.len() - i,
        {
            let ghost before = marked@;
            let ghost mut operands: Seq<ValueId> = Seq::empty();
            if iids[i].0 < func.instrs.len() {
                let found = func.instrs[iids[i].0].mentioned_operands();
                mark_arrays(func, &mut marked, &found);
                proof {
                    operands = found@;
                }
            }
            proof {
                assert forall|c: usize| c < func.constants@.len() implies (
                #[trigger] marked@[c as int] <==> func.constants@[c as int] is Array && exists|
                    d: int,
                    j: int,
                |
                    (d < b || d == b && j < i + 1) && #[trigger] mentioned_at(*func, d, j, c)) by {
                    assert(mentioned_at(*func, b as int, i as int, c) <==> operands.contains(
                        ValueId::Constant(ConstantId(c)),
                    ));
                    assert(before[c as int] <==> func.constants@[c as int] is Array && exists|
                        d: int,
                        j: int,
                    |
                        (d < b || d == b && j < i) && #[trigger] mentioned_at(*func, d, j, c));
                }
            }
            i += 1;
        }
        b += 1;
    }
    marked
}

/// Evaluate the array literals of a function that are operands, in order, each once.
pub fn write_constants(state: &mut FuncState<'_>)
    requires
        old(state)@.constants == Map::<usize, nat>::empty(),
        old(state)@.room(old(state)@.func.constants@.len()),
    ensures
        final(state)@ == constants_written(old(state)@, old(state)@.func.constants@.len()),
        final(state)@.scope() == body_scope(old(state)@.func, old(state)@.strings.len()),
        final(state)@.func == old(state)@.func,
        final(state)@.method == old(state)@.method,
        final(state)@.values == old(state)@.values,
        final(state)@.strings == old(state)@.strings,
        starts_with(final(state)@.body.stmts, old(state)@.body.stmts),
        final(state)@.body.next == old(state)@.body.next + array_count(
            old(state)@.func,
            old(state)@.func.constants@.len(),
        ),
        final(state)@.body.next <= old(state)@.body.next + old(state)@.func.constants@.len(),
        old(state)@.sound() ==> final(state)@.sound(),
{
    let func = state.func;
    let n: usize = func.constants.len();
    let wanted = array_operands(func);
    let ghost start = state@;
    let mut k: usize = 0;
    assert(start.constants.dom() =~= Set::<usize>::empty());
    while k < n
        invariant
            k <= n,
            n == func.constants@.len(),
            *func == start.func,
            wanted@.len() == n,
            forall|c: usize|
                c < n ==> #[trigger] wanted@[c as int] == is_array_operand(*func, c),
            start == old(state)@,
            start.room(n as nat),
            state@ == constants_written(start, k as nat),
            state@.func == start.func,
            state@.method == start.method,
            state@.values == start.values,
            state@.strings == start.strings,
            starts_with(state@.body.stmts, start.body.stmts),
            state@.body.next == start.body.next + array_count(start.func, k as nat),
            state@.body.next <= start.body.next + k,
            forall|c: usize| #[trigger]
                state@.constants.dom().contains(c) <==> c < k && is_array_operand(*func, c),
            start.sound() ==> state@.sound(),
        decreases n - k,
    {
        assert(!state@.constants.dom().contains(k));
        if wanted[k] {
            if let Constant::Array(id) = func.constants[k] {
                let sid = state.fb.write_expr_stmt(Expr::Array(id));
                state.set_constant(ConstantId(k), sid);
            }
        }
        k += 1;
    }
    assert(state@.constants.dom() =~= body_scope(start.func, start.strings.len()).constants);
}

} // verus!
