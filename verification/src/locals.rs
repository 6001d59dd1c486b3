//! The locals of a function and their order.

use itertools::Itertools;
use std::cmp::Ordering;
use vstd::prelude::*;

use crate::ir::{instr_locals, Func, LocalId, UnnamedLocalId};
use crate::strings::{StringInterner, UnitBytesId};

verus! {

/// Lexicographic order of byte strings: at the first place where they differ `a`
/// has the smaller byte, or `a` ends there.
pub open spec fn bytes_less(a: Seq<u8>, b: Seq<u8>) -> bool {
    exists|k: int| #[trigger] differ_at(a, b, k) && (k == a.len() || (k < b.len() && a[k] < b[k]))
}

/// `a` and `b` are the same up to `k`, and different there.
pub open spec fn differ_at(a: Seq<u8>, b: Seq<u8>, k: int) -> bool {
    &&& 0 <= k <= a.len()
    &&& k <= b.len()
    &&& forall|i: int| 0 <= i < k ==> a[i] == b[i]
    &&& (k < a.len() || k < b.len())
    &&& (k < a.len() && k < b.len() ==> a[k] != b[k])
}

/// Whether the name of a local is interned.
pub open spec fn lid_known(strings: Seq<Seq<u8>>, lid: LocalId) -> bool {
    lid matches LocalId::Named(id) ==> id.0 < strings.len()
}

/// Whether `x` goes before `y`: named locals go first, by their names in the
/// source, and then unnamed ones, by their numbers.
pub open spec fn lid_less(strings: Seq<Seq<u8>>, x: LocalId, y: LocalId) -> bool {
    match (x, y) {
        (LocalId::Named(a), LocalId::Named(b)) => bytes_less(
            strings[a.0 as int],
            strings[b.0 as int],
        ),
        (LocalId::Named(_), LocalId::Unnamed(_)) => true,
        (LocalId::Unnamed(_), LocalId::Named(_)) => false,
        (LocalId::Unnamed(a), LocalId::Unnamed(b)) => a.idx < b.idx,
    }
}

/// Whether two locals have the same place in the order.
pub open spec fn lid_same(strings: Seq<Seq<u8>>, x: LocalId, y: LocalId) -> bool {
    match (x, y) {
        (LocalId::Named(a), LocalId::Named(b)) => strings[a.0 as int] == strings[b.0 as int],
        (LocalId::Unnamed(a), LocalId::Unnamed(b)) => a.idx == b.idx,
        _ => false,
    }
}

/// How far two byte strings are the same.
fn common_len(a: &[u8], b: &[u8]) -> (r: usize)
    ensures
        r <= a@.len(),
        r <= b@.len(),
        forall|i: int| 0 <= i < r ==> a@[i] == b@[i],
        r < a@.len() && r < b@.len() ==> a@[r as int] != b@[r as int],
{
    let mut k: usize = 0;
    while k < a.len() && k < b.len() && a[k] == b[k]
        invariant
            k <= a@.len(),
            k <= b@.len(),
            forall|i: int| 0 <= i < k ==> a@[i] == b@[i],
        decreases a.len() - k,
    {
        k += 1;
    }
    k
}

/// Where two byte strings are the same up to `k` and no further, what stands
/// there decides.
proof fn lemma_decided_at(a: Seq<u8>, b: Seq<u8>, k: usize)
    requires
        k <= a.len(),
        k <= b.len(),
        forall|i: int| 0 <= i < k ==> a[i] == b[i],
        k < a.len() && k < b.len() ==> a[k as int] != b[k as int],
    ensures
        a == b <==> k == a.len() && k == b.len(),
        bytes_less(a, b) <==> k < b.len() && (k == a.len() || a[k as int] < b[k as int]),
        bytes_less(b, a) <==> k < a.len() && (k == b.len() || b[k as int] < a[k as int]),
{
    if k == a.len() && k == b.len() {
        assert(a =~= b);
    } else {
        assert(differ_at(a, b, k as int));
        assert(differ_at(b, a, k as int));
    }
}

/// Compare byte strings lexicographically.
fn cmp_bytes(a: &[u8], b: &[u8]) -> (r: Ordering)
    ensures
        r is Less <==> bytes_less(a@, b@),
        r is Equal <==> a@ == b@,
        r is Greater <==> bytes_less(b@, a@),
{
    let k = common_len(a, b);
    proof {
        lemma_decided_at(a@, b@, k);
    }
    if k == a.len() && k == b.len() {
        Ordering::Equal
    } else if k == a.len() {
        Ordering::Less
    } else if k == b.len() {
        Ordering::Greater
    } else if a[k] < b[k] {
        Ordering::Less
    } else {
        Ordering::Greater
    }
}

/// Compare locals such that named ones go first followed by unnamed ones.
/// Ordering for named locals is stable and is based on their source names.
/// Unnamed locals have only their number.
pub fn cmp_lid(strings: &StringInterner, x: &LocalId, y: &LocalId) -> (r: Ordering)
    requires
        lid_known(strings@, *x),
        lid_known(strings@, *y),
    ensures
        r is Less <==> lid_less(strings@, *x, *y),
        r is Equal <==> lid_same(strings@, *x, *y),
        r is Greater <==> lid_less(strings@, *y, *x),
{
    match (x, y) {
        (LocalId::Named(x_bid), LocalId::Named(y_bid)) => {
            let x_name = strings.lookup_bytes(*x_bid);
            let y_name = strings.lookup_bytes(*y_bid);
            cmp_bytes(x_name, y_name)
        },
        (LocalId::Named(_), LocalId::Unnamed(_)) => Ordering::Less,
        (LocalId::Unnamed(_), LocalId::Named(_)) => Ordering::Greater,
        (LocalId::Unnamed(x_id), LocalId::Unnamed(y_id)) => {
            if x_id.idx < y_id.idx {
                Ordering::Less
            } else if x_id.idx == y_id.idx {
                Ordering::Equal
            } else {
                Ordering::Greater
            }
        },
    }
}

/// `Itertools::sorted_by` with the order of locals: the same locals, each as often
/// as before, in ascending order. Where no string is interned twice, only equal
/// locals have the same place, so that this says which local comes where.
#[verifier::external_body]
fn sorted_by_lid(lids: Vec<LocalId>, strings: &StringInterner) -> (r: Vec<LocalId>)
    requires
        strings.wf(),
        forall|i: int| 0 <= i < lids@.len() ==> lid_known(strings@, #[trigger] lids@[i]),
    ensures
        r@.to_multiset() == lids@.to_multiset(),
        forall|i: int, j: int|
            0 <= i < j < r@.len() ==> !lid_less(strings@, #[trigger] r@[j], #[trigger] r@[i]),
{
    lids.into_iter().sorted_by(|x, y| cmp_lid(strings, x, y)).collect()
}

// ---------------------------------------------------------------------------
// Sets of locals
// ---------------------------------------------------------------------------

/// Whether a list holds a local.
pub fn holds_local(list: &Vec<LocalId>, lid: LocalId) -> (r: bool)
    ensures
        r == list@.contains(lid),
{
    let mut i: usize = 0;
    while i < list.len()
        invariant
            i <= list@.len(),
            forall|k: int| 0 <= k < i ==> list@[k] != lid,
        decreases list.len() - i,
    {
        if list[i] == lid {
            assert(list@[i as int] == lid);
            return true;
        }
        i += 1;
    }
    false
}

/// Add a local to a list that holds none twice.
pub fn add_local(list: &mut Vec<LocalId>, lid: LocalId)
    requires
        old(list)@.no_duplicates(),
    ensures
        final(list)@.no_duplicates(),
        forall|l: LocalId| #[trigger]
            final(list)@.contains(l) <==> old(list)@.contains(l) || l == lid,
{
    if !holds_local(list, lid) {
        list.push(lid);
        proof {
            assert forall|l: LocalId| #[trigger] list@.contains(l) <==> old(list)@.contains(l) || l
                == lid by {
                if old(list)@.contains(l) {
                    let k = choose|k: int| 0 <= k < old(list)@.len() && old(list)@[k] == l;
                    assert(list@[k] == l);
                }
                if l == lid {
                    assert(list@[old(list)@.len() as int] == l);
                }
            }
        }
    }
}

/// Whether the instruction at position `i` of block `b` names a local.
pub open spec fn named_at(func: Func, b: int, i: int, lid: LocalId) -> bool {
    &&& 0 <= b < func.blocks@.len()
    &&& 0 <= i < func.blocks@[b].iids@.len()
    &&& instr_locals(func.instrs@[func.blocks@[b].iids@[i].0 as int]).contains(lid)
}

/// Whether an instruction in a block of the function names a local.
pub open spec fn body_names(func: Func, lid: LocalId) -> bool {
    exists|b: int, i: int| named_at(func, b, i, lid)
}

/// The instructions that the blocks list exist.
pub open spec fn iids_exist(func: Func) -> bool {
    forall|b: int, i: int|
        0 <= b < func.blocks@.len() && 0 <= i < func.blocks@[b].iids@.len() ==> (
        #[trigger] func.blocks@[b].iids@[i]).0 < func.instrs@.len()
}

/// The locals that the body of a function names, each once.
pub fn body_locals(func: &Func) -> (r: Vec<LocalId>)
    requires
        iids_exist(*func),
    ensures
        r@.no_duplicates(),
        forall|l: LocalId| #[trigger] r@.contains(l) <==> body_names(*func, l),
{
    let mut list: Vec<LocalId> = Vec::new();
    let mut b: usize = 0;
    while b < func.blocks.len()
        invariant
            b <= func.blocks@.len(),
            iids_exist(*func),
            list@.no_duplicates(),
            forall|l: LocalId| #[trigger]
                list@.contains(l) <==> exists|c: int, i: int|
                    c < b && #[trigger] named_at(*func, c, i, l),
        decreases func.blocks.len() - b,
    {
        let iids = &func.blocks[b].iids;
        let mut i: usize = 0;
        while i < iids.len()
            invariant
                b < func.blocks@.len(),
                *iids == func.blocks@[b as int].iids,
                i <= iids@.len(),
                iids_exist(*func),
                list@.no_duplicates(),
                forall|l: LocalId| #[trigger]
                    list@.contains(l) <==> exists|c: int, j: int|
                        (c < b || c == b && j < i) && #[trigger] named_at(*func, c, j, l),
            decreases iids.len() - i,
        {
            assert(func.blocks@[b as int].iids@[i as int].0 < func.instrs@.len());
            let locals = func.instrs[iids[i].0].locals();
            let mut k: usize = 0;
            let ghost before = list@;
            while k < locals.len()
                invariant
                    k <= locals@.len(),
                    list@.no_duplicates(),
                    forall|l: LocalId| #[trigger]
                        list@.contains(l) <==> before.contains(l) || locals@.take(
                            k as int,
                        ).contains(l),
                decreases locals.len() - k,
            {
                let ghost old_list = list@;
                add_local(&mut list, locals[k]);
                proof {
                    let t = locals@.take(k as int);
                    let t1 = locals@.take(k + 1);
                    assert(t1 =~= t.push(locals@[k as int]));
                    assert forall|l: LocalId| #[trigger] t1.contains(l) <==> t.contains(l) || l
                        == locals@[k as int] by {
                        if t.contains(l) {
                            let m = choose|m: int| 0 <= m < t.len() && t[m] == l;
                            assert(t1[m] == l);
                        }
                        if l == locals@[k as int] {
                            assert(t1[k as int] == l);
                        }
                    }
                }
                k += 1;
            }
            proof {
                assert(locals@.take(locals@.len() as int) =~= locals@);
                assert forall|l: LocalId| #[trigger] list@.contains(l) <==> exists|c: int, j: int|
                    (c < b || c == b && j < i + 1) && #[trigger] named_at(*func, c, j, l) by {
                    if locals@.contains(l) {
                        assert(named_at(*func, b as int, i as int, l));
                    }
                    if exists|c: int, j: int|
                        (c < b || c == b && j < i + 1) && #[trigger] named_at(*func, c, j, l) {
                        let (c, j) = choose|c: int, j: int|
                            (c < b || c == b && j < i + 1) && #[trigger] named_at(*func, c, j, l);
                        if c == b && j == i {
                            assert(locals@.contains(l));
                        } else {
                            assert(before.contains(l));
                        }
                    }
                }
            }
            i += 1;
        }
        b += 1;
    }
    list
}

/// The locals that a function declares: those that its body names and that are
/// not parameters, each once, in ascending order.
pub open spec fn declares(
    strings: Seq<Seq<u8>>,
    func: Func,
    params: Set<LocalId>,
    list: Seq<LocalId>,
) -> bool {
    &&& ascending(strings, list)
    &&& forall|l: LocalId| #[trigger]
        list.contains(l) <==> body_names(func, l) && !params.contains(l)
}

/// The names of all locals that the body of a function names are interned.
pub open spec fn locals_known(strings: Seq<Seq<u8>>, func: Func) -> bool {
    forall|l: LocalId| #[trigger] body_names(func, l) ==> lid_known(strings, l)
}

/// Where no string is interned twice, locals with the same place are the same.
pub proof fn same_place_same_local(strings: Seq<Seq<u8>>, x: LocalId, y: LocalId)
    requires
        strings.no_duplicates(),
        lid_known(strings, x),
        lid_known(strings, y),
    ensures
        lid_same(strings, x, y) <==> x == y,
{
}

// ---------------------------------------------------------------------------
// The order of locals
// ---------------------------------------------------------------------------

/// Two byte strings that are the same up to `k` are the same or differ from
/// somewhere on.
proof fn lemma_same_or_differ(a: Seq<u8>, b: Seq<u8>, k: int)
    requires
        0 <= k <= a.len(),
        k <= b.len(),
        forall|i: int| 0 <= i < k ==> a[i] == b[i],
    ensures
        a == b || exists|j: int| #[trigger] differ_at(a, b, j) && differ_at(b, a, j),
    decreases a.len() - k,
{
    if k < a.len() && k < b.len() && a[k] == b[k] {
        lemma_same_or_differ(a, b, k + 1);
    } else if k == a.len() && k == b.len() {
        assert(a =~= b);
    } else {
        assert(differ_at(a, b, k));
        assert(differ_at(b, a, k));
    }
}

/// Of two byte strings one is smaller, or they are the same.
proof fn lemma_bytes_total(a: Seq<u8>, b: Seq<u8>)
    ensures
        bytes_less(a, b) || a == b || bytes_less(b, a),
        !(bytes_less(a, b) && a == b),
        !(bytes_less(a, b) && bytes_less(b, a)),
{
    lemma_same_or_differ(a, b, 0);
    if a != b {
        let j = choose|j: int| #[trigger] differ_at(a, b, j) && differ_at(b, a, j);
        assert(differ_at(a, b, j) && differ_at(b, a, j));
    }
}

proof fn lemma_bytes_transitive(a: Seq<u8>, b: Seq<u8>, c: Seq<u8>)
    requires
        bytes_less(a, b),
        bytes_less(b, c),
    ensures
        bytes_less(a, c),
{
    let j = choose|j: int| #[trigger]
        differ_at(a, b, j) && (j == a.len() || (j < b.len() && a[j] < b[j]));
    let k = choose|k: int| #[trigger]
        differ_at(b, c, k) && (k == b.len() || (k < c.len() && b[k] < c[k]));
    let m = if j < k { j } else { k };
    assert(differ_at(a, c, m));
}

/// The order of locals is total: of two locals exactly one of these holds, that
/// the one goes first, that the other does, or that they have the same place.
pub proof fn lid_order_is_total(strings: Seq<Seq<u8>>, x: LocalId, y: LocalId)
    ensures
        lid_less(strings, x, y) || lid_same(strings, x, y) || lid_less(strings, y, x),
        !(lid_less(strings, x, y) && lid_same(strings, x, y)),
        !(lid_less(strings, x, y) && lid_less(strings, y, x)),
        !(lid_less(strings, y, x) && lid_same(strings, x, y)),
{
    if let (LocalId::Named(a), LocalId::Named(b)) = (x, y) {
        lemma_bytes_total(strings[a.0 as int], strings[b.0 as int]);
        lemma_bytes_total(strings[b.0 as int], strings[a.0 as int]);
    }
}

/// The order of locals is transitive.
pub proof fn lid_order_is_transitive(
    strings: Seq<Seq<u8>>,
    x: LocalId,
    y: LocalId,
    z: LocalId,
)
    requires
        lid_less(strings, x, y),
        lid_less(strings, y, z),
    ensures
        lid_less(strings, x, z),
{
    if let (LocalId::Named(a), LocalId::Named(b)) = (x, y) {
        if let LocalId::Named(c) = z {
            lemma_bytes_transitive(
                strings[a.0 as int],
                strings[b.0 as int],
                strings[c.0 as int],
            );
        }
    }
}

/// A named local goes before every unnamed one.
pub proof fn named_locals_go_first(strings: Seq<Seq<u8>>, x: LocalId, y: LocalId)
    requires
        x is Named,
        y is Unnamed,
    ensures
        lid_less(strings, x, y),
        !lid_less(strings, y, x),
{
}

/// The order of named locals rests on their names in the source alone: it is the
/// same wherever the names are interned, and under whatever ids.
pub proof fn named_order_rests_on_names(
    strings: Seq<Seq<u8>>,
    x: UnitBytesId,
    y: UnitBytesId,
    others: Seq<Seq<u8>>,
    v: UnitBytesId,
    w: UnitBytesId,
)
    requires
        x.0 < strings.len(),
        y.0 < strings.len(),
        v.0 < others.len(),
        w.0 < others.len(),
        strings[x.0 as int] == others[v.0 as int],
        strings[y.0 as int] == others[w.0 as int],
    ensures
        lid_less(strings, LocalId::Named(x), LocalId::Named(y)) == lid_less(
            others,
            LocalId::Named(v),
            LocalId::Named(w),
        ),
{
}

/// Names are compared byte by byte: what two names have in common at their start does
/// not matter, the first byte in which they differ decides, and a name goes before
/// every longer one that starts with it.
pub proof fn names_are_compared_byte_by_byte(
    strings: Seq<Seq<u8>>,
    x: UnitBytesId,
    y: UnitBytesId,
    start: Seq<u8>,
    a: u8,
    b: u8,
    xs: Seq<u8>,
    ys: Seq<u8>,
)
    ensures
        strings[x.0 as int] == start && strings[y.0 as int] == start + seq![b] + ys ==> lid_less(
            strings,
            LocalId::Named(x),
            LocalId::Named(y),
        ),
        strings[x.0 as int] == start + seq![a] + xs && strings[y.0 as int] == start + seq![b] + ys
            && a < b ==> lid_less(strings, LocalId::Named(x), LocalId::Named(y)),
        strings[x.0 as int] == strings[y.0 as int] ==> lid_same(
            strings,
            LocalId::Named(x),
            LocalId::Named(y),
        ),
{
    let k = start.len() as int;
    let p = strings[x.0 as int];
    let q = strings[y.0 as int];
    if p == start && q == start + seq![b] + ys {
        assert(differ_at(p, q, k));
    }
    if p == start + seq![a] + xs && q == start + seq![b] + ys && a < b {
        assert(p[k] == a);
        assert(q[k] == b);
        assert(differ_at(p, q, k));
    }
}

/// Unnamed locals are compared by their numbers.
pub proof fn unnamed_locals_go_by_number(
    strings: Seq<Seq<u8>>,
    x: UnnamedLocalId,
    y: UnnamedLocalId,
)
    ensures
        lid_less(strings, LocalId::Unnamed(x), LocalId::Unnamed(y)) <==> x.idx < y.idx,
        lid_same(strings, LocalId::Unnamed(x), LocalId::Unnamed(y)) <==> x.idx == y.idx,
{
}

/// Each local goes before all that stand after it.
pub open spec fn ascending(strings: Seq<Seq<u8>>, list: Seq<LocalId>) -> bool {
    forall|i: int, j: int|
        0 <= i < j < list.len() ==> lid_less(strings, #[trigger] list[i], #[trigger] list[j])
}

/// Two ascending lists of the same locals start with the same one.
proof fn lemma_same_first(strings: Seq<Seq<u8>>, a: Seq<LocalId>, b: Seq<LocalId>)
    requires
        ascending(strings, a),
        ascending(strings, b),
        forall|l: LocalId| #[trigger] a.contains(l) <==> b.contains(l),
        a.len() > 0,
    ensures
        b.len() > 0,
        a[0] == b[0],
{
    assert(a.contains(a[0]));
    let j = choose|j: int| 0 <= j < b.len() && b[j] == a[0];
    assert(b.contains(b[0]));
    assert(a.contains(b[0]));
    let i = choose|i: int| 0 <= i < a.len() && a[i] == b[0];
    if j > 0 && i > 0 {
        lid_order_is_total(strings, a[0], b[0]);
    }
}

proof fn lemma_ascending_unique(strings: Seq<Seq<u8>>, a: Seq<LocalId>, b: Seq<LocalId>)
    requires
        ascending(strings, a),
        ascending(strings, b),
        forall|l: LocalId| #[trigger] a.contains(l) <==> b.contains(l),
    ensures
        a == b,
    decreases a.len(),
{
    if a.len() == 0 {
        if b.len() > 0 {
            assert(b.contains(b[0]));
            assert(a.contains(b[0]));
        }
        assert(a =~= b);
    } else {
        lemma_same_first(strings, a, b);
        let ra = a.drop_first();
        let rb = b.drop_first();
        assert forall|l: LocalId| #[trigger] ra.contains(l) <==> rb.contains(l) by {
            lemma_tail_contains(strings, a, l);
            lemma_tail_contains(strings, b, l);
            assert(a.contains(l) <==> b.contains(l));
        }
        assert(ascending(strings, ra)) by {
            assert forall|i: int, j: int| 0 <= i < j < ra.len() implies lid_less(
                strings,
                #[trigger] ra[i],
                #[trigger] ra[j],
            ) by {
                assert(ra[i] == a[i + 1] && ra[j] == a[j + 1]);
            }
        }
        assert(ascending(strings, rb)) by {
            assert forall|i: int, j: int| 0 <= i < j < rb.len() implies lid_less(
                strings,
                #[trigger] rb[i],
                #[trigger] rb[j],
            ) by {
                assert(rb[i] == b[i + 1] && rb[j] == b[j + 1]);
            }
        }
        lemma_ascending_unique(strings, ra, rb);
        assert(a =~= seq![a[0]] + ra);
        assert(b =~= seq![b[0]] + rb);
    }
}

/// The rest of an ascending list holds all but the first local.
proof fn lemma_tail_contains(strings: Seq<Seq<u8>>, a: Seq<LocalId>, l: LocalId)
    requires
        ascending(strings, a),
        a.len() > 0,
    ensures
        a.drop_first().contains(l) <==> a.contains(l) && l != a[0],
{
    let r = a.drop_first();
    if r.contains(l) {
        let i = choose|i: int| 0 <= i < r.len() && r[i] == l;
        assert(a[i + 1] == l);
        assert(lid_less(strings, a[0], a[i + 1]));
        lid_order_is_total(strings, a[0], a[i + 1]);
    }
    if a.contains(l) && l != a[0] {
        let i = choose|i: int| 0 <= i < a.len() && a[i] == l;
        assert(r[i - 1] == l);
    }
}

/// The locals that a function declares are the same on every run: only one list
/// is possible.
pub proof fn declared_locals_are_unique(
    strings: Seq<Seq<u8>>,
    func: Func,
    params: Set<LocalId>,
    a: Seq<LocalId>,
    b: Seq<LocalId>,
)
    requires
        declares(strings, func, params, a),
        declares(strings, func, params, b),
    ensures
        a == b,
{
    assert forall|l: LocalId| #[trigger] a.contains(l) <==> b.contains(l) by {
        assert(body_names(func, l) && !params.contains(l) <==> b.contains(l));
    }
    lemma_ascending_unique(strings, a, b);
}

/// The locals that a function declares: those that its body names and that are
/// not parameters, in ascending order.
pub fn declared_locals(
    func: &Func,
    params: &Vec<LocalId>,
    strings: &StringInterner,
) -> (r: Vec<LocalId>)
    requires
        strings.wf(),
        iids_exist(*func),
        locals_known(strings@, *func),
    ensures
        declares(strings@, *func, params@.to_set(), r@),
{
    let all = body_locals(func);
    let mut own: Vec<LocalId> = Vec::new();
    let mut i: usize = 0;
    while i < all.len()
        invariant
            i <= all@.len(),
            own@.no_duplicates(),
            forall|l: LocalId| #[trigger]
                own@.contains(l) <==> all@.take(i as int).contains(l) && !params@.contains(l),
        decreases all.len() - i,
    {
        let lid = all[i];
        let ghost before = own@;
        if !holds_local(params, lid) {
            add_local(&mut own, lid);
        }
        proof {
            let t = all@.take(i as int);
            let t1 = all@.take(i + 1);
            assert(t1 =~= t.push(lid));
            assert forall|l: LocalId| #[trigger] own@.contains(l) <==> t1.contains(l)
                && !params@.contains(l) by {
                assert(before.contains(l) <==> t.contains(l) && !params@.contains(l));
                if t.contains(l) {
                    let m = choose|m: int| 0 <= m < t.len() && t[m] == l;
                    assert(t1[m] == l);
                }
                if l == lid {
                    assert(t1[i as int] == l);
                }
            }
        }
        i += 1;
    }
    assert(all@.take(all@.len() as int) =~= all@);
    let ghost picked = own@;
    proof {
        assert forall|i: int| 0 <= i < own@.len() implies lid_known(
            strings@,
            #[trigger] own@[i],
        ) by {
            assert(own@.contains(own@[i]));
            assert(all@.contains(own@[i]));
        }
    }
    let r = sorted_by_lid(own, strings);
    proof {
        lemma_sorted_declares(strings@, *func, params@.to_set(), picked, r@);
    }
    r
}

/// A sorted arrangement of the right locals is the list that is declared.
proof fn lemma_sorted_declares(
    strings: Seq<Seq<u8>>,
    func: Func,
    params: Set<LocalId>,
    picked: Seq<LocalId>,
    list: Seq<LocalId>,
)
    requires
        strings.no_duplicates(),
        locals_known(strings, func),
        picked.no_duplicates(),
        forall|l: LocalId| #[trigger]
            picked.contains(l) <==> body_names(func, l) && !params.contains(l),
        list.to_multiset() == picked.to_multiset(),
        forall|i: int, j: int|
            0 <= i < j < list.len() ==> !lid_less(strings, #[trigger] list[j], #[trigger] list[i]),
    ensures
        declares(strings, func, params, list),
{
    broadcast use vstd::seq_lib::group_to_multiset_ensures;

    picked.lemma_multiset_has_no_duplicates();
    list.lemma_multiset_has_no_duplicates_conv();
    assert forall|l: LocalId| #[trigger] list.contains(l) <==> body_names(func, l)
        && !params.contains(l) by {
        assert(list.contains(l) <==> list.to_multiset().count(l) > 0);
        assert(picked.contains(l) <==> picked.to_multiset().count(l) > 0);
    }
    assert forall|i: int, j: int| 0 <= i < j < list.len() implies lid_less(
        strings,
        #[trigger] list[i],
        #[trigger] list[j],
    ) by {
        assert(list.contains(list[i]) && list.contains(list[j]));
        assert(lid_known(strings, list[i]) && lid_known(strings, list[j]));
        lid_order_is_total(strings, list[i], list[j]);
        same_place_same_local(strings, list[i], list[j]);
    }
}

} // verus!
