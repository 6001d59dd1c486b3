//! The state while one function is emitted: what has been emitted so far, and which
//! expression stands for the value of each instruction and constant.

use std::collections::HashMap;
use vstd::prelude::*;

use crate::class;
use crate::class::IsStatic;
use crate::hack;
use crate::hack::{builtin_view, expr_builtin, Builtin};
use crate::ir::{
    Class, ClassId, CollectionType, Constant, ConstantId, Func, Instr, InstrId, LocId, LocalId,
    Special, Textual, ValueId,
};
use crate::strings::{slice_to_vec, text_id, with_text, StringInterner};
use crate::textual::{
    expr_below, expr_uses, exprs_below, exprs_view, int_view, local_view, no_args, null_view,
    one_arg, BodyView, Const, ConstView, Expr, ExprView, FuncBuilder, Name, NameView, Sid, StmtView,
    Ty,
};

verus! {

broadcast use vstd::std_specs::hash::group_hash_axioms;

/// What a method knows of its class.
#[derive(Clone, Copy, Debug, PartialEq, Eq, Structural)]
pub struct MethodInfo {
    pub class: Class,
    pub is_static: IsStatic,
}

/// The type of `$this` in a method.
pub open spec fn this_ty(mi: MethodInfo) -> Ty {
    Ty::ClassPtr { class: mi.class.name, is_static: mi.is_static }
}

impl MethodInfo {
    /// The type of `$this` in the instance form of the method.
    pub fn non_static_ty(&self) -> (r: Ty)
        ensures
            r == (Ty::ClassPtr { class: self.class.name, is_static: IsStatic::NonStatic }),
    {
        class::non_static_ty(self.class.name)
    }

    /// The type of `$this` in the method.
    pub fn class_ty(&self) -> (r: Ty)
        ensures
            r == this_ty(*self),
    {
        class::class_ty(self.class.name, self.is_static)
    }
}

/// The state while a function is emitted, seen as values: the function and the
/// method that it is the body of, which stay the same, and the body, the values of
/// instructions, the values that were emitted for constants, and the strings so far.
pub ghost struct StateView {
    pub func: Func,
    pub method: Option<MethodInfo>,
    pub body: BodyView,
    pub values: Map<usize, ExprView>,
    pub constants: Map<usize, nat>,
    pub strings: Seq<Seq<u8>>,
}

impl StateView {
    /// No string is interned twice.
    pub open spec fn wf(self) -> bool {
        self.strings.no_duplicates()
    }

    /// There are numbers left for `n` more values.
    pub open spec fn room(self, n: nat) -> bool {
        self.body.next + n <= usize::MAX
    }

    /// Each value is defined once and before it is mentioned, in the statements
    /// as well as in the expressions that stand for instructions and constants.
    pub open spec fn sound(self) -> bool {
        &&& self.body.ordered()
        &&& self.body.scoped()
        &&& forall|k: usize, sid: nat|
            self.values.dom().contains(k) && #[trigger] expr_uses(self.values[k], sid) ==> sid
                < self.body.next
        &&& forall|c: usize| #[trigger]
            self.constants.dom().contains(c) ==> self.constants[c] < self.body.next
    }

    /// The same state with another body.
    pub open spec fn with_body(self, body: BodyView) -> StateView {
        StateView { body, ..self }
    }

    /// The same state where `e` stands for the value of `iid`.
    pub open spec fn bind(self, iid: InstrId, e: ExprView) -> StateView {
        StateView { values: self.values.insert(iid.0, e), ..self }
    }

    /// The same state where the value `sid` has been emitted for the constant `c`.
    pub open spec fn bind_constant(self, c: usize, sid: nat) -> StateView {
        StateView { constants: self.constants.insert(c, sid), ..self }
    }

    /// The same state with `text` interned.
    pub open spec fn intern(self, text: Seq<char>) -> StateView {
        StateView { strings: with_text(self.strings, text), ..self }
    }

    /// The local that a text names.
    pub open spec fn named_local(self, text: Seq<char>) -> LocalId {
        LocalId::Named(text_id(self.strings, text))
    }
}

/// Whether a constant is simple, so that it is written in place wherever it is an
/// operand. An array literal is not: its value is emitted once, before it is used.
pub open spec fn is_simple(c: Constant) -> bool {
    !(c is Array)
}

/// The expression that a simple constant is written as. What has no form in Textual
/// yet is null.
pub open spec fn simple_constant(strings: Seq<Seq<u8>>, c: Constant) -> ExprView
    recommends
        is_simple(c),
{
    match c {
        Constant::Bool(false) => builtin_view(
            Builtin::Bool,
            seq![ExprView::Const(ConstView::False)],
        ),
        Constant::Bool(true) => builtin_view(
            Builtin::Bool,
            seq![ExprView::Const(ConstView::True)],
        ),
        Constant::Float(bits) => builtin_view(
            Builtin::Float,
            seq![ExprView::Const(ConstView::Float(bits))],
        ),
        Constant::Int(i) => builtin_view(Builtin::Int, seq![int_view(i)]),
        Constant::NewCol(ty) => builtin_view(
            Builtin::Hhbc(new_collection(ty)),
            Seq::<ExprView>::empty(),
        ),
        Constant::String(s) => builtin_view(
            Builtin::String,
            seq![ExprView::Const(ConstView::String(strings[s.0 as int]))],
        ),
        Constant::Null | Constant::Uninit => null_view(),
        Constant::Dir
        | Constant::File
        | Constant::FuncCred
        | Constant::Method
        | Constant::Named(_) => null_view(),
        Constant::Array(_) => arbitrary(),
    }
}

/// A simple constant mentions no value.
proof fn lemma_constant_uses_nothing(strings: Seq<Seq<u8>>, c: Constant)
    requires
        is_simple(c),
    ensures
        forall|sid: nat| !#[trigger] expr_uses(simple_constant(strings, c), sid),
{
    reveal_with_fuel(expr_uses, 2);
}

/// The built-in that makes an empty collection.
pub open spec fn new_collection(ty: CollectionType) -> hack::Hhbc {
    match ty {
        CollectionType::ImmMap => hack::Hhbc::NewColImmMap,
        CollectionType::ImmSet => hack::Hhbc::NewColImmSet,
        CollectionType::ImmVector => hack::Hhbc::NewColImmVector,
        CollectionType::MutMap => hack::Hhbc::NewColMap,
        CollectionType::MutSet => hack::Hhbc::NewColSet,
        CollectionType::Pair => hack::Hhbc::NewColPair,
        CollectionType::Vector => hack::Hhbc::NewColVector,
    }
}

/// Whether an instruction is a local for use as an operand, and which.
pub open spec fn deref_of(instr: Instr) -> Option<LocalId> {
    match instr {
        Instr::Special(Special::Textual(Textual::Deref(lid))) => Some(lid),
        _ => None,
    }
}

/// Whether the instruction `iid` has a value: it is among those that were
/// emitted, or it is a local for use as an operand.
pub open spec fn iid_ready(func: Func, values: Set<usize>, iid: InstrId) -> bool {
    values.contains(iid.0) || (iid.0 < func.instrs@.len() && deref_of(
        func.instrs@[iid.0 as int],
    ) is Some)
}

/// What operands may refer to beside instructions: how many strings are interned,
/// and for which constants a value has been emitted.
pub ghost struct Scope {
    pub n_strings: nat,
    pub constants: Set<usize>,
}

/// Whether the interned string exists that a constant needs.
pub open spec fn text_known(scope: Scope, c: Constant) -> bool {
    c matches Constant::String(s) ==> s.0 < scope.n_strings
}

/// Whether the constant `c` can be an operand: a value has been emitted for it, or
/// it is simple.
pub open spec fn constant_ready(func: Func, scope: Scope, c: ConstantId) -> bool {
    &&& c.0 < func.constants@.len()
    &&& match func.constants@[c.0 as int] {
        Constant::Array(_) => scope.constants.contains(c.0),
        constant => text_known(scope, constant),
    }
}

/// Whether an operand has a value.
pub open spec fn value_ready(func: Func, scope: Scope, values: Set<usize>, vid: ValueId) -> bool {
    match vid {
        ValueId::Instr(iid) => iid_ready(func, values, iid),
        ValueId::Constant(c) => constant_ready(func, scope, c),
        ValueId::Absent => false,
    }
}

/// Whether all operands have a value.
pub open spec fn values_ready(
    func: Func,
    scope: Scope,
    values: Set<usize>,
    vids: Seq<ValueId>,
) -> bool {
    forall|i: int| 0 <= i < vids.len() ==> value_ready(func, scope, values, #[trigger] vids[i])
}

impl StateView {
    /// What operands may refer to beside instructions.
    pub open spec fn scope(self) -> Scope {
        Scope { n_strings: self.strings.len(), constants: self.constants.dom() }
    }

    pub open spec fn ready(self, vid: ValueId) -> bool {
        value_ready(self.func, self.scope(), self.values.dom(), vid)
    }

    pub open spec fn all_ready(self, vids: Seq<ValueId>) -> bool {
        values_ready(self.func, self.scope(), self.values.dom(), vids)
    }

    /// The expression that stands for the value of an instruction.
    pub open spec fn iid_expr(self, iid: InstrId) -> ExprView {
        if self.values.dom().contains(iid.0) {
            self.values[iid.0]
        } else {
            local_view(deref_of(self.func.instrs@[iid.0 as int])->0)
        }
    }

    /// The expression that stands for a constant: the value that was emitted for an
    /// array literal, and a simple constant itself.
    pub open spec fn constant_expr(self, c: ConstantId) -> ExprView {
        match self.func.constants@[c.0 as int] {
            Constant::Array(_) => ExprView::Sid(self.constants[c.0]),
            constant => simple_constant(self.strings, constant),
        }
    }

    /// The expression that stands for an operand.
    pub open spec fn value_expr(self, vid: ValueId) -> ExprView {
        match vid {
            ValueId::Instr(iid) => self.iid_expr(iid),
            ValueId::Constant(c) => self.constant_expr(c),
            ValueId::Absent => null_view(),
        }
    }

    /// The expressions that stand for operands.
    pub open spec fn value_exprs(self, vids: Seq<ValueId>) -> Seq<ExprView> {
        vids.map_values(|vid: ValueId| self.value_expr(vid))
    }

    /// After the source location has been given, where there is one.
    pub open spec fn at_loc(self, loc: Option<LocId>) -> StateView {
        match loc {
            Some(l) => self.with_body(self.body.plus(StmtView::Loc(self.func.locs@[l.0 as int]))),
            None => self,
        }
    }

    /// After `$this` has been loaded in the method `mi`.
    pub open spec fn this_loaded(self, mi: MethodInfo) -> StateView {
        self.intern("$this"@).with_body(
            self.body.load(this_ty(mi), local_view(self.named_local("$this"@))),
        )
    }

    /// After a call of the function that marks what has no form in Textual.
    pub open spec fn todo_called(self, msg: Seq<char>) -> StateView {
        self.with_body(self.body.call(todo_name(msg), Seq::empty()))
    }
}

/// The function that marks what has no form in Textual.
pub open spec fn todo_name(msg: Seq<char>) -> NameView {
    NameView::Text("$todo."@ + msg)
}

/// The state while one function is emitted.
#[derive(Debug)]
pub struct FuncState<'a> {
    pub fb: FuncBuilder,
    pub func: &'a Func,
    pub iid_mapping: HashMap<usize, Expr>,
    pub constant_mapping: HashMap<usize, Sid>,
    pub method_info: Option<MethodInfo>,
    pub strings: StringInterner,
}

impl<'a> View for FuncState<'a> {
    type V = StateView;

    open spec fn view(&self) -> StateView {
        StateView {
            func: *self.func,
            method: self.method_info,
            body: self.fb@,
            values: self.iid_mapping@.map_values(|e: Expr| e@),
            constants: self.constant_mapping@.map_values(|s: Sid| s.0 as nat),
            strings: self.strings@,
        }
    }
}

/// Call the function that marks what has no form in Textual.
pub fn write_todo(fb: &mut FuncBuilder, msg: &str) -> (r: Sid)
    requires
        old(fb).next_sid < usize::MAX,
    ensures
        r.0 == old(fb)@.next,
        final(fb)@ == old(fb)@.call(todo_name(msg@), Seq::empty()),
        old(fb)@.ordered() ==> final(fb)@.ordered(),
        old(fb)@.scoped() ==> final(fb)@.scoped(),
{
    let mut target: String = "$todo.".to_owned();
    target.append(msg);
    fb.call(Name::Text(target), no_args())
}

/// Call a built-in and name its result.
pub fn call_builtin(fb: &mut FuncBuilder, target: Builtin, params: Vec<Expr>) -> (r: Sid)
    requires
        old(fb).next_sid < usize::MAX,
    ensures
        r.0 == old(fb)@.next,
        final(fb)@ == old(fb)@.call(NameView::Builtin(target), exprs_view(params@)),
        old(fb)@.ordered() ==> final(fb)@.ordered(),
        old(fb)@.scoped() && exprs_below(exprs_view(params@), old(fb)@.next)
            ==> final(fb)@.scoped(),
{
    fb.call(Name::Builtin(target), params)
}

impl<'a> FuncState<'a> {
    /// Start with nothing emitted beyond what `fb` holds, and no value known.
    pub fn new(
        fb: FuncBuilder,
        strings: StringInterner,
        func: &'a Func,
        method_info: Option<MethodInfo>,
    ) -> (r: FuncState<'a>)
        ensures
            r@ == (StateView {
                func: *func,
                method: method_info,
                body: fb@,
                values: Map::empty(),
                constants: Map::empty(),
                strings: strings@,
            }),
            fb@.ordered() && fb@.scoped() ==> r@.sound(),
    {
        let r = FuncState {
            fb,
            func,
            iid_mapping: HashMap::new(),
            constant_mapping: HashMap::new(),
            method_info,
            strings,
        };
        assert(r@.values =~= Map::<usize, ExprView>::empty());
        assert(r@.constants =~= Map::<usize, nat>::empty());
        r
    }

    /// Let `expr` stand for the value of `iid`, which has none yet.
    pub fn set_iid(&mut self, iid: InstrId, expr: Expr)
        requires
            !old(self)@.values.dom().contains(iid.0),
        ensures
            final(self)@ == old(self)@.bind(iid, expr@),
            old(self)@.sound() && expr_below(expr@, old(self)@.body.next) ==> final(self)@.sound(),
    {
        let _old = self.iid_mapping.insert(iid.0, expr);
        assert(self@.values =~= old(self)@.values.insert(iid.0, expr@));
    }

    /// Let `sid` be the value that was emitted for the constant `c`.
    pub fn set_constant(&mut self, c: ConstantId, sid: Sid)
        requires
            !old(self)@.constants.dom().contains(c.0),
        ensures
            final(self)@ == old(self)@.bind_constant(c.0, sid.0 as nat),
            old(self)@.sound() && sid.0 < old(self)@.body.next ==> final(self)@.sound(),
    {
        let _old = self.constant_mapping.insert(c.0, sid);
        assert(self@.constants =~= old(self)@.constants.insert(c.0, sid.0 as nat));
    }

    /// A new value for the instruction `iid`.
    pub fn alloc_sid_for_iid(&mut self, iid: InstrId) -> (r: Sid)
        requires
            old(self)@.room(1),
            !old(self)@.values.dom().contains(iid.0),
        ensures
            r.0 == old(self)@.body.next,
            final(self)@ == old(self)@.with_body(
                BodyView { stmts: old(self)@.body.stmts, next: old(self)@.body.next + 1 },
            ).bind(iid, old(self)@.body.next_sid()),
            old(self)@.sound() ==> final(self)@.sound(),
    {
        let sid = self.fb.alloc_sid();
        self.set_iid(iid, Expr::Sid(sid));
        sid
    }

    /// The expression that stands for the value of an instruction. For one that
    /// was emitted it is the one that was set; a local for use as an operand
    /// stands for itself.
    pub fn lookup_iid(&self, iid: InstrId) -> (r: Expr)
        requires
            iid_ready(self@.func, self@.values.dom(), iid),
        ensures
            r@ == self@.iid_expr(iid),
            self@.sound() ==> expr_below(r@, self@.body.next),
    {
        if let Some(expr) = self.iid_mapping.get(&iid.0) {
            return expr.dup();
        }
        match &self.func.instrs[iid.0] {
            Instr::Special(Special::Textual(Textual::Deref(lid))) => Expr::local(*lid),
            _ => {
                assert(false);
                Expr::null()
            },
        }
    }

    /// The expression that stands for an operand. For instructions and complex
    /// constants it holds the value that was emitted for them before. A simple
    /// constant is represented directly.
    pub fn lookup_vid(&self, vid: ValueId) -> (r: Expr)
        requires
            self@.ready(vid),
        ensures
            r@ == self@.value_expr(vid),
            self@.sound() ==> expr_below(r@, self@.body.next),
    {
        match vid {
            ValueId::Instr(iid) => self.lookup_iid(iid),
            ValueId::Constant(c) => {
                proof {
                    if is_simple(self.func.constants@[c.0 as int]) {
                        lemma_constant_uses_nothing(
                            self.strings@,
                            self.func.constants@[c.0 as int],
                        );
                    }
                }
                match self.func.constants[c.0] {
                    Constant::Array(_) => {
                        let sid = self.constant_mapping.get(&c.0).unwrap();
                        Expr::Sid(*sid)
                    },
                    Constant::Bool(b) => {
                        let c = if b { Const::True } else { Const::False };
                        expr_builtin(Builtin::Bool, one_arg(Expr::Const(c)))
                    },
                    Constant::Float(bits) => expr_builtin(
                        Builtin::Float,
                        one_arg(Expr::Const(Const::Float(bits))),
                    ),
                    Constant::Int(i) => expr_builtin(
                        Builtin::Int,
                        one_arg(Expr::Const(Const::Int(i))),
                    ),
                    Constant::NewCol(ty) => {
                        let hhbc = match ty {
                            CollectionType::ImmMap => hack::Hhbc::NewColImmMap,
                            CollectionType::ImmSet => hack::Hhbc::NewColImmSet,
                            CollectionType::ImmVector => hack::Hhbc::NewColImmVector,
                            CollectionType::MutMap => hack::Hhbc::NewColMap,
                            CollectionType::MutSet => hack::Hhbc::NewColSet,
                            CollectionType::Pair => hack::Hhbc::NewColPair,
                            CollectionType::Vector => hack::Hhbc::NewColVector,
                        };
                        expr_builtin(Builtin::Hhbc(hhbc), no_args())
                    },
                    Constant::String(s) => {
                        let bytes = slice_to_vec(self.strings.lookup_bytes(s));
                        expr_builtin(Builtin::String, one_arg(Expr::Const(Const::String(bytes))))
                    },
                    Constant::Null
                    | Constant::Uninit
                    | Constant::Dir
                    | Constant::File
                    | Constant::FuncCred
                    | Constant::Method
                    | Constant::Named(_) => Expr::null(),
                }
            },
            ValueId::Absent => Expr::null(),
        }
    }

    /// The expressions that stand for operands.
    pub fn lookup_vids(&self, vids: &Vec<ValueId>) -> (r: Vec<Expr>)
        requires
            self@.all_ready(vids@),
        ensures
            exprs_view(r@) == self@.value_exprs(vids@),
            self@.sound() ==> exprs_below(exprs_view(r@), self@.body.next),
    {
        let mut out: Vec<Expr> = Vec::new();
        let mut i: usize = 0;
        while i < vids.len()
            invariant
                i <= vids.len(),
                out.len() == i,
                self@.all_ready(vids@),
                forall|k: int| 0 <= k < i ==> out@[k]@ == self@.value_expr(vids@[k]),
                self@.sound() ==> forall|k: int|
                    0 <= k < i ==> expr_below(#[trigger] out@[k]@, self@.body.next),
            decreases vids.len() - i,
        {
            out.push(self.lookup_vid(vids[i]));
            i += 1;
        }
        assert(exprs_view(out@) =~= self@.value_exprs(vids@));
        out
    }

    /// Let the value of `input` be that of `iid` too.
    pub fn copy_iid(&mut self, iid: InstrId, input: ValueId)
        requires
            old(self)@.ready(input),
            !old(self)@.values.dom().contains(iid.0),
        ensures
            final(self)@ == old(self)@.bind(iid, old(self)@.value_expr(input)),
            old(self)@.sound() ==> final(self)@.sound(),
    {
        let expr = self.lookup_vid(input);
        self.set_iid(iid, expr);
    }

    /// Call a built-in and name its result.
    pub fn call_builtin(&mut self, target: Builtin, params: Vec<Expr>) -> (r: Sid)
        requires
            old(self)@.room(1),
        ensures
            r.0 == old(self)@.body.next,
            final(self)@ == old(self)@.with_body(
                old(self)@.body.call(NameView::Builtin(target), exprs_view(params@)),
            ),
            old(self)@.sound() && exprs_below(exprs_view(params@), old(self)@.body.next)
                ==> final(self)@.sound(),
    {
        call_builtin(&mut self.fb, target, params)
    }

    /// What the method knows of its class.
    pub fn expect_method_info(&self) -> (r: MethodInfo)
        requires
            self@.method is Some,
        ensures
            r == self@.method->0,
    {
        self.method_info.unwrap()
    }

    /// Name the singleton that holds the static side of a class.
    pub fn load_static_class(&mut self, cid: ClassId) -> (r: Sid)
        requires
            old(self)@.room(1),
        ensures
            r.0 == old(self)@.body.next,
            final(self)@ == old(self)@.with_body(old(self)@.body.load_static_class(cid)),
            old(self)@.sound() ==> final(self)@.sound(),
    {
        self.fb.load_static_class(cid)
    }

    /// Name the Hack value that `src` holds.
    pub fn load_mixed(&mut self, src: Expr) -> (r: Sid)
        requires
            old(self)@.room(1),
        ensures
            r.0 == old(self)@.body.next,
            final(self)@ == old(self)@.with_body(old(self)@.body.load(Ty::Mixed, src@)),
            old(self)@.sound() && expr_below(src@, old(self)@.body.next) ==> final(self)@.sound(),
    {
        self.fb.load(Ty::Mixed, src)
    }

    /// Name `$this`.
    pub fn load_this(&mut self) -> (r: Sid)
        requires
            old(self)@.wf(),
            old(self)@.room(1),
            old(self)@.method is Some,
        ensures
            final(self)@.wf(),
            r.0 == old(self)@.body.next,
            final(self)@ == old(self)@.this_loaded(old(self)@.method->0),
            old(self)@.sound() ==> final(self)@.sound(),
    {
        let var = LocalId::Named(self.strings.intern_str("$this"));
        let mi = self.expect_method_info();
        let ty = mi.class_ty();
        self.fb.load(ty, Expr::local(var))
    }

    /// Store a Hack value.
    pub fn store_mixed(&mut self, place: Expr, src: Expr)
        ensures
            final(self)@ == old(self)@.with_body(old(self)@.body.store(place@, src@, Ty::Mixed)),
            old(self)@.sound() && expr_below(place@, old(self)@.body.next) && expr_below(
                src@,
                old(self)@.body.next,
            ) ==> final(self)@.sound(),
    {
        self.fb.store(place, src, Ty::Mixed);
    }

    /// Give the source location of what follows, where there is one.
    pub fn update_loc(&mut self, loc: Option<LocId>)
        requires
            loc matches Some(l) ==> l.0 < old(self)@.func.locs@.len(),
        ensures
            final(self)@ == old(self)@.at_loc(loc),
            old(self)@.sound() ==> final(self)@.sound(),
    {
        if let Some(l) = loc {
            let new = self.func.locs[l.0];
            self.fb.write_loc(new);
        }
    }

    /// Call the function that marks what has no form in Textual.
    pub fn write_todo(&mut self, msg: &str) -> (r: Sid)
        requires
            old(self)@.room(1),
        ensures
            r.0 == old(self)@.body.next,
            final(self)@ == old(self)@.todo_called(msg@),
            old(self)@.sound() ==> final(self)@.sound(),
    {
        write_todo(&mut self.fb, msg)
    }
}

} // verus!
