//! Textual: types, expressions, statements, and the builder that collects the
//! statements of a function body.

use vstd::prelude::*;

use crate::class::IsStatic;
use crate::hack::Builtin;
use crate::ir::{
    ArrayId, BlockId, ClassId, ConstId, EnforcedTy, FloatBits, FunctionId, InstrId, LocalId,
    MethodId, SrcLoc,
};
use crate::strings::slice_to_vec;

verus! {

/// The name of a value that a statement computes. No two statements of a body
/// define the same one.
#[derive(Clone, Copy, Debug, PartialEq, Eq, Structural)]
pub struct Sid(pub usize);

#[derive(Clone, Copy, Debug, PartialEq, Eq, Structural)]
pub enum Ty {
    /// An untyped pointer.
    VoidPtr,
    /// A pointer to a Hack value of any type.
    Mixed,
    /// What an enforced type of the source becomes.
    Enforced(EnforcedTy),
    /// The type of one side of a class.
    Class { class: ClassId, is_static: IsStatic },
    /// A pointer to one side of a class.
    ClassPtr { class: ClassId, is_static: IsStatic },
}

/// What a pointer type points to.
pub open spec fn pointee(ty: Ty) -> Ty {
    match ty {
        Ty::ClassPtr { class, is_static } => Ty::Class { class, is_static },
        _ => ty,
    }
}

impl Ty {
    /// What a pointer to a class points to.
    pub fn deref(self) -> (r: Ty)
        requires
            self is ClassPtr,
        ensures
            r == pointee(self),
    {
        match self {
            Ty::ClassPtr { class, is_static } => Ty::Class { class, is_static },
            _ => self,
        }
    }
}

/// The class in a mangled name.
#[derive(Debug, PartialEq, Eq)]
pub enum ClassRef {
    Id(ClassId),
    Name(String),
}

pub ghost enum ClassRefView {
    Id(ClassId),
    Name(Seq<char>),
}

/// What a mangled name names inside a class.
#[derive(Clone, Copy, Debug, PartialEq, Eq, Structural)]
pub enum Member {
    Method(MethodId),
    Const(ConstId),
}

/// The name of a function or a global. All but `Text` are mangled when they are
/// printed.
#[derive(Debug, PartialEq, Eq)]
pub enum Name {
    Builtin(Builtin),
    Function(FunctionId),
    Member { class: ClassRef, is_static: IsStatic, member: Member },
    Text(String),
}

pub ghost enum NameView {
    Builtin(Builtin),
    Function(FunctionId),
    Member { class: ClassRefView, is_static: IsStatic, member: Member },
    Text(Seq<char>),
}

#[derive(Debug, PartialEq, Eq)]
pub enum Const {
    False,
    Float(FloatBits),
    Int(i64),
    Null,
    /// The bytes of a string. They are escaped when they are printed.
    String(Vec<u8>),
    True,
}

pub ghost enum ConstView {
    False,
    Float(FloatBits),
    Int(i64),
    Null,
    String(Seq<u8>),
    True,
}

#[derive(Debug, PartialEq, Eq)]
pub enum Var {
    Global(Name),
    Local(LocalId),
}

pub ghost enum VarView {
    Global(NameView),
    Local(LocalId),
}

#[derive(Debug, PartialEq, Eq)]
pub enum Expr {
    /// A new object of a class.
    Alloc(Ty),
    /// The expression that builds an array literal.
    Array(ArrayId),
    Call { target: Name, args: Vec<Expr> },
    Const(Const),
    Deref(Var),
    Sid(Sid),
}

pub ghost enum ExprView {
    Alloc(Ty),
    Array(ArrayId),
    Call { target: NameView, args: Seq<ExprView> },
    Const(ConstView),
    Deref(VarView),
    Sid(nat),
}

#[derive(Debug, PartialEq, Eq)]
pub enum Stmt {
    /// Call a function and name its result.
    Call { dst: Sid, target: Name, args: Vec<Expr> },
    /// Call a function that takes `this`.
    CallStatic { dst: Sid, target: Name, this: Expr, args: Vec<Expr> },
    /// Call a method through the class of `this`.
    CallVirtual { dst: Sid, target: Name, this: Expr, args: Vec<Expr> },
    Comment(String),
    /// Name a copy of a value.
    Copy { dst: Sid, src: Expr },
    /// Name the value of an expression.
    Eval { dst: Sid, src: Expr },
    /// The block that handles what is thrown in the block that ends here.
    Handler(BlockId),
    Jmp { targets: Vec<BlockId>, args: Vec<Expr> },
    /// Start a block.
    Label { bid: BlockId, params: Vec<Sid> },
    Load { dst: Sid, ty: Ty, src: Expr },
    /// Name the singleton that holds the static side of a class.
    LoadStaticClass { dst: Sid, class: ClassId },
    /// The source location of what follows.
    Loc(SrcLoc),
    /// Perform the member operation of an instruction and name its value.
    MemberOp { dst: Sid, iid: InstrId, operands: Vec<Expr> },
    /// Stop along this path if the expression is not true.
    Prune(Expr),
    /// Stop along this path if the expression is true.
    PruneNot(Expr),
    Ret(Expr),
    Store { place: Expr, src: Expr, ty: Ty },
    Unreachable,
}

pub ghost enum StmtView {
    Call { dst: nat, target: NameView, args: Seq<ExprView> },
    CallStatic { dst: nat, target: NameView, this: ExprView, args: Seq<ExprView> },
    CallVirtual { dst: nat, target: NameView, this: ExprView, args: Seq<ExprView> },
    Comment(Seq<char>),
    Copy { dst: nat, src: ExprView },
    Eval { dst: nat, src: ExprView },
    Handler(BlockId),
    Jmp { targets: Seq<BlockId>, args: Seq<ExprView> },
    Label { bid: BlockId, params: Seq<nat> },
    Load { dst: nat, ty: Ty, src: ExprView },
    LoadStaticClass { dst: nat, class: ClassId },
    Loc(SrcLoc),
    MemberOp { dst: nat, iid: InstrId, operands: Seq<ExprView> },
    Prune(ExprView),
    PruneNot(ExprView),
    Ret(ExprView),
    Store { place: ExprView, src: ExprView, ty: Ty },
    Unreachable,
}

impl View for ClassRef {
    type V = ClassRefView;

    open spec fn view(&self) -> ClassRefView {
        match self {
            ClassRef::Id(id) => ClassRefView::Id(*id),
            ClassRef::Name(name) => ClassRefView::Name(name@),
        }
    }
}

impl View for Name {
    type V = NameView;

    open spec fn view(&self) -> NameView {
        match self {
            Name::Builtin(b) => NameView::Builtin(*b),
            Name::Function(f) => NameView::Function(*f),
            Name::Member { class, is_static, member } => NameView::Member {
                class: class@,
                is_static: *is_static,
                member: *member,
            },
            Name::Text(text) => NameView::Text(text@),
        }
    }
}

impl View for Const {
    type V = ConstView;

    open spec fn view(&self) -> ConstView {
        match self {
            Const::False => ConstView::False,
            Const::Float(bits) => ConstView::Float(*bits),
            Const::Int(i) => ConstView::Int(*i),
            Const::Null => ConstView::Null,
            Const::String(bytes) => ConstView::String(bytes@),
            Const::True => ConstView::True,
        }
    }
}

impl View for Var {
    type V = VarView;

    open spec fn view(&self) -> VarView {
        match self {
            Var::Global(name) => VarView::Global(name@),
            Var::Local(lid) => VarView::Local(*lid),
        }
    }
}

impl Expr {
    pub open spec fn view(&self) -> ExprView
        decreases self,
    {
        match self {
            Expr::Alloc(ty) => ExprView::Alloc(*ty),
            Expr::Array(id) => ExprView::Array(*id),
            Expr::Call { target, args } => ExprView::Call {
                target: target@,
                args: Seq::new(
                    args@.len(),
                    |i: int|
                        if 0 <= i < args@.len() {
                            args@[i].view()
                        } else {
                            arbitrary()
                        },
                ),
            },
            Expr::Const(c) => ExprView::Const(c@),
            Expr::Deref(var) => ExprView::Deref(var@),
            Expr::Sid(sid) => ExprView::Sid(sid.0 as nat),
        }
    }
}

/// The views of a sequence of expressions.
pub open spec fn exprs_view(args: Seq<Expr>) -> Seq<ExprView> {
    args.map_values(|e: Expr| e@)
}

pub proof fn lemma_call_view(target: Name, args: Vec<Expr>)
    ensures
        (Expr::Call { target, args })@ == (ExprView::Call {
            target: target@,
            args: exprs_view(args@),
        }),
{
    let e = Expr::Call { target, args };
    assert(e@->args =~= exprs_view(args@));
}

/// The expression that reads or writes a local.
pub open spec fn local_view(lid: LocalId) -> ExprView {
    ExprView::Deref(VarView::Local(lid))
}

/// The expression for null.
pub open spec fn null_view() -> ExprView {
    ExprView::Const(ConstView::Null)
}

/// The expression for an integer.
pub open spec fn int_view(i: i64) -> ExprView {
    ExprView::Const(ConstView::Int(i))
}

impl ClassRef {
    fn dup(&self) -> (r: ClassRef)
        ensures
            r@ == self@,
    {
        match self {
            ClassRef::Id(id) => ClassRef::Id(*id),
            ClassRef::Name(name) => ClassRef::Name(name.clone()),
        }
    }
}

impl Name {
    /// A name with the same view.
    pub fn dup(&self) -> (r: Name)
        ensures
            r@ == self@,
    {
        match self {
            Name::Builtin(b) => Name::Builtin(*b),
            Name::Function(f) => Name::Function(*f),
            Name::Member { class, is_static, member } => Name::Member {
                class: class.dup(),
                is_static: *is_static,
                member: *member,
            },
            Name::Text(text) => Name::Text(text.clone()),
        }
    }
}

impl Const {
    fn dup(&self) -> (r: Const)
        ensures
            r@ == self@,
    {
        match self {
            Const::False => Const::False,
            Const::Float(bits) => Const::Float(*bits),
            Const::Int(i) => Const::Int(*i),
            Const::Null => Const::Null,
            Const::String(bytes) => Const::String(slice_to_vec(bytes.as_slice())),
            Const::True => Const::True,
        }
    }
}

impl Var {
    fn dup(&self) -> (r: Var)
        ensures
            r@ == self@,
    {
        match self {
            Var::Global(name) => Var::Global(name.dup()),
            Var::Local(lid) => Var::Local(*lid),
        }
    }
}

impl Expr {
    /// An expression with the same view.
    pub fn dup(&self) -> (r: Expr)
        ensures
            r@ == self@,
        decreases self,
    {
        match self {
            Expr::Alloc(ty) => Expr::Alloc(*ty),
            Expr::Array(id) => Expr::Array(*id),
            Expr::Call { target, args } => {
                let mut copies: Vec<Expr> = Vec::new();
                let mut i: usize = 0;
                while i < args.len()
                    invariant
                        i <= args.len(),
                        copies.len() == i,
                        *self matches Expr::Call { args: own, .. } && own == *args,
                        forall|k: int| 0 <= k < i ==> copies@[k]@ == args@[k]@,
                    decreases args.len() - i,
                {
                    copies.push(args[i].dup());
                    i += 1;
                }
                let target = target.dup();
                proof {
                    lemma_call_view(target, copies);
                    lemma_call_view(self->target, *args);
                    assert(exprs_view(copies@) =~= exprs_view(args@));
                }
                Expr::Call { target, args: copies }
            },
            Expr::Const(c) => Expr::Const(c.dup()),
            Expr::Deref(var) => Expr::Deref(var.dup()),
            Expr::Sid(sid) => Expr::Sid(*sid),
        }
    }

    /// The expression that reads or writes a local.
    pub fn local(lid: LocalId) -> (r: Expr)
        ensures
            r@ == local_view(lid),
    {
        Expr::Deref(Var::Local(lid))
    }

    pub fn null() -> (r: Expr)
        ensures
            r@ == null_view(),
    {
        Expr::Const(Const::Null)
    }
}

/// No arguments.
pub fn no_args() -> (r: Vec<Expr>)
    ensures
        exprs_view(r@) == Seq::<ExprView>::empty(),
{
    let r: Vec<Expr> = Vec::new();
    assert(exprs_view(r@) =~= Seq::<ExprView>::empty());
    r
}

/// One argument.
pub fn one_arg(a: Expr) -> (r: Vec<Expr>)
    ensures
        exprs_view(r@) == seq![a@],
{
    let r: Vec<Expr> = vec![a];
    assert(exprs_view(r@) =~= seq![a@]);
    r
}

/// Two arguments.
pub fn two_args(a: Expr, b: Expr) -> (r: Vec<Expr>)
    ensures
        exprs_view(r@) == seq![a@, b@],
{
    let r: Vec<Expr> = vec![a, b];
    assert(exprs_view(r@) =~= seq![a@, b@]);
    r
}

/// The numbers of a sequence of value names.
pub open spec fn sids_view(sids: Seq<Sid>) -> Seq<nat> {
    sids.map_values(|s: Sid| s.0 as nat)
}

impl View for Stmt {
    type V = StmtView;

    open spec fn view(&self) -> StmtView {
        match self {
            Stmt::Call { dst, target, args } => StmtView::Call {
                dst: dst.0 as nat,
                target: target@,
                args: exprs_view(args@),
            },
            Stmt::CallStatic { dst, target, this, args } => StmtView::CallStatic {
                dst: dst.0 as nat,
                target: target@,
                this: this@,
                args: exprs_view(args@),
            },
            Stmt::CallVirtual { dst, target, this, args } => StmtView::CallVirtual {
                dst: dst.0 as nat,
                target: target@,
                this: this@,
                args: exprs_view(args@),
            },
            Stmt::Comment(text) => StmtView::Comment(text@),
            Stmt::Copy { dst, src } => StmtView::Copy { dst: dst.0 as nat, src: src@ },
            Stmt::Eval { dst, src } => StmtView::Eval { dst: dst.0 as nat, src: src@ },
            Stmt::Handler(bid) => StmtView::Handler(*bid),
            Stmt::Jmp { targets, args } => StmtView::Jmp {
                targets: targets@,
                args: exprs_view(args@),
            },
            Stmt::Label { bid, params } => StmtView::Label {
                bid: *bid,
                params: sids_view(params@),
            },
            Stmt::Load { dst, ty, src } => StmtView::Load {
                dst: dst.0 as nat,
                ty: *ty,
                src: src@,
            },
            Stmt::LoadStaticClass { dst, class } => StmtView::LoadStaticClass {
                dst: dst.0 as nat,
                class: *class,
            },
            Stmt::Loc(loc) => StmtView::Loc(*loc),
            Stmt::MemberOp { dst, iid, operands } => StmtView::MemberOp {
                dst: dst.0 as nat,
                iid: *iid,
                operands: exprs_view(operands@),
            },
            Stmt::Prune(e) => StmtView::Prune(e@),
            Stmt::PruneNot(e) => StmtView::PruneNot(e@),
            Stmt::Ret(e) => StmtView::Ret(e@),
            Stmt::Store { place, src, ty } => StmtView::Store {
                place: place@,
                src: src@,
                ty: *ty,
            },
            Stmt::Unreachable => StmtView::Unreachable,
        }
    }
}

/// The views of a sequence of statements.
pub open spec fn stmts_view(stmts: Seq<Stmt>) -> Seq<StmtView> {
    stmts.map_values(|s: Stmt| s@)
}

/// The values that a statement defines.
pub open spec fn stmt_defs(stmt: StmtView) -> Seq<nat> {
    match stmt {
        StmtView::Call { dst, .. } => seq![dst],
        StmtView::CallStatic { dst, .. } => seq![dst],
        StmtView::CallVirtual { dst, .. } => seq![dst],
        StmtView::Copy { dst, .. } => seq![dst],
        StmtView::Eval { dst, .. } => seq![dst],
        StmtView::Label { params, .. } => params,
        StmtView::Load { dst, .. } => seq![dst],
        StmtView::LoadStaticClass { dst, .. } => seq![dst],
        StmtView::MemberOp { dst, .. } => seq![dst],
        _ => Seq::empty(),
    }
}

/// Whether an expression mentions the value `sid`.
pub open spec fn expr_uses(e: ExprView, sid: nat) -> bool
    decreases e,
{
    match e {
        ExprView::Call { args, .. } => exists|i: int|
            0 <= i < args.len() && expr_uses(#[trigger] args[i], sid),
        ExprView::Sid(s) => s == sid,
        _ => false,
    }
}

/// Whether one of the expressions mentions the value `sid`.
pub open spec fn exprs_use(args: Seq<ExprView>, sid: nat) -> bool {
    exists|i: int| 0 <= i < args.len() && #[trigger] expr_uses(args[i], sid)
}

/// Whether a statement mentions the value `sid` other than to define it.
pub open spec fn stmt_uses(stmt: StmtView, sid: nat) -> bool {
    match stmt {
        StmtView::Call { args, .. } => exprs_use(args, sid),
        StmtView::CallStatic { this, args, .. } => expr_uses(this, sid) || exprs_use(args, sid),
        StmtView::CallVirtual { this, args, .. } => expr_uses(this, sid) || exprs_use(args, sid),
        StmtView::Copy { src, .. } => expr_uses(src, sid),
        StmtView::Eval { src, .. } => expr_uses(src, sid),
        StmtView::Jmp { args, .. } => exprs_use(args, sid),
        StmtView::Load { src, .. } => expr_uses(src, sid),
        StmtView::MemberOp { operands, .. } => exprs_use(operands, sid),
        StmtView::Prune(e) => expr_uses(e, sid),
        StmtView::PruneNot(e) => expr_uses(e, sid),
        StmtView::Ret(e) => expr_uses(e, sid),
        StmtView::Store { place, src, .. } => expr_uses(place, sid) || expr_uses(src, sid),
        _ => false,
    }
}

/// Every value that the expression mentions is numbered below `n`.
pub open spec fn expr_below(e: ExprView, n: nat) -> bool {
    forall|sid: nat| #[trigger] expr_uses(e, sid) ==> sid < n
}

/// Every value that one of the expressions mentions is numbered below `n`.
pub open spec fn exprs_below(args: Seq<ExprView>, n: nat) -> bool {
    forall|i: int| 0 <= i < args.len() ==> expr_below(#[trigger] args[i], n)
}

/// `b` starts with all of `a`.
pub open spec fn starts_with<A>(b: Seq<A>, a: Seq<A>) -> bool {
    a.len() <= b.len() && forall|i: int| 0 <= i < a.len() ==> #[trigger] b[i] == a[i]
}

/// A function body under construction: the statements so far and the number of
/// the next value.
pub ghost struct BodyView {
    pub stmts: Seq<StmtView>,
    pub next: nat,
}

impl BodyView {
    /// Values are numbered in the order in which they are defined, so that none
    /// is defined twice.
    #[verifier::opaque]
    pub open spec fn ordered(self) -> bool {
        &&& forall|i: int, a: int|
            0 <= i < self.stmts.len() && 0 <= a < stmt_defs(self.stmts[i]).len()
                ==> #[trigger] stmt_defs(self.stmts[i])[a] < self.next
        &&& forall|i: int, a: int, j: int, b: int|
            0 <= i <= j < self.stmts.len() && 0 <= a < stmt_defs(self.stmts[i]).len() && 0 <= b
                < stmt_defs(self.stmts[j]).len() && (i < j || a < b)
                ==> #[trigger] stmt_defs(self.stmts[i])[a] < #[trigger] stmt_defs(self.stmts[j])[b]
    }

    /// No statement mentions a value that is defined there or later.
    #[verifier::opaque]
    pub open spec fn scoped(self) -> bool {
        &&& forall|i: int, sid: nat|
            0 <= i < self.stmts.len() && #[trigger] stmt_uses(self.stmts[i], sid) ==> sid
                < self.next
        &&& forall|i: int, sid: nat, j: int, b: int|
            0 <= i <= j < self.stmts.len() && #[trigger] stmt_uses(self.stmts[i], sid) && 0 <= b
                < stmt_defs(self.stmts[j]).len() ==> sid < #[trigger] stmt_defs(
                self.stmts[j],
            )[b]
    }

    /// One more statement, which defines no new value.
    pub open spec fn plus(self, stmt: StmtView) -> BodyView {
        BodyView { stmts: self.stmts.push(stmt), next: self.next }
    }

    /// One more statement, which defines the next value.
    pub open spec fn define(self, stmt: StmtView) -> BodyView {
        BodyView { stmts: self.stmts.push(stmt), next: self.next + 1 }
    }

    pub open spec fn call(self, target: NameView, args: Seq<ExprView>) -> BodyView {
        self.define(StmtView::Call { dst: self.next, target, args })
    }

    pub open spec fn call_static(
        self,
        target: NameView,
        this: ExprView,
        args: Seq<ExprView>,
    ) -> BodyView {
        self.define(StmtView::CallStatic { dst: self.next, target, this, args })
    }

    pub open spec fn call_virtual(
        self,
        target: NameView,
        this: ExprView,
        args: Seq<ExprView>,
    ) -> BodyView {
        self.define(StmtView::CallVirtual { dst: self.next, target, this, args })
    }

    pub open spec fn comment(self, text: Seq<char>) -> BodyView {
        self.plus(StmtView::Comment(text))
    }

    pub open spec fn copy(self, src: ExprView) -> BodyView {
        self.define(StmtView::Copy { dst: self.next, src })
    }

    pub open spec fn eval(self, src: ExprView) -> BodyView {
        self.define(StmtView::Eval { dst: self.next, src })
    }

    pub open spec fn jmp(self, targets: Seq<BlockId>, args: Seq<ExprView>) -> BodyView {
        self.plus(StmtView::Jmp { targets, args })
    }

    pub open spec fn load(self, ty: Ty, src: ExprView) -> BodyView {
        self.define(StmtView::Load { dst: self.next, ty, src })
    }

    pub open spec fn load_static_class(self, class: ClassId) -> BodyView {
        self.define(StmtView::LoadStaticClass { dst: self.next, class })
    }

    pub open spec fn member_op(self, iid: InstrId, operands: Seq<ExprView>) -> BodyView {
        self.define(StmtView::MemberOp { dst: self.next, iid, operands })
    }

    pub open spec fn store(self, place: ExprView, src: ExprView, ty: Ty) -> BodyView {
        self.plus(StmtView::Store { place, src, ty })
    }

    /// The next value, as an expression.
    pub open spec fn next_sid(self) -> ExprView {
        ExprView::Sid(self.next)
    }
}

/// Collects the statements of a function body and numbers its values.
#[derive(Debug)]
pub struct FuncBuilder {
    pub stmts: Vec<Stmt>,
    pub next_sid: usize,
}

impl View for FuncBuilder {
    type V = BodyView;

    open spec fn view(&self) -> BodyView {
        BodyView { stmts: stmts_view(self.stmts@), next: self.next_sid as nat }
    }
}

/// A statement that defines no value keeps the numbering and the scoping of a
/// body whose values it mentions.
proof fn lemma_plus(b: BodyView, stmt: StmtView)
    requires
        stmt_defs(stmt).len() == 0,
    ensures
        b.ordered() ==> b.plus(stmt).ordered(),
        b.scoped() && (forall|sid: nat| #[trigger] stmt_uses(stmt, sid) ==> sid < b.next)
            ==> b.plus(stmt).scoped(),
{
    reveal(BodyView::ordered);
    reveal(BodyView::scoped);
    let c = b.plus(stmt);
    assert(forall|i: int| 0 <= i < b.stmts.len() ==> c.stmts[i] == b.stmts[i]);
}

/// So does a statement that defines the next value.
proof fn lemma_define(b: BodyView, stmt: StmtView)
    requires
        stmt_defs(stmt) == seq![b.next],
    ensures
        b.ordered() ==> b.define(stmt).ordered(),
        b.scoped() && (forall|sid: nat| #[trigger] stmt_uses(stmt, sid) ==> sid < b.next)
            ==> b.define(stmt).scoped(),
{
    reveal(BodyView::ordered);
    reveal(BodyView::scoped);
    let c = b.define(stmt);
    assert(forall|i: int| 0 <= i < b.stmts.len() ==> c.stmts[i] == b.stmts[i]);
}

impl FuncBuilder {
    pub fn new() -> (r: FuncBuilder)
        ensures
            r@ == (BodyView { stmts: Seq::empty(), next: 0 }),
            r@.ordered(),
            r@.scoped(),
    {
        let r = FuncBuilder { stmts: Vec::new(), next_sid: 0 };
        proof {
            reveal(BodyView::ordered);
            reveal(BodyView::scoped);
            assert(r@.stmts =~= Seq::<StmtView>::empty());
        }
        r
    }

    fn push_plus(&mut self, stmt: Stmt)
        requires
            stmt_defs(stmt@).len() == 0,
        ensures
            final(self)@ == old(self)@.plus(stmt@),
            old(self)@.ordered() ==> final(self)@.ordered(),
            old(self)@.scoped() && (forall|sid: nat| #[trigger]
                stmt_uses(stmt@, sid) ==> sid < old(self)@.next) ==> final(self)@.scoped(),
    {
        proof {
            lemma_plus(self@, stmt@);
        }
        self.stmts.push(stmt);
        assert(self@.stmts =~= old(self)@.stmts.push(stmt@));
    }

    fn push_define(&mut self, stmt: Stmt)
        requires
            old(self).next_sid < usize::MAX,
            stmt_defs(stmt@) == seq![old(self)@.next],
        ensures
            final(self)@ == old(self)@.define(stmt@),
            old(self)@.ordered() ==> final(self)@.ordered(),
            old(self)@.scoped() && (forall|sid: nat| #[trigger]
                stmt_uses(stmt@, sid) ==> sid < old(self)@.next) ==> final(self)@.scoped(),
    {
        proof {
            lemma_define(self@, stmt@);
        }
        self.stmts.push(stmt);
        self.next_sid = self.next_sid + 1;
        assert(self@.stmts =~= old(self)@.stmts.push(stmt@));
    }

    /// A new value, which no statement defines yet.
    pub fn alloc_sid(&mut self) -> (r: Sid)
        requires
            old(self).next_sid < usize::MAX,
        ensures
            r.0 == old(self)@.next,
            final(self)@ == (BodyView { stmts: old(self)@.stmts, next: old(self)@.next + 1 }),
            old(self)@.ordered() ==> final(self)@.ordered(),
            old(self)@.scoped() ==> final(self)@.scoped(),
    {
        proof {
            reveal(BodyView::ordered);
            reveal(BodyView::scoped);
        }
        let sid = Sid(self.next_sid);
        self.next_sid = self.next_sid + 1;
        sid
    }

    /// Call a function and name its result.
    pub fn call(&mut self, target: Name, args: Vec<Expr>) -> (r: Sid)
        requires
            old(self).next_sid < usize::MAX,
        ensures
            r.0 == old(self)@.next,
            final(self)@ == old(self)@.call(target@, exprs_view(args@)),
            old(self)@.ordered() ==> final(self)@.ordered(),
            old(self)@.scoped() && exprs_below(exprs_view(args@), old(self)@.next)
                ==> final(self)@.scoped(),
    {
        let dst = Sid(self.next_sid);
        self.push_define(Stmt::Call { dst, target, args });
        dst
    }

    /// Call a function that takes `this`.
    pub fn call_static(&mut self, target: Name, this: Expr, args: Vec<Expr>) -> (r: Sid)
        requires
            old(self).next_sid < usize::MAX,
        ensures
            r.0 == old(self)@.next,
            final(self)@ == old(self)@.call_static(target@, this@, exprs_view(args@)),
            old(self)@.ordered() ==> final(self)@.ordered(),
            old(self)@.scoped() && expr_below(this@, old(self)@.next) && exprs_below(
                exprs_view(args@),
                old(self)@.next,
            ) ==> final(self)@.scoped(),
    {
        let dst = Sid(self.next_sid);
        self.push_define(Stmt::CallStatic { dst, target, this, args });
        dst
    }

    /// Call a method through the class of `this`.
    pub fn call_virtual(&mut self, target: Name, this: Expr, args: Vec<Expr>) -> (r: Sid)
        requires
            old(self).next_sid < usize::MAX,
        ensures
            r.0 == old(self)@.next,
            final(self)@ == old(self)@.call_virtual(target@, this@, exprs_view(args@)),
            old(self)@.ordered() ==> final(self)@.ordered(),
            old(self)@.scoped() && expr_below(this@, old(self)@.next) && exprs_below(
                exprs_view(args@),
                old(self)@.next,
            ) ==> final(self)@.scoped(),
    {
        let dst = Sid(self.next_sid);
        self.push_define(Stmt::CallVirtual { dst, target, this, args });
        dst
    }

    /// Add a comment.
    pub fn comment(&mut self, text: &str)
        ensures
            final(self)@ == old(self)@.comment(text@),
            old(self)@.ordered() ==> final(self)@.ordered(),
            old(self)@.scoped() ==> final(self)@.scoped(),
    {
        self.push_plus(Stmt::Comment(text.to_owned()));
    }

    /// Name a copy of a value.
    pub fn copy(&mut self, src: Expr) -> (r: Sid)
        requires
            old(self).next_sid < usize::MAX,
        ensures
            r.0 == old(self)@.next,
            final(self)@ == old(self)@.copy(src@),
            old(self)@.ordered() ==> final(self)@.ordered(),
            old(self)@.scoped() && expr_below(src@, old(self)@.next) ==> final(self)@.scoped(),
    {
        let dst = Sid(self.next_sid);
        self.push_define(Stmt::Copy { dst, src });
        dst
    }

    /// Jump to one of the targets.
    pub fn jmp(&mut self, targets: Vec<BlockId>, args: Vec<Expr>)
        ensures
            final(self)@ == old(self)@.jmp(targets@, exprs_view(args@)),
            old(self)@.ordered() ==> final(self)@.ordered(),
            old(self)@.scoped() && exprs_below(exprs_view(args@), old(self)@.next)
                ==> final(self)@.scoped(),
    {
        self.push_plus(Stmt::Jmp { targets, args });
    }

    /// Name what `src` holds.
    pub fn load(&mut self, ty: Ty, src: Expr) -> (r: Sid)
        requires
            old(self).next_sid < usize::MAX,
        ensures
            r.0 == old(self)@.next,
            final(self)@ == old(self)@.load(ty, src@),
            old(self)@.ordered() ==> final(self)@.ordered(),
            old(self)@.scoped() && expr_below(src@, old(self)@.next) ==> final(self)@.scoped(),
    {
        let dst = Sid(self.next_sid);
        self.push_define(Stmt::Load { dst, ty, src });
        dst
    }

    /// Name the singleton that holds the static side of a class.
    pub fn load_static_class(&mut self, class: ClassId) -> (r: Sid)
        requires
            old(self).next_sid < usize::MAX,
        ensures
            r.0 == old(self)@.next,
            final(self)@ == old(self)@.load_static_class(class),
            old(self)@.ordered() ==> final(self)@.ordered(),
            old(self)@.scoped() ==> final(self)@.scoped(),
    {
        let dst = Sid(self.next_sid);
        self.push_define(Stmt::LoadStaticClass { dst, class });
        dst
    }

    /// Perform the member operation of an instruction and name its value.
    pub fn member_op(&mut self, iid: InstrId, operands: Vec<Expr>) -> (r: Sid)
        requires
            old(self).next_sid < usize::MAX,
        ensures
            r.0 == old(self)@.next,
            final(self)@ == old(self)@.member_op(iid, exprs_view(operands@)),
            old(self)@.ordered() ==> final(self)@.ordered(),
            old(self)@.scoped() && exprs_below(exprs_view(operands@), old(self)@.next)
                ==> final(self)@.scoped(),
    {
        let dst = Sid(self.next_sid);
        self.push_define(Stmt::MemberOp { dst, iid, operands });
        dst
    }

    /// Stop along this path if the expression is not true.
    pub fn prune(&mut self, e: Expr)
        ensures
            final(self)@ == old(self)@.plus(StmtView::Prune(e@)),
            old(self)@.ordered() ==> final(self)@.ordered(),
            old(self)@.scoped() && expr_below(e@, old(self)@.next) ==> final(self)@.scoped(),
    {
        self.push_plus(Stmt::Prune(e));
    }

    /// Stop along this path if the expression is true.
    pub fn prune_not(&mut self, e: Expr)
        ensures
            final(self)@ == old(self)@.plus(StmtView::PruneNot(e@)),
            old(self)@.ordered() ==> final(self)@.ordered(),
            old(self)@.scoped() && expr_below(e@, old(self)@.next) ==> final(self)@.scoped(),
    {
        self.push_plus(Stmt::PruneNot(e));
    }

    /// Return a value.
    pub fn ret(&mut self, e: Expr)
        ensures
            final(self)@ == old(self)@.plus(StmtView::Ret(e@)),
            old(self)@.ordered() ==> final(self)@.ordered(),
            old(self)@.scoped() && expr_below(e@, old(self)@.next) ==> final(self)@.scoped(),
    {
        self.push_plus(Stmt::Ret(e));
    }

    /// Store a value.
    pub fn store(&mut self, place: Expr, src: Expr, ty: Ty)
        ensures
            final(self)@ == old(self)@.store(place@, src@, ty),
            old(self)@.ordered() ==> final(self)@.ordered(),
            old(self)@.scoped() && expr_below(place@, old(self)@.next) && expr_below(
                src@,
                old(self)@.next,
            ) ==> final(self)@.scoped(),
    {
        self.push_plus(Stmt::Store { place, src, ty });
    }

    /// Mark the end of a path that is never taken.
    pub fn unreachable(&mut self)
        ensures
            final(self)@ == old(self)@.plus(StmtView::Unreachable),
            old(self)@.ordered() ==> final(self)@.ordered(),
            old(self)@.scoped() ==> final(self)@.scoped(),
    {
        self.push_plus(Stmt::Unreachable);
    }

    /// Name the handler of the block that ends here.
    pub fn write_exception_handler(&mut self, target: BlockId)
        ensures
            final(self)@ == old(self)@.plus(StmtView::Handler(target)),
            old(self)@.ordered() ==> final(self)@.ordered(),
            old(self)@.scoped() ==> final(self)@.scoped(),
    {
        self.push_plus(Stmt::Handler(target));
    }

    /// Name the value of an expression.
    pub fn write_expr_stmt(&mut self, src: Expr) -> (r: Sid)
        requires
            old(self).next_sid < usize::MAX,
        ensures
            r.0 == old(self)@.next,
            final(self)@ == old(self)@.eval(src@),
            old(self)@.ordered() ==> final(self)@.ordered(),
            old(self)@.scoped() && expr_below(src@, old(self)@.next) ==> final(self)@.scoped(),
    {
        let dst = Sid(self.next_sid);
        self.push_define(Stmt::Eval { dst, src });
        dst
    }

    /// Give the source location of what follows.
    pub fn write_loc(&mut self, loc: SrcLoc)
        ensures
            final(self)@ == old(self)@.plus(StmtView::Loc(loc)),
            old(self)@.ordered() ==> final(self)@.ordered(),
            old(self)@.scoped() ==> final(self)@.scoped(),
    {
        self.push_plus(Stmt::Loc(loc));
    }

    /// Start a block whose parameters are the given values. They are the last
    /// ones that were made, where the body keeps its numbering.
    pub fn write_label(&mut self, bid: BlockId, params: Vec<Sid>)
        ensures
            final(self)@ == old(self)@.plus(StmtView::Label { bid, params: sids_view(params@) }),
            label_fits(old(self)@, sids_view(params@)) && old(self)@.ordered()
                ==> final(self)@.ordered(),
            label_fits(old(self)@, sids_view(params@)) && old(self)@.scoped()
                ==> final(self)@.scoped(),
    {
        let ghost label = StmtView::Label { bid, params: sids_view(params@) };
        self.stmts.push(Stmt::Label { bid, params });
        proof {
            reveal(BodyView::ordered);
            reveal(BodyView::scoped);
            assert(self@.stmts =~= old(self)@.stmts.push(label));
            assert(forall|i: int| 0 <= i < old(self)@.stmts.len() ==> self@.stmts[i] == old(
                self,
            )@.stmts[i]);
        }
    }
}

/// The values are made already, in ascending order, and after every one that the
/// body defines or mentions.
pub open spec fn label_fits(b: BodyView, params: Seq<nat>) -> bool {
    &&& forall|a: int| 0 <= a < params.len() ==> #[trigger] params[a] < b.next
    &&& forall|a: int, c: int| 0 <= a < c < params.len() ==> params[a] < params[c]
    &&& forall|i: int, d: int, a: int|
        0 <= i < b.stmts.len() && 0 <= d < stmt_defs(b.stmts[i]).len() && 0 <= a < params.len()
            ==> #[trigger] stmt_defs(b.stmts[i])[d] < #[trigger] params[a]
    &&& forall|i: int, sid: nat, a: int|
        0 <= i < b.stmts.len() && #[trigger] stmt_uses(b.stmts[i], sid) && 0 <= a < params.len()
            ==> sid < #[trigger] params[a]
}

} // verus!
