//! The built-in functions that the emitted code calls.

use vstd::prelude::*;

use crate::textual::{exprs_view, lemma_call_view, Expr, ExprView, Name, NameView};

verus! {

/// Built-ins that stand for an instruction of the virtual machine.
#[derive(Clone, Copy, Debug, PartialEq, Eq, Structural)]
pub enum Hhbc {
    Add,
    Exit,
    Fatal,
    NewColImmMap,
    NewColImmSet,
    NewColImmVector,
    NewColMap,
    NewColPair,
    NewColSet,
    NewColVector,
    Sub,
}

#[derive(Clone, Copy, Debug, PartialEq, Eq, Structural)]
pub enum Builtin {
    Await,
    Bool,
    Float,
    GetStaticClass,
    Hhbc(Hhbc),
    Int,
    IsTrue,
    String,
}

/// The expression that applies a built-in.
pub open spec fn builtin_view(target: Builtin, args: Seq<ExprView>) -> ExprView {
    ExprView::Call { target: NameView::Builtin(target), args }
}

pub fn expr_builtin(target: Builtin, args: Vec<Expr>) -> (r: Expr)
    ensures
        r@ == builtin_view(target, exprs_view(args@)),
{
    proof {
        lemma_call_view(Name::Builtin(target), args);
    }
    Expr::Call { target: Name::Builtin(target), args }
}

} // verus!
