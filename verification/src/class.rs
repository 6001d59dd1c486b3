//! Classes as Textual sees them: each has an instance type and a type for its
//! static side.

use vstd::prelude::*;

use crate::ir::ClassId;
use crate::textual::Ty;

verus! {

#[derive(Clone, Copy, Debug, PartialEq, Eq, Structural)]
pub enum IsStatic {
    Static,
    NonStatic,
}

/// The type of `$this` in a method of the class.
pub fn class_ty(class: ClassId, is_static: IsStatic) -> (r: Ty)
    ensures
        r == (Ty::ClassPtr { class, is_static }),
{
    Ty::ClassPtr { class, is_static }
}

/// The type of a reference to an instance of the class.
pub fn non_static_ty(class: ClassId) -> (r: Ty)
    ensures
        r == (Ty::ClassPtr { class, is_static: IsStatic::NonStatic }),
{
    class_ty(class, IsStatic::NonStatic)
}

} // verus!
