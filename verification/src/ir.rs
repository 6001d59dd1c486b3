//! The intermediate representation, as far as the Textual back end reads it.

use ascii::AsciiString;
use vstd::prelude::*;

use crate::strings::UnitBytesId;

verus! {

/// A basic block of a function: its position among the function's blocks.
#[derive(Clone, Copy, Debug, PartialEq, Eq, Structural)]
pub struct BlockId(pub usize);

/// The position of a function's first block.
pub const ENTRY_BLOCK: usize = 0;

/// An instruction of a function: its position among the instructions.
#[derive(Clone, Copy, Debug, PartialEq, Eq, Structural)]
pub struct InstrId(pub usize);

/// A constant of a function: its position among the constants.
#[derive(Clone, Copy, Debug, PartialEq, Eq, Structural)]
pub struct ConstantId(pub usize);

/// A source location of a function: its position among the locations.
#[derive(Clone, Copy, Debug, PartialEq, Eq, Structural)]
pub struct LocId(pub usize);

#[derive(Clone, Copy, Debug, PartialEq, Eq, Structural)]
pub struct ClassId {
    pub id: UnitBytesId,
}

#[derive(Clone, Copy, Debug, PartialEq, Eq, Structural)]
pub struct MethodId {
    pub id: UnitBytesId,
}

#[derive(Clone, Copy, Debug, PartialEq, Eq, Structural)]
pub struct FunctionId {
    pub id: UnitBytesId,
}

/// A constant of a class.
#[derive(Clone, Copy, Debug, PartialEq, Eq, Structural)]
pub struct ConstId {
    pub id: UnitBytesId,
}

/// An enforced type of the unit, by its position in the unit's type table.
#[derive(Clone, Copy, Debug, PartialEq, Eq, Structural)]
pub struct EnforcedTy(pub usize);

/// An array literal of the unit, by its position in the unit's literal table.
#[derive(Clone, Copy, Debug, PartialEq, Eq, Structural)]
pub struct ArrayId(pub usize);

/// A floating point number by its IEEE 754 bit pattern.
#[derive(Clone, Copy, Debug, PartialEq, Eq, Structural)]
pub struct FloatBits(pub u64);

/// The number of a local that has no name in the source.
#[derive(Clone, Copy, Debug, PartialEq, Eq, Structural)]
pub struct UnnamedLocalId {
    pub idx: usize,
}

#[derive(Clone, Copy, Debug, PartialEq, Eq, Structural)]
pub enum LocalId {
    Named(UnitBytesId),
    Unnamed(UnnamedLocalId),
}

/// What an instruction takes as an operand.
#[derive(Clone, Copy, Debug, PartialEq, Eq, Structural)]
pub enum ValueId {
    Instr(InstrId),
    Constant(ConstantId),
    Absent,
}

#[derive(Clone, Copy, Debug, PartialEq, Eq, Structural)]
pub struct SrcLoc {
    pub filename: UnitBytesId,
    pub line_begin: i32,
    pub col_begin: i32,
    pub line_end: i32,
    pub col_end: i32,
}

#[derive(Clone, Copy, Debug, PartialEq, Eq, Structural)]
pub enum CollectionType {
    ImmMap,
    ImmSet,
    ImmVector,
    MutMap,
    MutSet,
    Pair,
    Vector,
}

#[derive(Clone, Copy, Debug, PartialEq, Eq, Structural)]
pub enum Constant {
    Array(ArrayId),
    Bool(bool),
    Dir,
    File,
    Float(FloatBits),
    FuncCred,
    Int(i64),
    Method,
    Named(UnitBytesId),
    NewCol(CollectionType),
    Null,
    String(UnitBytesId),
    Uninit,
}

#[derive(Clone, Copy, Debug, PartialEq, Eq, Structural)]
pub enum IncDecOp {
    PreInc,
    PostInc,
    PreDec,
    PostDec,
}

/// An instruction of the virtual machine. Those that the back end has no form
/// of its own for are `Other`, with their printed text.
#[derive(Debug)]
pub enum Hhbc {
    CGetL(LocalId, Option<LocId>),
    CUGetL(LocalId, Option<LocId>),
    ClsCnsD(ConstId, ClassId, Option<LocId>),
    ConsumeL(LocalId, Option<LocId>),
    CreateCl { operands: Vec<ValueId>, clsid: ClassId, loc: Option<LocId> },
    IncDecL(LocalId, IncDecOp, Option<LocId>),
    ResolveClass(ClassId, Option<LocId>),
    SelfCls(Option<LocId>),
    SetL(ValueId, LocalId, Option<LocId>),
    This(Option<LocId>),
    UnsetL(LocalId, Option<LocId>),
    Other { text: String, operands: Vec<ValueId>, locals: Vec<LocalId>, loc: Option<LocId> },
}

/// Instructions that exist for the Textual back end only.
#[derive(Debug)]
pub enum Textual {
    /// Stop along this path if the value is true.
    AssertFalse(ValueId, Option<LocId>),
    /// Stop along this path if the value is not true.
    AssertTrue(ValueId, Option<LocId>),
    /// The local itself, for use as an operand.
    Deref(LocalId),
    HackBuiltin { target: String, values: Vec<ValueId>, loc: Option<LocId> },
    String(UnitBytesId),
}

#[derive(Debug)]
pub enum Special {
    Copy(ValueId),
    IrToBc,
    Param,
    Select(ValueId, u32),
    Textual(Textual),
    Tmp,
    Tombstone,
}

/// A chain of member accesses, by its operands and the locals that it names.
#[derive(Debug)]
pub struct MemberOp {
    pub operands: Vec<ValueId>,
    pub locals: Vec<LocalId>,
    pub loc: Option<LocId>,
}

/// When a conditional jump goes to its first target.
#[derive(Clone, Copy, Debug, PartialEq, Eq, Structural)]
pub enum Predicate {
    NonZero,
    Zero,
}

/// The instruction that ends a block. Those that the back end has no form of
/// its own for are `Other`, with their printed text.
#[derive(Debug)]
pub enum Terminator {
    Enter(BlockId, Option<LocId>),
    Exit(ValueId, Option<LocId>),
    Fatal(ValueId, Option<LocId>),
    Jmp(BlockId, Option<LocId>),
    JmpArgs(BlockId, Vec<ValueId>, Option<LocId>),
    JmpOp {
        cond: ValueId,
        pred: Predicate,
        true_bid: BlockId,
        false_bid: BlockId,
        loc: Option<LocId>,
    },
    Ret(ValueId, Option<LocId>),
    Throw(ValueId, Option<LocId>),
    Unreachable,
    Other { text: String, locals: Vec<LocalId>, loc: Option<LocId> },
}

#[derive(Clone, Copy, Debug, PartialEq, Eq, Structural)]
pub enum ObjMethodOp {
    NullThrows,
    NullSafe,
}

#[derive(Clone, Copy, Debug, PartialEq, Eq, Structural)]
pub enum SpecialClsRef {
    LateBoundCls,
    ParentCls,
    SelfCls,
}

/// How a call finds its callee.
#[derive(Clone, Copy, Debug, PartialEq, Eq, Structural)]
pub enum CallDetail {
    FCallClsMethod,
    FCallClsMethodD { clsid: ClassId, method: MethodId },
    FCallClsMethodM,
    FCallClsMethodS,
    FCallClsMethodSD { clsref: SpecialClsRef, method: MethodId },
    FCallCtor,
    FCallFunc,
    FCallFuncD { func: FunctionId },
    FCallObjMethod,
    FCallObjMethodD { flavor: ObjMethodOp, method: MethodId, obj: ValueId },
}

#[derive(Clone, Copy, Debug, PartialEq, Eq, Structural)]
pub struct FCallArgsFlags {
    pub has_unpack: bool,
    pub has_generics: bool,
    pub lock_while_unwinding: bool,
    pub skip_repack: bool,
    pub skip_coeffects_check: bool,
    pub enforce_mutable_return: bool,
    pub enforce_readonly_this: bool,
    pub explicit_context: bool,
    pub has_in_out: bool,
    pub enforce_in_out: bool,
    pub enforce_readonly: bool,
    pub has_async_eager_offset: bool,
    pub num_args_start: bool,
}

/// A call. `args` are the arguments alone, without what names the callee.
#[derive(Debug)]
pub struct Call {
    pub args: Vec<ValueId>,
    pub context: Option<UnitBytesId>,
    pub detail: CallDetail,
    pub flags: FCallArgsFlags,
    pub num_rets: u32,
    pub inouts: Option<Vec<u32>>,
    pub readonly: Option<Vec<u32>>,
    pub loc: Option<LocId>,
}

#[derive(Debug)]
pub enum Instr {
    Call(Call),
    Hhbc(Hhbc),
    MemberOp(MemberOp),
    Special(Special),
    Terminator(Terminator),
}

/// A straight run of instructions; the last one is the terminator.
#[derive(Debug)]
pub struct Block {
    pub params: Vec<InstrId>,
    pub iids: Vec<InstrId>,
    /// The block that handles what is thrown in this one.
    pub catch_target: Option<BlockId>,
}

/// A parameter: its name in the source, that name with everything escaped that
/// Textual cannot hold in a name, and its type.
#[derive(Debug)]
pub struct Param {
    pub name: UnitBytesId,
    pub escaped: AsciiString,
    pub ty: EnforcedTy,
}

#[derive(Debug)]
pub struct Func {
    pub blocks: Vec<Block>,
    pub constants: Vec<Constant>,
    pub instrs: Vec<Instr>,
    pub loc_id: LocId,
    pub locs: Vec<SrcLoc>,
    pub params: Vec<Param>,
    pub return_type: EnforcedTy,
}

#[derive(Clone, Copy, Debug, PartialEq, Eq, Structural)]
pub struct Class {
    pub name: ClassId,
    pub base: Option<ClassId>,
}

/// The source location of a terminator.
pub open spec fn terminator_loc(t: Terminator) -> Option<LocId> {
    match t {
        Terminator::Enter(_, loc) => loc,
        Terminator::Exit(_, loc) => loc,
        Terminator::Fatal(_, loc) => loc,
        Terminator::Jmp(_, loc) => loc,
        Terminator::JmpArgs(_, _, loc) => loc,
        Terminator::JmpOp { loc, .. } => loc,
        Terminator::Ret(_, loc) => loc,
        Terminator::Throw(_, loc) => loc,
        Terminator::Unreachable => None,
        Terminator::Other { loc, .. } => loc,
    }
}

/// The source location of an instruction of the virtual machine.
pub open spec fn hhbc_loc(h: Hhbc) -> Option<LocId> {
    match h {
        Hhbc::CGetL(_, loc) => loc,
        Hhbc::CUGetL(_, loc) => loc,
        Hhbc::ClsCnsD(_, _, loc) => loc,
        Hhbc::ConsumeL(_, loc) => loc,
        Hhbc::CreateCl { loc, .. } => loc,
        Hhbc::IncDecL(_, _, loc) => loc,
        Hhbc::ResolveClass(_, loc) => loc,
        Hhbc::SelfCls(loc) => loc,
        Hhbc::SetL(_, _, loc) => loc,
        Hhbc::This(loc) => loc,
        Hhbc::UnsetL(_, loc) => loc,
        Hhbc::Other { loc, .. } => loc,
    }
}

/// The source location of an instruction. Special instructions have none,
/// except those that assert or call.
pub open spec fn instr_loc(instr: Instr) -> Option<LocId> {
    match instr {
        Instr::Call(call) => call.loc,
        Instr::Hhbc(h) => hhbc_loc(h),
        Instr::MemberOp(mop) => mop.loc,
        Instr::Special(Special::Textual(Textual::AssertFalse(_, loc))) => loc,
        Instr::Special(Special::Textual(Textual::AssertTrue(_, loc))) => loc,
        Instr::Special(Special::Textual(Textual::HackBuiltin { loc, .. })) => loc,
        Instr::Special(_) => None,
        Instr::Terminator(t) => terminator_loc(t),
    }
}

/// The locals that an instruction names.
pub open spec fn instr_locals(instr: Instr) -> Seq<LocalId> {
    match instr {
        Instr::Hhbc(Hhbc::CGetL(lid, _)) => seq![lid],
        Instr::Hhbc(Hhbc::CUGetL(lid, _)) => seq![lid],
        Instr::Hhbc(Hhbc::ConsumeL(lid, _)) => seq![lid],
        Instr::Hhbc(Hhbc::IncDecL(lid, _, _)) => seq![lid],
        Instr::Hhbc(Hhbc::SetL(_, lid, _)) => seq![lid],
        Instr::Hhbc(Hhbc::UnsetL(lid, _)) => seq![lid],
        Instr::Hhbc(Hhbc::Other { locals, .. }) => locals@,
        Instr::MemberOp(mop) => mop.locals@,
        Instr::Special(Special::Textual(Textual::Deref(lid))) => seq![lid],
        Instr::Terminator(Terminator::Other { locals, .. }) => locals@,
        _ => Seq::empty(),
    }
}

/// The operands of a call: its arguments, and the object whose method is called.
pub open spec fn call_operands(call: Call) -> Seq<ValueId> {
    match call.detail {
        CallDetail::FCallObjMethodD { obj, .. } => call.args@.push(obj),
        _ => call.args@,
    }
}

/// The operands that what an instruction becomes mentions. A copy has none: it
/// evaluates a constant itself, and emits nothing for an instruction. Nor has a
/// conditional jump, whose condition the assertions at its targets mention.
pub open spec fn mentioned_operands(instr: Instr) -> Seq<ValueId> {
    match instr {
        Instr::Call(call) => call_operands(call),
        Instr::Hhbc(Hhbc::CreateCl { operands, .. }) => operands@,
        Instr::Hhbc(Hhbc::SetL(vid, _, _)) => seq![vid],
        Instr::Hhbc(Hhbc::Other { operands, .. }) => operands@,
        Instr::MemberOp(mop) => mop.operands@,
        Instr::Special(Special::Select(vid, _)) => seq![vid],
        Instr::Special(Special::Textual(Textual::AssertFalse(vid, _))) => seq![vid],
        Instr::Special(Special::Textual(Textual::AssertTrue(vid, _))) => seq![vid],
        Instr::Special(Special::Textual(Textual::HackBuiltin { values, .. })) => values@,
        Instr::Terminator(Terminator::Exit(vid, _)) => seq![vid],
        Instr::Terminator(Terminator::Fatal(vid, _)) => seq![vid],
        Instr::Terminator(Terminator::JmpArgs(_, params, _)) => params@,
        Instr::Terminator(Terminator::Ret(vid, _)) => seq![vid],
        Instr::Terminator(Terminator::Throw(vid, _)) => seq![vid],
        _ => Seq::empty(),
    }
}

impl Terminator {
    pub fn loc_id(&self) -> (r: Option<LocId>)
        ensures
            r == terminator_loc(*self),
    {
        match self {
            Terminator::Enter(_, loc) => *loc,
            Terminator::Exit(_, loc) => *loc,
            Terminator::Fatal(_, loc) => *loc,
            Terminator::Jmp(_, loc) => *loc,
            Terminator::JmpArgs(_, _, loc) => *loc,
            Terminator::JmpOp { loc, .. } => *loc,
            Terminator::Ret(_, loc) => *loc,
            Terminator::Throw(_, loc) => *loc,
            Terminator::Unreachable => None,
            Terminator::Other { loc, .. } => *loc,
        }
    }
}

impl Hhbc {
    pub fn loc_id(&self) -> (r: Option<LocId>)
        ensures
            r == hhbc_loc(*self),
    {
        match self {
            Hhbc::CGetL(_, loc) => *loc,
            Hhbc::CUGetL(_, loc) => *loc,
            Hhbc::ClsCnsD(_, _, loc) => *loc,
            Hhbc::ConsumeL(_, loc) => *loc,
            Hhbc::CreateCl { loc, .. } => *loc,
            Hhbc::IncDecL(_, _, loc) => *loc,
            Hhbc::ResolveClass(_, loc) => *loc,
            Hhbc::SelfCls(loc) => *loc,
            Hhbc::SetL(_, _, loc) => *loc,
            Hhbc::This(loc) => *loc,
            Hhbc::UnsetL(_, loc) => *loc,
            Hhbc::Other { loc, .. } => *loc,
        }
    }
}

/// A vector with the items of another.
fn copy_items<T: Copy>(items: &Vec<T>) -> (r: Vec<T>)
    ensures
        r@ == items@,
{
    let mut out: Vec<T> = Vec::new();
    let mut i: usize = 0;
    while i < items.len()
        invariant
            i <= items.len(),
            out@ == items@.take(i as int),
        decreases items.len() - i,
    {
        out.push(items[i]);
        i += 1;
        assert(out@ =~= items@.take(i as int));
    }
    assert(items@.take(items.len() as int) =~= items@);
    out
}

impl Instr {
    pub fn loc_id(&self) -> (r: Option<LocId>)
        ensures
            r == instr_loc(*self),
    {
        match self {
            Instr::Call(call) => call.loc,
            Instr::Hhbc(h) => h.loc_id(),
            Instr::MemberOp(mop) => mop.loc,
            Instr::Special(Special::Textual(Textual::AssertFalse(_, loc))) => *loc,
            Instr::Special(Special::Textual(Textual::AssertTrue(_, loc))) => *loc,
            Instr::Special(Special::Textual(Textual::HackBuiltin { loc, .. })) => *loc,
            Instr::Special(_) => None,
            Instr::Terminator(t) => t.loc_id(),
        }
    }

    pub fn locals(&self) -> (r: Vec<LocalId>)
        ensures
            r@ == instr_locals(*self),
    {
        match self {
            Instr::Hhbc(Hhbc::CGetL(lid, _)) => vec![*lid],
            Instr::Hhbc(Hhbc::CUGetL(lid, _)) => vec![*lid],
            Instr::Hhbc(Hhbc::ConsumeL(lid, _)) => vec![*lid],
            Instr::Hhbc(Hhbc::IncDecL(lid, _, _)) => vec![*lid],
            Instr::Hhbc(Hhbc::SetL(_, lid, _)) => vec![*lid],
            Instr::Hhbc(Hhbc::UnsetL(lid, _)) => vec![*lid],
            Instr::Hhbc(Hhbc::Other { locals, .. }) => copy_items(locals),
            Instr::MemberOp(mop) => copy_items(&mop.locals),
            Instr::Special(Special::Textual(Textual::Deref(lid))) => vec![*lid],
            Instr::Terminator(Terminator::Other { locals, .. }) => copy_items(locals),
            _ => Vec::new(),
        }
    }

    /// The operands that what the instruction becomes mentions.
    pub fn mentioned_operands(&self) -> (r: Vec<ValueId>)
        ensures
            r@ == mentioned_operands(*self),
    {
        match self {
            Instr::Call(call) => {
                let mut operands = copy_items(&call.args);
                if let CallDetail::FCallObjMethodD { obj, .. } = call.detail {
                    operands.push(obj);
                }
                operands
            },
            Instr::Hhbc(Hhbc::CreateCl { operands, .. }) => copy_items(operands),
            Instr::Hhbc(Hhbc::SetL(vid, _, _)) => vec![*vid],
            Instr::Hhbc(Hhbc::Other { operands, .. }) => copy_items(operands),
            Instr::MemberOp(mop) => copy_items(&mop.operands),
            Instr::Special(Special::Select(vid, _)) => vec![*vid],
            Instr::Special(Special::Textual(Textual::AssertFalse(vid, _))) => vec![*vid],
            Instr::Special(Special::Textual(Textual::AssertTrue(vid, _))) => vec![*vid],
            Instr::Special(Special::Textual(Textual::HackBuiltin { values, .. })) => copy_items(
                values,
            ),
            Instr::Terminator(Terminator::Exit(vid, _)) => vec![*vid],
            Instr::Terminator(Terminator::Fatal(vid, _)) => vec![*vid],
            Instr::Terminator(Terminator::JmpArgs(_, params, _)) => copy_items(params),
            Instr::Terminator(Terminator::Ret(vid, _)) => vec![*vid],
            Instr::Terminator(Terminator::Throw(vid, _)) => vec![*vid],
            _ => Vec::new(),
        }
    }
}

} // verus!
