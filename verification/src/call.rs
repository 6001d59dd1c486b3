//! Emitting calls.

use vstd::prelude::*;

use crate::class::IsStatic;
use crate::hack::Builtin;
use crate::instr::{last_sid, mangle_method, method_name};
use crate::ir::{
    Call, CallDetail, ClassId, FCallArgsFlags, Func, InstrId, ObjMethodOp, SpecialClsRef,
};
use crate::state::{
    value_ready, values_ready, write_todo, FuncState, MethodInfo, Scope, StateView,
};
use crate::strings::text_id;
use crate::textual::{
    null_view, one_arg, BodyView, ClassRef, ClassRefView, Expr, Name, NameView, Sid, StmtView,
};

verus! {

/// The notes with one more where `cond` holds.
pub open spec fn noted(notes: Seq<Seq<char>>, cond: bool, text: Seq<char>) -> Seq<Seq<char>> {
    if cond {
        notes.push(text)
    } else {
        notes
    }
}

/// Whether there is a list and it has an element.
pub open spec fn listed(list: Option<Vec<u32>>) -> bool {
    list matches Some(v) && v@.len() > 0
}

/// The notes with one for each flag that has no form in Textual.
pub open spec fn flags_noted(notes: Seq<Seq<char>>, flags: FCallArgsFlags) -> Seq<Seq<char>> {
    let notes = noted(notes, flags.has_unpack, "TODO: FCallArgsFlags::HasUnpack"@);
    let notes = noted(notes, flags.has_generics, "TODO: FCallArgsFlags::HasGenerics"@);
    let notes = noted(notes, flags.skip_repack, "TODO: FCallArgsFlags::SkipRepack"@);
    let notes = noted(
        notes,
        flags.skip_coeffects_check,
        "TODO: FCallArgsFlags::SkipCoeffectsCheck"@,
    );
    let notes = noted(
        notes,
        flags.enforce_readonly_this,
        "TODO: FCallArgsFlags::EnforceReadonlyThis"@,
    );
    let notes = noted(notes, flags.explicit_context, "TODO: FCallArgsFlags::ExplicitContext"@);
    let notes = noted(notes, flags.has_in_out, "TODO: FCallArgsFlags::HasInOut"@);
    let notes = noted(notes, flags.enforce_in_out, "TODO: FCallArgsFlags::EnforceInOut"@);
    let notes = noted(notes, flags.enforce_readonly, "TODO: FCallArgsFlags::EnforceReadonly"@);
    noted(notes, flags.num_args_start, "TODO: FCallArgsFlags::NumArgsStart"@)
}

/// The features of the call that have no form in Textual, each with a note.
pub open spec fn call_notes(strings: Seq<Seq<u8>>, call: Call) -> Seq<Seq<char>> {
    let notes = noted(Seq::empty(), listed(call.inouts), "TODO: inouts"@);
    let notes = noted(notes, call.num_rets >= 2, "TODO: num_rets >= 2"@);
    let notes = noted(
        notes,
        call.context matches Some(id) && strings[id.0 as int].len() > 0,
        "TODO: write_call(Context: {context:?})"@,
    );
    flags_noted(notes, call.flags)
}

/// The body with a comment for each note.
pub open spec fn commented(body: BodyView, notes: Seq<Seq<char>>) -> BodyView {
    BodyView {
        stmts: body.stmts + notes.map_values(|text: Seq<char>| StmtView::Comment(text)),
        next: body.next,
    }
}

/// The class whose method `parent::` names: the base class, or a placeholder for
/// it where the base class is not known, as in a trait.
pub open spec fn parent_class(s: StateView, mi: MethodInfo) -> ClassId {
    match mi.class.base {
        Some(base) => base,
        None => ClassId { id: text_id(s.strings, "__parent__"@) },
    }
}

/// The state in which the name of the parent class exists.
pub open spec fn parent_interned(s: StateView, mi: MethodInfo) -> StateView {
    match mi.class.base {
        Some(_) => s,
        None => s.intern("__parent__"@),
    }
}

/// After the callee has been called. The result is the last value that was
/// defined.
pub open spec fn callee_called(s: StateView, call: Call) -> StateView {
    let args = s.value_exprs(call.args@);
    match call.detail {
        CallDetail::FCallClsMethod => s.todo_called("FCallClsMethod"@),
        CallDetail::FCallClsMethodD { clsid, method } => s.with_body(
            s.body.load_static_class(clsid).call_static(
                method_name(ClassRefView::Id(clsid), IsStatic::Static, method),
                s.body.next_sid(),
                args,
            ),
        ),
        CallDetail::FCallClsMethodM => s.todo_called("TODO_FCallClsMethodM"@),
        CallDetail::FCallClsMethodS => s.todo_called("TODO_FCallClsMethodS"@),
        CallDetail::FCallClsMethodSD { clsref, method } => {
            let mi = s.method->0;
            match clsref {
                SpecialClsRef::SelfCls => {
                    let t = s.this_loaded(mi);
                    t.with_body(
                        t.body.call_static(
                            method_name(ClassRefView::Id(mi.class.name), mi.is_static, method),
                            s.body.next_sid(),
                            args,
                        ),
                    )
                },
                SpecialClsRef::LateBoundCls => {
                    let t = s.this_loaded(mi);
                    t.with_body(
                        t.body.call_virtual(
                            method_name(ClassRefView::Id(mi.class.name), mi.is_static, method),
                            s.body.next_sid(),
                            args,
                        ),
                    )
                },
                SpecialClsRef::ParentCls => {
                    let t = parent_interned(s, mi).this_loaded(mi);
                    t.with_body(
                        t.body.call_static(
                            method_name(
                                ClassRefView::Id(parent_class(s, mi)),
                                mi.is_static,
                                method,
                            ),
                            s.body.next_sid(),
                            args,
                        ),
                    )
                },
            }
        },
        CallDetail::FCallCtor => s,
        CallDetail::FCallFunc => s.todo_called("TODO_FCallFunc"@),
        CallDetail::FCallFuncD { func } => s.with_body(
            s.body.call_static(NameView::Function(func), null_view(), args),
        ),
        CallDetail::FCallObjMethod => s.todo_called("FCallObjMethod"@),
        CallDetail::FCallObjMethodD { flavor: _, method, obj } => s.with_body(
            s.body.call_virtual(
                method_name(ClassRefView::Name("HackMixed"@), IsStatic::NonStatic, method),
                s.value_expr(obj),
                args,
            ),
        ),
    }
}

/// After the last value has been awaited, where the call is asynchronous.
pub open spec fn awaited(s: StateView, is_async: bool) -> StateView {
    if is_async {
        s.with_body(s.body.call(NameView::Builtin(Builtin::Await), seq![last_sid(s)]))
    } else {
        s
    }
}

/// After a call: comments for what has no form in Textual, the call itself, and
/// the wait for its result. The result is the value of `iid`.
pub open spec fn call_written(s: StateView, iid: InstrId, call: Call) -> StateView {
    let t = s.with_body(commented(s.body, call_notes(s.strings, call)));
    let done = awaited(callee_called(t, call), call.flags.has_async_eager_offset);
    done.bind(iid, last_sid(done))
}

/// Whether a call can be emitted: its operands have values, it has no
/// read-only arguments, and its callee is of a kind that is left after lowering.
pub open spec fn call_ready(
    func: Func,
    method: Option<MethodInfo>,
    scope: Scope,
    values: Set<usize>,
    call: Call,
) -> bool {
    &&& !listed(call.readonly)
    &&& call.context matches Some(id) ==> id.0 < scope.n_strings
    &&& values_ready(func, scope, values, call.args@)
    &&& match call.detail {
        CallDetail::FCallClsMethodSD { .. } => method is Some,
        CallDetail::FCallCtor => false,
        CallDetail::FCallObjMethodD { flavor, method: _, obj } => flavor != ObjMethodOp::NullSafe
            && value_ready(func, scope, values, obj),
        _ => true,
    }
}

/// Whether there is a list and it has an element.
pub fn is_listed(list: &Option<Vec<u32>>) -> (r: bool)
    ensures
        r == listed(*list),
{
    match list {
        Some(v) => v.len() > 0,
        None => false,
    }
}

/// The texts of a list of notes.
pub open spec fn texts(notes: Seq<&str>) -> Seq<Seq<char>> {
    notes.map_values(|text: &str| text@)
}

/// Add a note where `cond` holds.
fn note<'t>(notes: &mut Vec<&'t str>, cond: bool, text: &'t str)
    ensures
        texts(final(notes)@) == noted(texts(old(notes)@), cond, text@),
{
    if cond {
        notes.push(text);
        assert(texts(notes@) =~= texts(old(notes)@).push(text@));
    }
}

/// Add a note for each flag that has no form in Textual.
fn note_flags(notes: &mut Vec<&str>, flags: FCallArgsFlags)
    ensures
        texts(final(notes)@) == flags_noted(texts(old(notes)@), flags),
{
    note(notes, flags.has_unpack, "TODO: FCallArgsFlags::HasUnpack");
    note(notes, flags.has_generics, "TODO: FCallArgsFlags::HasGenerics");
    note(notes, flags.skip_repack, "TODO: FCallArgsFlags::SkipRepack");
    note(notes, flags.skip_coeffects_check, "TODO: FCallArgsFlags::SkipCoeffectsCheck");
    note(notes, flags.enforce_readonly_this, "TODO: FCallArgsFlags::EnforceReadonlyThis");
    note(notes, flags.explicit_context, "TODO: FCallArgsFlags::ExplicitContext");
    note(notes, flags.has_in_out, "TODO: FCallArgsFlags::HasInOut");
    note(notes, flags.enforce_in_out, "TODO: FCallArgsFlags::EnforceInOut");
    note(notes, flags.enforce_readonly, "TODO: FCallArgsFlags::EnforceReadonly");
    note(notes, flags.num_args_start, "TODO: FCallArgsFlags::NumArgsStart");
}

/// Add a comment for each feature of the call that has no form in Textual.
fn write_call_notes(state: &mut FuncState<'_>, call: &Call)
    requires
        call.context matches Some(id) ==> id.0 < old(state)@.strings.len(),
    ensures
        final(state)@ == old(state)@.with_body(
            commented(old(state)@.body, call_notes(old(state)@.strings, *call)),
        ),
        old(state)@.sound() ==> final(state)@.sound(),
{
    let mut notes: Vec<&str> = Vec::new();
    assert(texts(notes@) =~= Seq::<Seq<char>>::empty());
    note(&mut notes, is_listed(&call.inouts), "TODO: inouts");
    note(&mut notes, call.num_rets >= 2, "TODO: num_rets >= 2");
    let has_context = match state.strings.lookup_bytes_or_none(call.context) {
        Some(context) => context.len() > 0,
        None => false,
    };
    note(&mut notes, has_context, "TODO: write_call(Context: {context:?})");
    note_flags(&mut notes, call.flags);
    let ghost all = texts(notes@);
    let mut i: usize = 0;
    assert(commented(state@.body, all.take(0)).stmts =~= state@.body.stmts);
    while i < notes.len()
        invariant
            i <= notes.len(),
            all == texts(notes@),
            state@ == old(state)@.with_body(commented(old(state)@.body, all.take(i as int))),
            old(state)@.sound() ==> state@.sound(),
        decreases notes.len() - i,
    {
        state.fb.comment(notes[i]);
        i += 1;
        proof {
            assert(all.take(i as int) =~= all.take(i - 1).push(all[i - 1]));
            assert(state@.body.stmts =~= commented(old(state)@.body, all.take(i as int)).stmts);
        }
    }
    assert(all.take(all.len() as int) =~= all);
}

/// Call the callee and name the result.
fn write_callee(state: &mut FuncState<'_>, call: &Call) -> (r: Sid)
    requires
        old(state)@.wf(),
        old(state)@.room(2),
        call_ready(
            old(state)@.func,
            old(state)@.method,
            old(state)@.scope(),
            old(state)@.values.dom(),
            *call,
        ),
    ensures
        final(state)@.wf(),
        final(state)@ == callee_called(old(state)@, *call),
        final(state)@.body.next == r.0 + 1,
        final(state)@.body.next <= old(state)@.body.next + 2,
        old(state)@.sound() ==> final(state)@.sound(),
{
    let args = state.lookup_vids(&call.args);
    match call.detail {
        CallDetail::FCallClsMethod => write_todo(&mut state.fb, "FCallClsMethod"),
        CallDetail::FCallClsMethodD { clsid, method } => {
            // C::foo()
            let target = mangle_method(method, ClassRef::Id(clsid), IsStatic::Static);
            let this = state.load_static_class(clsid);
            state.fb.call_static(target, Expr::Sid(this), args)
        },
        CallDetail::FCallClsMethodM => state.write_todo("TODO_FCallClsMethodM"),
        CallDetail::FCallClsMethodS => state.write_todo("TODO_FCallClsMethodS"),
        CallDetail::FCallClsMethodSD { clsref, method } => match clsref {
            SpecialClsRef::SelfCls => {
                // self::foo() - Static call to the method in the current class.
                let mi = state.expect_method_info();
                let target = mangle_method(method, ClassRef::Id(mi.class.name), mi.is_static);
                let this = state.load_this();
                state.fb.call_static(target, Expr::Sid(this), args)
            },
            SpecialClsRef::LateBoundCls => {
                // static::foo() - Virtual call to the method in the current class.
                let mi = state.expect_method_info();
                let target = mangle_method(method, ClassRef::Id(mi.class.name), mi.is_static);
                let this = state.load_this();
                state.fb.call_virtual(target, Expr::Sid(this), args)
            },
            SpecialClsRef::ParentCls => {
                // parent::foo() - Static call to the method in the parent class.
                let mi = state.expect_method_info();
                let base = match mi.class.base {
                    Some(base) => base,
                    // The parent is not known here. This can happen in a trait.
                    None => ClassId { id: state.strings.intern_str("__parent__") },
                };
                let this = state.load_this();
                let target = mangle_method(method, ClassRef::Id(base), mi.is_static);
                state.fb.call_static(target, Expr::Sid(this), args)
            },
        },
        CallDetail::FCallCtor => {
            assert(false);
            Sid(0)
        },
        CallDetail::FCallFunc => state.write_todo("TODO_FCallFunc"),
        CallDetail::FCallFuncD { func } => {
            // foo()
            // A top-level function is called like a class static in a special
            // top-level class. Its 'this' pointer is null.
            state.fb.call_static(Name::Function(func), Expr::null(), args)
        },
        CallDetail::FCallObjMethod => state.write_todo("FCallObjMethod"),
        CallDetail::FCallObjMethodD { flavor: _, method, obj } => {
            // $x->y()
            let class = ClassRef::Name("HackMixed".to_owned());
            let target = mangle_method(method, class, IsStatic::NonStatic);
            let obj = state.lookup_vid(obj);
            state.fb.call_virtual(target, obj, args)
        },
    }
}

pub fn write_call(state: &mut FuncState<'_>, iid: InstrId, call: &Call)
    requires
        old(state)@.wf(),
        old(state)@.room(3),
        call_ready(
            old(state)@.func,
            old(state)@.method,
            old(state)@.scope(),
            old(state)@.values.dom(),
            *call,
        ),
        !old(state)@.values.dom().contains(iid.0),
    ensures
        final(state)@.wf(),
        final(state)@ == call_written(old(state)@, iid, *call),
        old(state)@.sound() ==> final(state)@.sound(),
{
    write_call_notes(state, call);
    let output = write_callee(state, call);
    let result = if call.flags.has_async_eager_offset {
        state.call_builtin(Builtin::Await, one_arg(Expr::Sid(output)))
    } else {
        output
    };

    state.set_iid(iid, Expr::Sid(result));
}

} // verus!
