# hack_textual

Turns functions of the Hack intermediate representation (IR) into definitions of
Textual functions. The library is verified with Verus: every function states what
it emits, and the proofs show that it does.

## How a function is converted

1. `func::begin_func` works out the name, the parameters and the locals, and
   `jmp::rewrite_jmp_ops` puts assertions at the targets of conditional jumps.
   `func::begin_function` does the same for a lowered top-level function.
2. A clean-up pass may then replace `PreparedFunc::body`.
3. `func::write_func` evaluates the array literals that are operands, emits the
   blocks and adds the definition to a `TextualFile`. A static method also gets an instance stub.

Both need an interner that holds no string twice, which `check::check_strings`
decides. For the rest `check::check_begin` decides exactly whether `begin_func` can be
called, and `check::check_write` whether `write_func` can.

## Layout

- `ir`, `strings`: the IR and its interned strings.
- `textual`, `hack`, `class`: Textual, and the builder that collects statements.
- `state`, `constants`, `instr`, `call`, `block`, `func`: emitting, from single values to whole
  functions.
- `jmp`, `locals`: conditional jumps; the order of locals.
- `check`: tests for callers that cannot know whether a function can be emitted.
- `laws`: what holds of everything that is emitted. More stand beside the
  definitions in `strings`, `jmp`, `locals` and `block`.
- `ascii_text`: the `ascii` crate.

`app/` runs the other passes of the compiler around the library and hands the
definitions to a printer. What a printer alone can do stays symbolic in the library:
mangled names (`Name`), enforced types (`Ty::Enforced`), array literals
(`Expr::Array`), escaping (`Const::String`) and member operations
(`Stmt::MemberOp`). Floating point numbers are carried by their bits.

## What is not proved

The contracts of `ascii_from_str`, `ascii_as_str` and `ascii_clone` (crate `ascii`)
and of `sorted_by_lid` (crate `itertools`).
