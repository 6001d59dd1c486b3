//! Turns functions of the Hack intermediate representation into Textual
//! function definitions.

pub mod ascii_text;
pub mod block;
pub mod call;
pub mod check;
pub mod class;
pub mod constants;
pub mod forms;
pub mod func;
pub mod hack;
pub mod instr;
pub mod ir;
pub mod jmp;
pub mod laws;
pub mod locals;
pub mod needs;
pub mod parts;
pub mod state;
pub mod strings;
pub mod textual;
pub mod whole;
