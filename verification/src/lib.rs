//! A compiler from a small imperative scripting language to a structured,
//! WebAssembly-like stack-machine instruction format.
//!
//! [`ast`] is the syntax model that a parser produces, [`scope`] the table
//! that resolves names, [`instr`] the instruction set, [`lower`] the lowering
//! of each syntax node, [`compiler`] the state of a function's compilation and
//! the assembly of a module, and [`text`] the textual form of the result.
//! [`laws`] states what holds of scopes and of the lowering whatever the
//! program, [`structure`] that compiled code is well formed, and [`copies`]
//! that a copy of a program compiles as the program does.

pub mod ast;
pub mod compiler;
pub mod copies;
pub mod instr;
pub mod laws;
pub mod lower;
pub mod scope;
pub mod structure;
pub mod text;
