//! A just-in-time code generator for a small stack-oriented arithmetic
//! language: pre-assembled native code templates are composed into
//! relocatable objects, symbolic references are resolved at assembly time,
//! and the finished byte image is handed to a host that installs it in
//! executable memory.

pub mod ast;
pub mod code;
pub mod compiler;
pub mod commands;
pub mod function;
pub mod machine;
pub mod raw_code;
pub mod reloc;
pub mod symbol;

pub use symbol::Symbol;
pub use symbol::SymbolCounter;
