//! A front-end library for a textual intermediate-representation language
//! modeled on LLVM's `.ll` syntax.
//!
//! The library parses source text into a strongly typed abstract syntax
//! tree: types, constants, values, instructions, terminators, basic blocks
//! and whole function definitions.  Every parse entry point either returns
//! the corresponding tree or a structured error; nothing panics.
//!
//! The grammar itself is stated mathematically in [`grammar`] and
//! [`ir_grammar`]; the executable parsers in [`parser`] and [`ir_parser`]
//! are proved to return exactly what the grammar says.  The canonical
//! printer in [`printer`] round-trips through the grammar, which
//! [`round_trip`] proves.

pub mod grammar;
pub mod ir;
pub mod ir_grammar;
pub mod ir_parser;
pub mod llvm;
pub mod parser;
pub mod printer;
pub mod round_trip;
pub mod scan;
pub mod types;
