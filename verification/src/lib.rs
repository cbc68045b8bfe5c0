//! The front half of a small C-to-assembly pipeline: a lexer that turns source
//! text into located tokens, a recursive-descent parser for the single
//! supported grammar (`int <name>(void) { return <constant>; }`), a lowering
//! pass from the syntax tree to a target-instruction tree, an emitter that
//! renders the instructions as assembly text lines, and an error reporter
//! that renders source-pointing diagnostics.

pub mod asm_ast;
pub mod c_ast;
pub mod c_to_asm;
pub mod code_emission;
pub mod decimal;
pub mod error_reporter;
pub mod laws;
pub mod lexer;
pub mod parser;
pub mod text;
