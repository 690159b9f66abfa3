//! A small compiler for a C-like language that emits AArch64 assembly.
//!
//! Source text is scanned into tokens, parsed into a syntax tree, checked
//! for duplicate declarations and lowered to assembly text. Every stage is
//! a pure function whose result is pinned down by a mathematical model:
//!
//! - [`scan`]: the lexical rules and the scanner,
//! - [`parse`]: the grammar and the recursive-descent parser,
//! - [`semantics`] with [`symtable`]: the scoping rule and its check,
//! - [`codegen`]: the assembly text of a program and its generator,
//! - [`pipeline`]: the four stages in a row.
//!
//! [`common`] and [`ast`] hold the tokens and the syntax tree that the
//! stages hand to each other, [`text`] builds text, [`util`] names the
//! targets, and [`driver`] holds the rules of the command-line driver.

pub mod ast;
pub mod codegen;
pub mod common;
pub mod driver;
pub mod parse;
pub mod pipeline;
pub mod scan;
pub mod semantics;
pub mod symtable;
pub mod text;
pub mod util;
