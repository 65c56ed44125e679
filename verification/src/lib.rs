//! A small dynamically-typed, expression-oriented scripting language:
//! a lexer, a parser and a tree-walking evaluator, with every step verified.
//!
//! [`lexer`] turns source text into tokens, [`parser`] turns tokens into a
//! table of functions, and [`runner`] evaluates an expression; [`program`]
//! does all three for a whole text. What each of them computes is said by
//! a mathematical function: [`lexer::lex`], [`grammar::parse`],
//! [`semantics::eval`] and [`program::outcome`]. What follows from those
//! definitions is proved in [`lexer_laws`], [`wellformed`] and [`laws`].
//!
//! Numbers are IEEE 754 binary64 values, carried as their 64-bit patterns.
//! Equality of numbers is decided here, on the bits. Reading a literal,
//! arithmetic and printing are left to functions that the caller hands in;
//! what is proved holds for every choice of them.
//!
//! Two small modules stand beside the interpreter: [`gridfin`] holds the
//! sizes of storage-grid parts, and [`extract`] picks the name that an
//! attribute stands for.

pub mod common;
pub mod text;
pub mod numbers;
pub mod funcs;
pub mod display;
pub mod message;
pub mod lexer;
pub mod lexer_laws;
pub mod grammar;
pub mod parser;
pub mod semantics;
pub mod runner;
pub mod laws;
pub mod wellformed;
pub mod program;
pub mod gridfin;
pub mod extract;
