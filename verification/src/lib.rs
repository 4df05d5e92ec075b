//! A small expression-oriented language, verified end to end: a lexer
//! that classifies characters into tokens, a precedence-climbing parser,
//! a lowering pass that computes forward jump targets at emission time,
//! and a stack-based virtual machine with a dynamically scoped name
//! environment, pattern-based dispatch, first-class procedures, and
//! pluggable input and output ports. Every stage carries an exact
//! contract against a total specification function, so what the crate
//! computes is what the specifications state, fault for fault.

pub mod bytecode;
pub mod environment;
pub mod ir;
pub mod lexer;
pub mod parser;
pub mod types;
pub mod vm;
