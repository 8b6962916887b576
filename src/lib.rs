//! Compiler for parameterized terminal-capability strings.
//!
//! A capability string mixes literal text with `%`-escapes. [`Parser`]
//! turns it into a flat list of stack-machine [`Op`]s, one compilation step
//! at a time, with conditionals lowered to relative branches and jumps.

pub mod ops;
pub mod number;
pub mod grammar;
pub mod compile;
pub mod parser;
pub mod laws;

pub use ops::{Argument, ErrorKind, Op, Span};
pub use parser::{compile, Parser};

