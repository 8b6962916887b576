use vstd::prelude::*;

verus! {

/// A range of bytes of the compiled input: `len` bytes from `start`.
#[derive(Debug, Clone, Copy, PartialEq, Eq, Structural)]
pub struct Span {
    pub start: usize,
    pub len: usize,
}

/// A constant pushed onto the executor's stack.
#[derive(Debug, Clone, Copy, PartialEq, Eq, Structural)]
pub enum Argument {
    Integer(i64),
    Char(char),
}

impl Argument {
    pub fn from_integer(v: i64) -> (r: Argument)
        ensures
            r == Argument::Integer(v),
    {
        Argument::Integer(v)
    }

    pub fn from_char(c: char) -> (r: Argument)
        ensures
            r == Argument::Char(c),
    {
        Argument::Char(c)
    }
}

/// One instruction of the stack machine.
///
/// Branch and jump offsets count instructions to skip after the branch or
/// jump itself. `Print` carries the bytes of a printf-style directive (from
/// the byte after `%` through its conversion character); `PrintSlice`
/// carries literal bytes to copy out. Both are spans of the input.
#[derive(Debug, Clone, Copy, PartialEq, Eq, Structural)]
pub enum Op {
    /// Push a user supplied argument onto the stack
    PushUserArg(usize),
    /// Push a constant onto the stack
    Push(Argument),
    NoOp,
    Add,
    Sub,
    Mul,
    Div,
    Mod,
    BitAnd,
    BitOr,
    BitXor,
    Less,
    Greater,
    Equal,
    Invert,
    Not,
    /// Increment the first two arguments
    IncrementArgs,
    /// Pop a string and push its length
    StrLen,
    /// Pop the stack and skip the given number of ops if the value is true
    BranchTrue(usize),
    /// Pop the stack and skip the given number of ops if the value is false
    BranchFalse(usize),
    /// Skip the given number of ops
    Jump(usize),
    /// Pop the stack and print it as the directive says
    Print(Span),
    /// Print literal bytes
    PrintSlice(Span),
}

/// Why a capability string could not be compiled.
#[derive(Debug, Clone, Copy, PartialEq, Eq, Structural)]
pub enum ErrorKind {
    /// The input ended inside an escape or a conditional.
    UnexpectedEof,
    /// `%p` was not followed by a digit from 1 to 9.
    InvalidArgumentIdentifier,
    /// A `%{...}` literal was unterminated or not a decimal integer.
    InvalidNumber,
    /// A `%'...'` literal was unterminated or did not hold one character.
    InvalidChar,
}

} // verus!
