//! What compiling a capability string yields, stated as recursive spec
//! functions over the input bytes and a position in them.
use vstd::prelude::*;
use crate::ops::{Argument, ErrorKind, Op, Span};
use crate::number::decimal_value;

verus! {

/// Ops produced by a piece of the input, and the position just after it.
pub type Compiled = Result<(Seq<Op>, int), ErrorKind>;

/// The escape marker that starts every directive.
pub const MARKER: u8 = 0x25;

/// The first index at or after `i` where `s` holds `b`, or `s.len()`.
pub open spec fn find_byte(s: Seq<u8>, i: int, b: u8) -> int
    decreases s.len() - i,
{
    if 0 <= i < s.len() {
        if s[i] == b {
            i
        } else {
            find_byte(s, i + 1, b)
        }
    } else {
        s.len() as int
    }
}

/// A byte that ends a printf-style directive: one of `x X c d o s`.
pub open spec fn is_conversion(b: u8) -> bool {
    b == 0x78 || b == 0x58 || b == 0x63 || b == 0x64 || b == 0x6f || b == 0x73
}

/// The first index at or after `i` holding a conversion byte, or `s.len()`.
pub open spec fn find_conversion(s: Seq<u8>, i: int) -> int
    decreases s.len() - i,
{
    if 0 <= i < s.len() {
        if is_conversion(s[i]) {
            i
        } else {
            find_conversion(s, i + 1)
        }
    } else {
        s.len() as int
    }
}

/// The op of a one-byte operator escape: `%` and one of
/// `i l + - * / m & ^ | = < > ~ !`.
pub open spec fn operator_of(sel: u8) -> Option<Op> {
    if sel == 0x69 {
        Some(Op::IncrementArgs)
    } else if sel == 0x6c {
        Some(Op::StrLen)
    } else if sel == 0x2b {
        Some(Op::Add)
    } else if sel == 0x2d {
        Some(Op::Sub)
    } else if sel == 0x2a {
        Some(Op::Mul)
    } else if sel == 0x2f {
        Some(Op::Div)
    } else if sel == 0x6d {
        Some(Op::Mod)
    } else if sel == 0x26 {
        Some(Op::BitAnd)
    } else if sel == 0x5e {
        Some(Op::BitXor)
    } else if sel == 0x7c {
        Some(Op::BitOr)
    } else if sel == 0x3d {
        Some(Op::Equal)
    } else if sel == 0x3c {
        Some(Op::Less)
    } else if sel == 0x3e {
        Some(Op::Greater)
    } else if sel == 0x7e {
        Some(Op::Invert)
    } else if sel == 0x21 {
        Some(Op::Not)
    } else {
        None
    }
}

pub open spec fn span(start: int, end: int) -> Span {
    Span { start: start as usize, len: (end - start) as usize }
}

/// Prepends `ops` to the ops of a successful result.
pub open spec fn after(ops: Seq<Op>, r: Compiled) -> Compiled {
    match r {
        Ok((rest, end)) => Ok((ops + rest, end)),
        Err(e) => Err(e),
    }
}

/// `r` and the ops appended (`prior` became `current`) are what `c` says:
/// the ops and the end position, or the error.
pub open spec fn produced(
    c: Compiled,
    prior: Seq<Op>,
    current: Seq<Op>,
    r: Result<usize, ErrorKind>,
) -> bool {
    match c {
        Ok((ops, end)) => r is Ok && r->Ok_0 == end && current == prior + ops,
        Err(e) => r == Err::<usize, ErrorKind>(e),
    }
}

/// One compilation step at `pos`: a run of literal text, one escape, or a
/// whole conditional.
pub open spec fn step(s: Seq<u8>, pos: int) -> Compiled
    decreases s.len() - pos, 0int,
{
    if pos < 0 || pos >= s.len() {
        Ok((seq![], pos))
    } else if s[pos] != MARKER {
        let end = find_byte(s, pos, MARKER);
        Ok((seq![Op::PrintSlice(span(pos, end))], end))
    } else if pos + 1 >= s.len() {
        Err(ErrorKind::UnexpectedEof)
    } else {
        let sel = s[pos + 1];
        if sel == MARKER {
            Ok((seq![Op::PrintSlice(span(pos + 1, pos + 2))], pos + 2))
        } else if sel == 0x70 {
            // p
            if pos + 2 < s.len() && 0x31 <= s[pos + 2] <= 0x39 {
                Ok((seq![Op::PushUserArg((s[pos + 2] - 0x31) as usize)], pos + 3))
            } else {
                Err(ErrorKind::InvalidArgumentIdentifier)
            }
        } else if sel == 0x7b {
            // {
            let close = find_byte(s, pos + 2, 0x7d);
            if close >= s.len() {
                Err(ErrorKind::InvalidNumber)
            } else {
                match decimal_value(s.subrange(pos + 2, close)) {
                    Some(v) => Ok((seq![Op::Push(Argument::Integer(v as i64))], close + 1)),
                    None => Err(ErrorKind::InvalidNumber),
                }
            }
        } else if sel == 0x27 {
            // '
            if pos + 3 < s.len() && s[pos + 3] == 0x27 && s[pos + 2] != 0x27 && s[pos + 2] < 0x80 {
                Ok((seq![Op::Push(Argument::Char(s[pos + 2] as char))], pos + 4))
            } else {
                Err(ErrorKind::InvalidChar)
            }
        } else if sel == 0x3f {
            // ?
            conditional(s, pos + 2)
        } else if operator_of(sel) is Some {
            Ok((seq![operator_of(sel)->Some_0], pos + 2))
        } else {
            let conv = find_conversion(s, pos + 1);
            if conv >= s.len() {
                Err(ErrorKind::UnexpectedEof)
            } else {
                Ok((seq![Op::Print(span(pos + 1, conv + 1))], conv + 1))
            }
        }
    }
}

/// `s[pos]` and `s[pos + 1]` are the marker and a byte of `stops`.
pub open spec fn at_stop(s: Seq<u8>, pos: int, stops: Seq<u8>) -> bool {
    0 <= pos && pos + 1 < s.len() && s[pos] == MARKER && stops.contains(s[pos + 1])
}

/// Steps from `pos` up to the first marker followed by a byte of `stops`
/// that starts a step; the result's position is that marker's.
pub open spec fn segment(s: Seq<u8>, pos: int, stops: Seq<u8>) -> Compiled
    decreases s.len() - pos, 1int,
{
    if pos < 0 || pos + 2 > s.len() {
        Err(ErrorKind::UnexpectedEof)
    } else if at_stop(s, pos, stops) {
        Ok((seq![], pos))
    } else {
        match step(s, pos) {
            Err(e) => Err(e),
            Ok((ops, next)) => if next <= pos || next > s.len() {
                Err(ErrorKind::UnexpectedEof)
            } else {
                after(ops, segment(s, next, stops))
            },
        }
    }
}

/// `t`
pub open spec fn then_stops() -> Seq<u8> {
    seq![0x74u8]
}

/// `e` and `;`
pub open spec fn body_stops() -> Seq<u8> {
    seq![0x65u8, 0x3bu8]
}

/// `;` and `t`
pub open spec fn else_stops() -> Seq<u8> {
    seq![0x3bu8, 0x74u8]
}

/// A conditional from its `%t` at `p` through its closing `%;`.
///
/// Each then-body is led by a branch-if-false that skips it, and also the
/// jump after it where an `%e` follows. That jump skips everything up to
/// the end of the conditional.
pub open spec fn branches(s: Seq<u8>, p: int) -> Compiled
    decreases s.len() - p, 2int,
{
    if p < 0 || p + 2 > s.len() {
        Err(ErrorKind::UnexpectedEof)
    } else {
        match segment(s, p + 2, body_stops()) {
            Err(e) => Err(e),
            Ok((body, q)) => if q < p + 2 || q + 2 > s.len() {
                Err(ErrorKind::UnexpectedEof)
            } else if s[q + 1] == 0x3b {
                Ok((seq![Op::BranchFalse(body.len() as usize)] + body, q + 2))
            } else {
                match segment(s, q + 2, else_stops()) {
                    Err(e) => Err(e),
                    Ok((other, r)) => if r < q + 2 || r + 2 > s.len() {
                        Err(ErrorKind::UnexpectedEof)
                    } else if s[r + 1] == 0x3b {
                        Ok((
                            seq![Op::BranchFalse((body.len() + 1) as usize)] + body + seq![
                                Op::Jump(other.len() as usize),
                            ] + other,
                            r + 2,
                        ))
                    } else {
                        match branches(s, r) {
                            Err(e) => Err(e),
                            Ok((rest, end)) => Ok((
                                seq![Op::BranchFalse((body.len() + 1) as usize)] + body + seq![
                                    Op::Jump((other.len() + rest.len()) as usize),
                                ] + other + rest,
                                end,
                            )),
                        }
                    },
                }
            },
        }
    }
}

/// A conditional whose `%?` ends just before `pos`.
pub open spec fn conditional(s: Seq<u8>, pos: int) -> Compiled
    decreases s.len() - pos, 3int,
{
    match segment(s, pos, then_stops()) {
        Err(e) => Err(e),
        Ok((cond, p)) => if p < pos || p + 2 > s.len() {
            Err(ErrorKind::UnexpectedEof)
        } else {
            after(cond, branches(s, p))
        },
    }
}

/// All ops of the input from `pos` on.
pub open spec fn compile_from(s: Seq<u8>, pos: int) -> Result<Seq<Op>, ErrorKind>
    decreases s.len() - pos,
{
    if pos < 0 || pos >= s.len() {
        Ok(seq![])
    } else {
        match step(s, pos) {
            Err(e) => Err(e),
            Ok((ops, next)) => if next <= pos || next > s.len() {
                Err(ErrorKind::UnexpectedEof)
            } else {
                match compile_from(s, next) {
                    Err(e) => Err(e),
                    Ok(rest) => Ok(ops + rest),
                }
            },
        }
    }
}

/// All ops of a capability string.
pub open spec fn compiled(s: Seq<u8>) -> Result<Seq<Op>, ErrorKind> {
    compile_from(s, 0)
}

} // verus!
