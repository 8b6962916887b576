//! The compiler proper: each function appends the ops of one piece of the
//! input to `out` and returns the position after that piece.
use vstd::prelude::*;
use crate::ops::{Argument, ErrorKind, Op, Span};
use crate::number::parse_decimal;
use crate::grammar::{
    at_stop, body_stops, branches, conditional, else_stops, find_byte, find_conversion,
    operator_of, produced, segment, step, then_stops, Compiled, MARKER,
};

verus! {

/// The first index at or after `from` where `s` holds `b`, or `s.len()`.
fn scan_for(s: &[u8], from: usize, b: u8) -> (r: usize)
    requires
        from <= s@.len(),
    ensures
        r == find_byte(s@, from as int, b),
        from <= r <= s@.len(),
{
    let mut i: usize = from;
    while i < s.len()
        invariant
            from <= i <= s@.len(),
            find_byte(s@, from as int, b) == find_byte(s@, i as int, b),
        decreases s@.len() - i,
    {
        if s[i] == b {
            return i;
        }
        i = i + 1;
    }
    i
}

/// The first index at or after `from` holding a conversion byte, or `s.len()`.
fn scan_conversion(s: &[u8], from: usize) -> (r: usize)
    requires
        from <= s@.len(),
    ensures
        r == find_conversion(s@, from as int),
        from <= r <= s@.len(),
{
    let mut i: usize = from;
    while i < s.len()
        invariant
            from <= i <= s@.len(),
            find_conversion(s@, from as int) == find_conversion(s@, i as int),
        decreases s@.len() - i,
    {
        let c = s[i];
        // x X c d o s
        if c == 0x78 || c == 0x58 || c == 0x63 || c == 0x64 || c == 0x6f || c == 0x73 {
            return i;
        }
        i = i + 1;
    }
    i
}

fn contains(stops: &[u8], b: u8) -> (r: bool)
    ensures
        r == stops@.contains(b),
{
    let mut i: usize = 0;
    while i < stops.len()
        invariant
            i <= stops@.len(),
            forall|j: int| 0 <= j < i ==> stops@[j] != b,
        decreases stops@.len() - i,
    {
        if stops[i] == b {
            return true;
        }
        i = i + 1;
    }
    false
}

/// The op of a one-byte operator escape: one of `i l + - * / m & ^ | = < > ~ !`.
fn operator(sel: u8) -> (r: Option<Op>)
    ensures
        r == operator_of(sel),
{
    match sel {
        0x69 => Some(Op::IncrementArgs),
        0x6c => Some(Op::StrLen),
        0x2b => Some(Op::Add),
        0x2d => Some(Op::Sub),
        0x2a => Some(Op::Mul),
        0x2f => Some(Op::Div),
        0x6d => Some(Op::Mod),
        0x26 => Some(Op::BitAnd),
        0x5e => Some(Op::BitXor),
        0x7c => Some(Op::BitOr),
        0x3d => Some(Op::Equal),
        0x3c => Some(Op::Less),
        0x3e => Some(Op::Greater),
        0x7e => Some(Op::Invert),
        0x21 => Some(Op::Not),
        _ => None,
    }
}

/// Appends one op.
fn emit(out: &mut Vec<Op>, op: Op)
    ensures
        final(out)@ == old(out)@ + seq![op],
{
    out.push(op);
    assert(out@ =~= old(out)@ + seq![op]);
}

/// The ops of a successful result.
spec fn ops_of(c: Compiled) -> Seq<Op> {
    match c {
        Ok((ops, _)) => ops,
        Err(_) => seq![],
    }
}

/// Compiles one step at `pos`: a run of literal text, one escape, or a whole
/// conditional. At the end of the input it appends nothing.
pub(crate) fn next_instruction(s: &[u8], pos: usize, out: &mut Vec<Op>) -> (r: Result<
    usize,
    ErrorKind,
>)
    requires
        pos <= s@.len(),
    ensures
        produced(step(s@, pos as int), old(out)@, final(out)@, r),
        pos < s@.len() && r is Ok ==> pos < r->Ok_0 <= s@.len() && final(out)@.len() > old(
            out,
        )@.len(),
    decreases s@.len() - pos, 0int,
{
    if pos >= s.len() {
        return Ok(pos);
    }
    if s[pos] != MARKER {
        let end = scan_for(s, pos + 1, MARKER);
        emit(out, Op::PrintSlice(Span { start: pos, len: end - pos }));
        return Ok(end);
    }
    if s.len() - pos < 2 {
        return Err(ErrorKind::UnexpectedEof);
    }
    let sel = s[pos + 1];
    if sel == MARKER {
        emit(out, Op::PrintSlice(Span { start: pos + 1, len: 1 }));
        return Ok(pos + 2);
    }
    // `%p` and a digit from 1 to 9: an argument
    if sel == 0x70 {
        if pos + 2 < s.len() && s[pos + 2] >= 0x31 && s[pos + 2] <= 0x39 {
            emit(out, Op::PushUserArg((s[pos + 2] - 0x31) as usize));
            return Ok(pos + 3);
        }
        return Err(ErrorKind::InvalidArgumentIdentifier);
    }
    // `%{` digits `}`: an integer constant
    if sel == 0x7b {
        let close = scan_for(s, pos + 2, 0x7d);
        if close >= s.len() {
            return Err(ErrorKind::InvalidNumber);
        }
        return match parse_decimal(s, pos + 2, close) {
            Some(v) => {
                emit(out, Op::Push(Argument::Integer(v)));
                Ok(close + 1)
            },
            None => Err(ErrorKind::InvalidNumber),
        };
    }
    // `%'` one ASCII byte `'`: a character constant
    if sel == 0x27 {
        if s.len() - pos > 3 && s[pos + 3] == 0x27 && s[pos + 2] != 0x27 && s[pos + 2] < 0x80 {
            emit(out, Op::Push(Argument::Char(s[pos + 2] as char)));
            return Ok(pos + 4);
        }
        return Err(ErrorKind::InvalidChar);
    }
    // `%?`: a conditional
    if sel == 0x3f {
        return parse_conditional(s, pos + 2, out);
    }
    if let Some(op) = operator(sel) {
        emit(out, op);
        return Ok(pos + 2);
    }
    // anything else starts a printf-style directive
    let conv = scan_conversion(s, pos + 1);
    if conv >= s.len() {
        return Err(ErrorKind::UnexpectedEof);
    }
    emit(out, Op::Print(Span { start: pos + 1, len: conv - pos }));
    Ok(conv + 1)
}

/// Compiles steps from `pos` until the marker is followed by a byte of
/// `stops`, and returns the position of that marker.
fn parse_until(s: &[u8], pos: usize, stops: &[u8], out: &mut Vec<Op>) -> (r: Result<
    usize,
    ErrorKind,
>)
    requires
        pos <= s@.len(),
    ensures
        produced(segment(s@, pos as int, stops@), old(out)@, final(out)@, r),
        r is Ok ==> pos <= r->Ok_0 && at_stop(s@, r->Ok_0 as int, stops@),
    decreases s@.len() - pos, 1int,
{
    if s.len() - pos < 2 {
        return Err(ErrorKind::UnexpectedEof);
    }
    if s[pos] == MARKER && contains(stops, s[pos + 1]) {
        assert(out@ =~= old(out)@ + seq![]);
        return Ok(pos);
    }
    let ghost prior = out@;
    let next = match next_instruction(s, pos, out) {
        Ok(next) => next,
        Err(e) => return Err(e),
    };
    let ghost ops = ops_of(step(s@, pos as int));
    let r = parse_until(s, next, stops, out);
    proof {
        if let Ok((rest, _)) = segment(s@, next as int, stops@) {
            assert(out@ =~= prior + (ops + rest));
        }
    }
    r
}

/// Compiles a conditional whose `%?` ends just before `pos`.
fn parse_conditional(s: &[u8], pos: usize, out: &mut Vec<Op>) -> (r: Result<usize, ErrorKind>)
    requires
        pos <= s@.len(),
    ensures
        produced(conditional(s@, pos as int), old(out)@, final(out)@, r),
        r is Ok ==> pos < r->Ok_0 <= s@.len() && final(out)@.len() > old(out)@.len(),
    decreases s@.len() - pos, 3int,
{
    let ghost prior = out@;
    // the condition runs up to `%t`
    let stops: [u8; 1] = [0x74];
    assert(stops@ =~= then_stops());
    let p = match parse_until(s, pos, stops.as_slice(), out) {
        Ok(p) => p,
        Err(e) => return Err(e),
    };
    let ghost cond = ops_of(segment(s@, pos as int, then_stops()));
    let r = parse_branches(s, p, out);
    proof {
        if let Ok((rest, _)) = branches(s@, p as int) {
            assert(out@ =~= prior + (cond + rest));
        }
    }
    r
}

/// Compiles a conditional from its `%t` at `p` through its closing `%;`.
///
/// A no-op holds the place of each branch and jump until the ops that it
/// skips are compiled; then it is overwritten with the offset.
fn parse_branches(s: &[u8], p: usize, out: &mut Vec<Op>) -> (r: Result<usize, ErrorKind>)
    requires
        p <= s@.len(),
    ensures
        produced(branches(s@, p as int), old(out)@, final(out)@, r),
        r is Ok ==> p < r->Ok_0 <= s@.len() && final(out)@.len() > old(out)@.len(),
    decreases s@.len() - p, 2int,
{
    if s.len() - p < 2 {
        return Err(ErrorKind::UnexpectedEof);
    }
    let ghost prior = out@;
    let branch_idx = out.len();
    out.push(Op::NoOp);
    // the then-body runs up to `%e` or `%;`
    let stops: [u8; 2] = [0x65, 0x3b];
    assert(stops@ =~= body_stops());
    let q = match parse_until(s, p + 2, stops.as_slice(), out) {
        Ok(q) => q,
        Err(e) => return Err(e),
    };
    let ghost body = ops_of(segment(s@, p + 2, body_stops()));
    if s[q + 1] == 0x3b {
        let offset = out.len() - 1 - branch_idx;
        out.set(branch_idx, Op::BranchFalse(offset));
        assert(out@ =~= prior + (seq![Op::BranchFalse(body.len() as usize)] + body));
        return Ok(q + 2);
    }
    let jump_idx = out.len();
    out.push(Op::NoOp);
    let offset = out.len() - 1 - branch_idx;
    out.set(branch_idx, Op::BranchFalse(offset));
    // after `%e` comes an else-body up to `%;`, or a condition up to `%t`
    let stops: [u8; 2] = [0x3b, 0x74];
    assert(stops@ =~= else_stops());
    let r = match parse_until(s, q + 2, stops.as_slice(), out) {
        Ok(r) => r,
        Err(e) => return Err(e),
    };
    let ghost other = ops_of(segment(s@, q + 2, else_stops()));
    let end = if s[r + 1] == 0x3b {
        r + 2
    } else {
        match parse_branches(s, r, out) {
            Ok(end) => end,
            Err(e) => return Err(e),
        }
    };
    let ghost rest = if s@[r + 1] == 0x3b {
        seq![]
    } else {
        ops_of(branches(s@, r as int))
    };
    let distance = out.len() - jump_idx - 1;
    out.set(jump_idx, Op::Jump(distance));
    assert(out@ =~= prior + (seq![Op::BranchFalse((body.len() + 1) as usize)] + body + seq![
        Op::Jump((other.len() + rest.len()) as usize),
    ] + other + rest));
    Ok(end)
}

} // verus!
