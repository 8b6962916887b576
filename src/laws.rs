//! Facts about compilation as a whole, proved from the grammar.
use vstd::prelude::*;
use crate::ops::{ErrorKind, Op, Span};
use crate::grammar::{
    at_stop, branches, compile_from, compiled, conditional, find_byte, operator_of, segment, step,
    MARKER,
};

verus! {

/// Bytes consumed by the successive steps from `pos` on, added up.
pub open spec fn consumed(s: Seq<u8>, pos: int) -> int
    decreases s.len() - pos,
{
    if pos < 0 || pos >= s.len() {
        0
    } else {
        match step(s, pos) {
            Ok((_, next)) => if pos < next <= s.len() {
                (next - pos) + consumed(s, next)
            } else {
                0
            },
            Err(_) => 0,
        }
    }
}

proof fn lemma_find_absent(s: Seq<u8>, i: int, b: u8)
    requires
        0 <= i <= s.len(),
        forall|j: int| i <= j < s.len() ==> s[j] != b,
    ensures
        find_byte(s, i, b) == s.len(),
    decreases s.len() - i,
{
    if i < s.len() {
        lemma_find_absent(s, i + 1, b);
    }
}

/// Text without the marker compiles to one literal op that spans all of it.
pub proof fn lemma_plain_text(s: Seq<u8>)
    requires
        s.len() > 0,
        forall|i: int| 0 <= i < s.len() ==> s[i] != MARKER,
    ensures
        compiled(s) == Ok::<Seq<Op>, ErrorKind>(
            seq![Op::PrintSlice(Span { start: 0, len: s.len() as usize })],
        ),
{
    lemma_find_absent(s, 0, MARKER);
    assert(compile_from(s, s.len() as int) == Ok::<Seq<Op>, ErrorKind>(seq![]));
    assert(seq![Op::PrintSlice(Span { start: 0, len: s.len() as usize })] + Seq::<Op>::empty()
        =~= seq![Op::PrintSlice(Span { start: 0, len: s.len() as usize })]);
}

/// `%%` compiles to one literal op of the second marker byte.
pub proof fn lemma_escaped_marker(s: Seq<u8>, pos: int)
    requires
        0 <= pos,
        pos + 1 < s.len(),
        s[pos] == MARKER,
        s[pos + 1] == MARKER,
    ensures
        step(s, pos) == Ok::<(Seq<Op>, int), ErrorKind>(
            (seq![Op::PrintSlice(Span { start: (pos + 1) as usize, len: 1 })], pos + 2),
        ),
{
}

/// `%p` and a digit `d` from 1 to 9 push argument `d - 1`; any other byte
/// after `%p` is an invalid argument identifier.
pub proof fn lemma_argument_reference(d: u8)
    ensures
        0x31 <= d <= 0x39 ==> compiled(seq![MARKER, 0x70u8, d]) == Ok::<Seq<Op>, ErrorKind>(
            seq![Op::PushUserArg((d - 0x31) as usize)],
        ),
        !(0x31 <= d <= 0x39) ==> compiled(seq![MARKER, 0x70u8, d]) == Err::<Seq<Op>, ErrorKind>(
            ErrorKind::InvalidArgumentIdentifier,
        ),
{
    let s = seq![MARKER, 0x70u8, d];
    assert(compile_from(s, 3) == Ok::<Seq<Op>, ErrorKind>(seq![]));
    assert(seq![Op::PushUserArg((d - 0x31) as usize)] + Seq::<Op>::empty() =~= seq![
        Op::PushUserArg((d - 0x31) as usize),
    ]);
}

/// Wherever it stands, a one-byte operator escape compiles to exactly its
/// op and consumes exactly its two bytes.
pub proof fn lemma_operator_escape(s: Seq<u8>, pos: int)
    requires
        0 <= pos,
        pos + 1 < s.len(),
        s[pos] == MARKER,
        operator_of(s[pos + 1]) is Some,
    ensures
        step(s, pos) == Ok::<(Seq<Op>, int), ErrorKind>(
            (seq![operator_of(s[pos + 1])->Some_0], pos + 2),
        ),
{
}

/// Where the input from `pos` on compiles, its steps consume every byte
/// from `pos` to the end exactly once.
pub proof fn lemma_steps_consume_all(s: Seq<u8>, pos: int)
    requires
        0 <= pos <= s.len(),
        compile_from(s, pos) is Ok,
    ensures
        consumed(s, pos) == s.len() - pos,
    decreases s.len() - pos,
{
    if pos < s.len() {
        let next = step(s, pos)->Ok_0.1;
        lemma_steps_consume_all(s, next);
    }
}

/// Where a whole input compiles, the bytes consumed by all of its steps add
/// up to its length.
pub proof fn lemma_input_consumed(s: Seq<u8>)
    requires
        compiled(s) is Ok,
    ensures
        consumed(s, 0) == s.len(),
{
    lemma_steps_consume_all(s, 0);
}

proof fn lemma_segment_stops(s: Seq<u8>, pos: int, stops: Seq<u8>)
    requires
        segment(s, pos, stops) is Ok,
    ensures
        pos <= segment(s, pos, stops)->Ok_0.1,
        at_stop(s, segment(s, pos, stops)->Ok_0.1, stops),
    decreases s.len() - pos,
{
    if !at_stop(s, pos, stops) {
        lemma_segment_stops(s, step(s, pos)->Ok_0.1, stops);
    }
}

proof fn lemma_branches_close(s: Seq<u8>, p: int)
    requires
        branches(s, p) is Ok,
    ensures
        p + 4 <= branches(s, p)->Ok_0.1 <= s.len(),
        s[branches(s, p)->Ok_0.1 - 2] == MARKER,
        s[branches(s, p)->Ok_0.1 - 1] == 0x3b,
    decreases s.len() - p,
{
    let body_stops = seq![0x65u8, 0x3bu8];
    let else_stops = seq![0x3bu8, 0x74u8];
    lemma_segment_stops(s, p + 2, body_stops);
    let q = segment(s, p + 2, body_stops)->Ok_0.1;
    if s[q + 1] != 0x3b {
        lemma_segment_stops(s, q + 2, else_stops);
        let r = segment(s, q + 2, else_stops)->Ok_0.1;
        if s[r + 1] != 0x3b {
            lemma_branches_close(s, r);
        }
    }
}

/// A conditional that compiles ends just after its closing `%;`: without
/// one it cannot compile.
pub proof fn lemma_conditional_closes(s: Seq<u8>, pos: int)
    requires
        conditional(s, pos) is Ok,
    ensures
        pos + 4 <= conditional(s, pos)->Ok_0.1 <= s.len(),
        s[conditional(s, pos)->Ok_0.1 - 2] == MARKER,
        s[conditional(s, pos)->Ok_0.1 - 1] == 0x3b,
{
    let p = segment(s, pos, seq![0x74u8])->Ok_0.1;
    lemma_branches_close(s, p);
}

} // verus!
