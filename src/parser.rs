//! The compiler's public face: a cursor into the input and a queue of ops
//! compiled but not yet handed out.
use vstd::prelude::*;
use std::collections::VecDeque;
use crate::ops::{ErrorKind, Op};
use crate::grammar::{compiled, compile_from, step};
use crate::compile::next_instruction;

verus! {

/// `r` with `acc` in front of its ops.
pub open spec fn joined(acc: Seq<Op>, r: Result<Seq<Op>, ErrorKind>) -> Result<Seq<Op>, ErrorKind> {
    match r {
        Ok(rest) => Ok(acc + rest),
        Err(e) => Err(e),
    }
}

/// Compiles a capability string step by step.
pub struct Parser<'a> {
    slice: &'a [u8],
    pos: usize,
    buffer: VecDeque<Op>,
}

impl<'a> Parser<'a> {
    /// The whole input.
    pub closed spec fn input(&self) -> Seq<u8> {
        self.slice@
    }

    /// How many bytes of the input have been compiled.
    pub closed spec fn position(&self) -> int {
        self.pos as int
    }

    /// Ops compiled and not yet handed out, oldest first.
    pub closed spec fn pending(&self) -> Seq<Op> {
        self.buffer@
    }

    pub closed spec fn wf(&self) -> bool {
        self.pos <= self.slice@.len()
    }

    pub fn new(src: &'a [u8]) -> (p: Parser<'a>)
        ensures
            p.wf(),
            p.input() == src@,
            p.position() == 0,
            p.pending() == Seq::<Op>::empty(),
    {
        Parser { slice: src, pos: 0, buffer: VecDeque::with_capacity(4) }
    }

    /// Compiles one step and queues its ops.
    fn compile_step(&mut self) -> (r: Result<(), ErrorKind>)
        requires
            old(self).wf(),
            old(self).position() < old(self).input().len(),
        ensures
            final(self).wf(),
            final(self).input() == old(self).input(),
            match step(old(self).input(), old(self).position()) {
                Ok((ops, next)) => {
                    &&& r is Ok
                    &&& final(self).pending() == old(self).pending() + ops
                    &&& final(self).position() == next
                    &&& old(self).position() < next <= old(self).input().len()
                    &&& ops.len() > 0
                },
                Err(e) => r == Err::<(), ErrorKind>(e) && final(self).position() == old(self).position(),
            },
    {
        let mut ops: Vec<Op> = Vec::new();
        let next = match next_instruction(self.slice, self.pos, &mut ops) {
            Ok(next) => next,
            Err(e) => return Err(e),
        };
        let ghost before = self.buffer@;
        let mut i: usize = 0;
        while i < ops.len()
            invariant
                i <= ops@.len(),
                self.slice == old(self).slice,
                self.pos == old(self).pos,
                self.buffer@ == before + ops@.subrange(0, i as int),
            decreases ops@.len() - i,
        {
            self.buffer.push_back(ops[i]);
            assert(ops@.subrange(0, i + 1) =~= ops@.subrange(0, i as int).push(ops@[i as int]));
            i = i + 1;
        }
        assert(ops@.subrange(0, i as int) =~= ops@);
        self.pos = next;
        Ok(())
    }

    /// Compiles the rest of the input and queues all of its ops.
    pub fn parse(&mut self) -> (r: Result<(), ErrorKind>)
        requires
            old(self).wf(),
        ensures
            final(self).wf(),
            final(self).input() == old(self).input(),
            match compile_from(old(self).input(), old(self).position()) {
                Ok(ops) => {
                    &&& r is Ok
                    &&& final(self).pending() == old(self).pending() + ops
                    &&& final(self).position() == old(self).input().len()
                },
                Err(e) => r == Err::<(), ErrorKind>(e),
            },
    {
        let ghost input = self.slice@;
        let ghost start = self.pos as int;
        let ghost acc: Seq<Op> = seq![];
        while self.pos < self.slice.len()
            invariant
                self.wf(),
                self.slice@ == input,
                input == old(self).input(),
                start == old(self).position(),
                start <= self.pos,
                self.buffer@ == old(self).pending() + acc,
                compile_from(input, start) == joined(acc, compile_from(input, self.pos as int)),
            decreases input.len() - self.pos,
        {
            let ghost p0 = self.pos as int;
            match self.compile_step() {
                Ok(()) => {},
                Err(e) => return Err(e),
            }
            proof {
                let ops = step(input, p0)->Ok_0.0;
                if let Ok(rest) = compile_from(input, self.pos as int) {
                    assert(acc + (ops + rest) =~= (acc + ops) + rest);
                }
                assert(old(self).pending() + (acc + ops) =~= old(self).pending() + acc + ops);
                acc = acc + ops;
            }
        }
        assert(acc + Seq::<Op>::empty() =~= acc);
        Ok(())
    }

    /// Hands out the next op, compiling one more step when none is queued.
    /// `None` once the input is used up; after an error the parser is of
    /// no further use.
    pub fn next(&mut self) -> (r: Option<Result<Op, ErrorKind>>)
        requires
            old(self).wf(),
        ensures
            final(self).wf(),
            final(self).input() == old(self).input(),
            old(self).pending().len() > 0 ==> {
                &&& r == Some(Ok::<Op, ErrorKind>(old(self).pending()[0]))
                &&& final(self).pending() == old(self).pending().drop_first()
                &&& final(self).position() == old(self).position()
            },
            old(self).pending().len() == 0 && old(self).position() >= old(self).input().len()
                ==> r is None,
            old(self).pending().len() == 0 && old(self).position() < old(self).input().len()
                ==> match step(old(self).input(), old(self).position()) {
                Ok((ops, next)) => {
                    &&& r == Some(Ok::<Op, ErrorKind>(ops[0]))
                    &&& final(self).pending() == ops.drop_first()
                    &&& final(self).position() == next
                },
                Err(e) => r == Some(Err::<Op, ErrorKind>(e)),
            },
    {
        if let Some(op) = self.buffer.pop_front() {
            return Some(Ok(op));
        }
        if self.pos >= self.slice.len() {
            return None;
        }
        match self.compile_step() {
            Ok(()) => {},
            Err(e) => return Some(Err(e)),
        }
        proof {
            let ops = step(self.slice@, old(self).pos as int)->Ok_0.0;
            assert(Seq::<Op>::empty() + ops =~= ops);
        }
        match self.buffer.pop_front() {
            Some(op) => Some(Ok(op)),
            None => None,
        }
    }
}

/// Compiles a whole capability string into its list of ops.
pub fn compile(src: &[u8]) -> (r: Result<Vec<Op>, ErrorKind>)
    ensures
        match compiled(src@) {
            Ok(ops) => r is Ok && r->Ok_0@ == ops,
            Err(e) => r == Err::<Vec<Op>, ErrorKind>(e),
        },
{
    let mut p = Parser::new(src);
    match p.parse() {
        Ok(()) => {},
        Err(e) => return Err(e),
    }
    let ghost all = p.pending();
    let mut ops: Vec<Op> = Vec::new();
    while p.buffer.len() > 0
        invariant
            p.wf(),
            p.position() == p.input().len(),
            ops@ + p.pending() == all,
        decreases p.pending().len(),
    {
        let ghost before = p.pending();
        if let Some(Ok(op)) = p.next() {
            ops.push(op);
        }
        assert(ops@ + p.pending() =~= all) by {
            assert(before =~= seq![before[0]] + before.drop_first());
        }
    }
    assert(ops@ + p.pending() =~= ops@);
    Ok(ops)
}

} // verus!
