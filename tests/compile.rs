use capstring::number::parse_decimal;
use capstring::{compile, Argument, ErrorKind, Op, Parser, Span};

fn push_int(v: i64) -> Op {
    Op::Push(Argument::Integer(v))
}

#[test]
fn plain_text_is_one_slice() {
    let ops = compile(b"hello, world").unwrap();
    assert_eq!(ops, vec![Op::PrintSlice(Span { start: 0, len: 12 })]);
}

#[test]
fn empty_input_has_no_ops() {
    assert_eq!(compile(b"").unwrap(), vec![]);
    let mut p = Parser::new(b"");
    assert_eq!(p.next(), None);
}

#[test]
fn escaped_marker() {
    assert_eq!(compile(b"%%").unwrap(), vec![Op::PrintSlice(Span { start: 1, len: 1 })]);
}

#[test]
fn text_around_escapes() {
    let ops = compile(b"ab%%cd").unwrap();
    assert_eq!(
        ops,
        vec![
            Op::PrintSlice(Span { start: 0, len: 2 }),
            Op::PrintSlice(Span { start: 3, len: 1 }),
            Op::PrintSlice(Span { start: 4, len: 2 }),
        ]
    );
}

#[test]
fn argument_references() {
    for d in 1..=9u8 {
        let src = [b'%', b'p', b'0' + d];
        assert_eq!(compile(&src).unwrap(), vec![Op::PushUserArg((d - 1) as usize)]);
    }
}

#[test]
fn bad_argument_references() {
    assert_eq!(compile(b"%p0"), Err(ErrorKind::InvalidArgumentIdentifier));
    assert_eq!(compile(b"%px"), Err(ErrorKind::InvalidArgumentIdentifier));
    assert_eq!(compile(b"%p"), Err(ErrorKind::InvalidArgumentIdentifier));
}

#[test]
fn integer_literals() {
    assert_eq!(compile(b"%{12}").unwrap(), vec![push_int(12)]);
    assert_eq!(compile(b"%{-5}").unwrap(), vec![push_int(-5)]);
    assert_eq!(compile(b"%{+7}").unwrap(), vec![push_int(7)]);
    assert_eq!(compile(b"%{0}").unwrap(), vec![push_int(0)]);
    assert_eq!(compile(b"%{9223372036854775807}").unwrap(), vec![push_int(i64::MAX)]);
    assert_eq!(compile(b"%{-9223372036854775808}").unwrap(), vec![push_int(i64::MIN)]);
}

#[test]
fn bad_integer_literals() {
    assert_eq!(compile(b"%{}"), Err(ErrorKind::InvalidNumber));
    assert_eq!(compile(b"%{ab}"), Err(ErrorKind::InvalidNumber));
    assert_eq!(compile(b"%{1a}"), Err(ErrorKind::InvalidNumber));
    assert_eq!(compile(b"%{-}"), Err(ErrorKind::InvalidNumber));
    assert_eq!(compile(b"%{12"), Err(ErrorKind::InvalidNumber));
    assert_eq!(compile(b"%{9223372036854775808}"), Err(ErrorKind::InvalidNumber));
    assert_eq!(compile(b"%{-9223372036854775809}"), Err(ErrorKind::InvalidNumber));
    assert_eq!(compile(b"%{99999999999999999999999}"), Err(ErrorKind::InvalidNumber));
}

#[test]
fn char_literals() {
    assert_eq!(compile(b"%'A'").unwrap(), vec![Op::Push(Argument::Char('A'))]);
    assert_eq!(compile(b"%'%'").unwrap(), vec![Op::Push(Argument::Char('%'))]);
}

#[test]
fn bad_char_literals() {
    assert_eq!(compile(b"%''"), Err(ErrorKind::InvalidChar));
    assert_eq!(compile(b"%'AB'"), Err(ErrorKind::InvalidChar));
    assert_eq!(compile(b"%'A"), Err(ErrorKind::InvalidChar));
    assert_eq!(compile(&[b'%', b'\'', 0xc3, b'\'']), Err(ErrorKind::InvalidChar));
}

#[test]
fn operator_escapes() {
    let table = [
        (b'i', Op::IncrementArgs),
        (b'l', Op::StrLen),
        (b'+', Op::Add),
        (b'-', Op::Sub),
        (b'*', Op::Mul),
        (b'/', Op::Div),
        (b'm', Op::Mod),
        (b'&', Op::BitAnd),
        (b'^', Op::BitXor),
        (b'|', Op::BitOr),
        (b'=', Op::Equal),
        (b'<', Op::Less),
        (b'>', Op::Greater),
        (b'~', Op::Invert),
        (b'!', Op::Not),
    ];
    for (sel, op) in table {
        let src = [b'%', sel, b'x', b'y'];
        let ops = compile(&src).unwrap();
        assert_eq!(ops, vec![op, Op::PrintSlice(Span { start: 2, len: 2 })]);
    }
}

#[test]
fn printf_directives() {
    assert_eq!(compile(b"%d").unwrap(), vec![Op::Print(Span { start: 1, len: 1 })]);
    assert_eq!(compile(b"%02x;").unwrap(), vec![
        Op::Print(Span { start: 1, len: 3 }),
        Op::PrintSlice(Span { start: 4, len: 1 }),
    ]);
    assert_eq!(compile(b"%:-3s").unwrap(), vec![Op::Print(Span { start: 1, len: 4 })]);
    assert_eq!(compile(b"%5"), Err(ErrorKind::UnexpectedEof));
    assert_eq!(compile(b"%"), Err(ErrorKind::UnexpectedEof));
}

#[test]
fn minimal_conditional() {
    assert_eq!(
        compile(b"%?%{1}%t%{2}%;").unwrap(),
        vec![push_int(1), Op::BranchFalse(1), push_int(2)]
    );
}

#[test]
fn conditional_with_else() {
    assert_eq!(
        compile(b"%?%{1}%t%{2}%e%{3}%;").unwrap(),
        vec![push_int(1), Op::BranchFalse(2), push_int(2), Op::Jump(1), push_int(3)]
    );
}

#[test]
fn conditional_with_else_if() {
    assert_eq!(
        compile(b"%?%{1}%t%{2}%e%{3}%t%{4}%e%{5}%;").unwrap(),
        vec![
            push_int(1),
            Op::BranchFalse(2),
            push_int(2),
            Op::Jump(5),
            push_int(3),
            Op::BranchFalse(2),
            push_int(4),
            Op::Jump(1),
            push_int(5),
        ]
    );
    assert_eq!(
        compile(b"%?%{1}%t%{2}%e%{3}%t%{4}%;").unwrap(),
        vec![push_int(1), Op::BranchFalse(2), push_int(2), Op::Jump(3), push_int(3), Op::BranchFalse(1), push_int(4)]
    );
}

#[test]
fn nested_conditional() {
    assert_eq!(
        compile(b"%?%p1%t%?%p2%t%{1}%;%e%{2}%;").unwrap(),
        vec![
            Op::PushUserArg(0),
            Op::BranchFalse(4),
            Op::PushUserArg(1),
            Op::BranchFalse(1),
            push_int(1),
            Op::Jump(1),
            push_int(2),
        ]
    );
}

#[test]
fn unterminated_conditional() {
    assert_eq!(compile(b"%?%{1}%t%{2}"), Err(ErrorKind::UnexpectedEof));
    assert_eq!(compile(b"%?%{1}%t%{2}%e%{3}"), Err(ErrorKind::UnexpectedEof));
    assert_eq!(compile(b"%?%{1}"), Err(ErrorKind::UnexpectedEof));
}

#[test]
fn spans_cover_the_input() {
    let src = b"\x1b[%i%p1%dm%%x";
    let ops = compile(src).unwrap();
    assert_eq!(
        ops,
        vec![
            Op::PrintSlice(Span { start: 0, len: 2 }),
            Op::IncrementArgs,
            Op::PushUserArg(0),
            Op::Print(Span { start: 8, len: 1 }),
            Op::PrintSlice(Span { start: 9, len: 1 }),
            Op::PrintSlice(Span { start: 11, len: 1 }),
            Op::PrintSlice(Span { start: 12, len: 1 }),
        ]
    );
}

#[test]
fn next_hands_out_ops_in_order() {
    let src = b"a%?%p1%t%{2}%;b";
    let mut p = Parser::new(src);
    let mut seen = Vec::new();
    while let Some(r) = p.next() {
        seen.push(r.unwrap());
    }
    assert_eq!(seen, compile(src).unwrap());
    assert_eq!(p.next(), None);
}

#[test]
fn next_reports_errors() {
    let mut p = Parser::new(b"x%p0");
    assert_eq!(p.next(), Some(Ok(Op::PrintSlice(Span { start: 0, len: 1 }))));
    assert_eq!(p.next(), Some(Err(ErrorKind::InvalidArgumentIdentifier)));
}

#[test]
fn parse_queues_everything() {
    let mut p = Parser::new(b"%p1%p2%+%d");
    assert_eq!(p.parse(), Ok(()));
    assert_eq!(p.next(), Some(Ok(Op::PushUserArg(0))));
    assert_eq!(p.next(), Some(Ok(Op::PushUserArg(1))));
    assert_eq!(p.next(), Some(Ok(Op::Add)));
    assert_eq!(p.next(), Some(Ok(Op::Print(Span { start: 9, len: 1 }))));
    assert_eq!(p.next(), None);
    let mut bad = Parser::new(b"%{x}");
    assert_eq!(bad.parse(), Err(ErrorKind::InvalidNumber));
}

#[test]
fn argument_constructors() {
    assert_eq!(Argument::from_integer(-3), Argument::Integer(-3));
    assert_eq!(Argument::from_char('z'), Argument::Char('z'));
}

#[test]
fn decimal_parsing_of_a_range() {
    let s = b"x-42}";
    assert_eq!(parse_decimal(s, 1, 4), Some(-42));
    assert_eq!(parse_decimal(s, 2, 4), Some(42));
    assert_eq!(parse_decimal(s, 1, 2), None);
    assert_eq!(parse_decimal(s, 0, 4), None);
    assert_eq!(parse_decimal(s, 2, 2), None);
}
