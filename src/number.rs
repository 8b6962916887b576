use vstd::prelude::*;

verus! {

/// `b` is an ASCII decimal digit.
pub open spec fn is_digit(b: u8) -> bool {
    0x30 <= b <= 0x39
}

pub open spec fn all_digits(s: Seq<u8>) -> bool {
    forall|i: int| 0 <= i < s.len() ==> is_digit(#[trigger] s[i])
}

/// The value of a string of decimal digits, most significant first.
pub open spec fn digits_value(s: Seq<u8>) -> nat
    decreases s.len(),
{
    if s.len() == 0 {
        0
    } else {
        digits_value(s.drop_last()) * 10 + (s.last() - 0x30) as nat
    }
}

/// The value of a base-10 integer with an optional `+` or `-` sign and at
/// least one digit, where it fits in an `i64`.
pub open spec fn decimal_value(s: Seq<u8>) -> Option<int> {
    let signed = s.len() > 0 && (s[0] == 0x2d || s[0] == 0x2b);
    let digits = if signed { s.drop_first() } else { s };
    let magnitude = digits_value(digits) as int;
    let v = if s.len() > 0 && s[0] == 0x2d { -magnitude } else { magnitude };
    if digits.len() == 0 || !all_digits(digits) || v < i64::MIN || v > i64::MAX {
        None
    } else {
        Some(v)
    }
}

proof fn lemma_digits_push(s: Seq<u8>, start: int, i: int)
    requires
        0 <= start <= i < s.len(),
    ensures
        digits_value(s.subrange(start, i + 1)) == digits_value(s.subrange(start, i)) * 10 + (s[i]
            - 0x30) as nat,
{
    assert(s.subrange(start, i + 1).drop_last() =~= s.subrange(start, i));
}

proof fn lemma_digits_monotone(s: Seq<u8>, j: int)
    requires
        0 <= j <= s.len(),
    ensures
        digits_value(s.subrange(0, j)) <= digits_value(s),
    decreases s.len(),
{
    if j == s.len() {
        assert(s.subrange(0, j) =~= s);
    } else {
        lemma_digits_monotone(s.drop_last(), j);
        assert(s.drop_last().subrange(0, j) =~= s.subrange(0, j));
    }
}

proof fn lemma_too_large(text: Seq<u8>, digits: Seq<u8>)
    requires
        digits == (if text.len() > 0 && (text[0] == 0x2d || text[0] == 0x2b) {
            text.drop_first()
        } else {
            text
        }),
        digits_value(digits) > 0x8000_0000_0000_0000,
    ensures
        decimal_value(text) is None,
{
}

/// Parses `s[start..end]` as a signed base-10 integer.
pub fn parse_decimal(s: &[u8], start: usize, end: usize) -> (r: Option<i64>)
    requires
        start <= end <= s@.len(),
    ensures
        decimal_value(s@.subrange(start as int, end as int)) == match r {
            Some(x) => Some(x as int),
            None => None::<int>,
        },
{
    let ghost text = s@.subrange(start as int, end as int);
    let negative = start < end && s[start] == 0x2d;
    let signed = start < end && (s[start] == 0x2d || s[start] == 0x2b);
    let first: usize = if signed { start + 1 } else { start };
    let ghost digits = s@.subrange(first as int, end as int);
    assert(digits =~= (if signed { text.drop_first() } else { text }));
    assert(start < end ==> text[0] == s@[start as int]);
    if first == end {
        return None;
    }
    let limit: u64 = 0x8000_0000_0000_0000;
    let mut acc: u64 = 0;
    let mut i: usize = first;
    while i < end
        invariant
            first <= i <= end <= s@.len(),
            digits == s@.subrange(first as int, end as int),
            text == s@.subrange(start as int, end as int),
            digits == (if signed { text.drop_first() } else { text }),
            start < end ==> text[0] == s@[start as int],
            negative == (start < end && s@[start as int] == 0x2d),
            signed == (start < end && (s@[start as int] == 0x2d || s@[start as int] == 0x2b)),
            first < end,
            first == (if signed { start + 1 } else { start as int }),
            acc as nat == digits_value(s@.subrange(first as int, i as int)),
            acc <= limit,
            limit == 0x8000_0000_0000_0000u64,
            all_digits(s@.subrange(first as int, i as int)),
        decreases end - i,
    {
        let b = s[i];
        if b < 0x30 || b > 0x39 {
            assert(!is_digit(digits[i - first]));
            return None;
        }
        proof {
            lemma_digits_push(s@, first as int, i as int);
            assert(s@.subrange(first as int, i + 1) =~= s@.subrange(first as int, i as int).push(b));
        }
        let d = (b - 0x30) as u64;
        if acc > 922_337_203_685_477_580 {
            proof {
                assert(digits_value(s@.subrange(first as int, i + 1)) >= acc * 10);
                lemma_digits_monotone(digits, i + 1 - first);
                assert(digits.subrange(0, i + 1 - first) =~= s@.subrange(first as int, i + 1));
                lemma_too_large(text, digits);
            }
            return None;
        }
        let next = acc * 10 + d;
        if next > limit {
            proof {
                lemma_digits_monotone(digits, i + 1 - first);
                assert(digits.subrange(0, i + 1 - first) =~= s@.subrange(first as int, i + 1));
                lemma_too_large(text, digits);
            }
            return None;
        }
        acc = next;
        i = i + 1;
    }
    assert(s@.subrange(first as int, i as int) =~= digits);
    if negative {
        if acc == limit {
            Some(i64::MIN)
        } else {
            Some(-(acc as i64))
        }
    } else if acc > 0x7fff_ffff_ffff_ffff {
        None
    } else {
        Some(acc as i64)
    }
}

} // verus!
