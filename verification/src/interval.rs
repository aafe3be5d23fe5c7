//! Intervals of lines, as a caller writes them: two decimal numbers with a
//! colon between them.

use crate::error::CaptureError;
use crate::text::chars_of;
use vstd::prelude::*;

verus! {

/// An interval of lines: it starts at line 1 or later and does not end
/// before it starts.
pub open spec fn valid_interval(start: int, end: int) -> bool {
    1 <= start <= end
}

/// A decimal digit.
pub open spec fn is_digit(c: char) -> bool {
    '0' <= c && c <= '9'
}

/// A decimal number: one digit or more, and nothing else.
pub open spec fn is_number(text: Seq<char>) -> bool {
    text.len() > 0 && forall|i: int| 0 <= i < text.len() ==> is_digit(#[trigger] text[i])
}

/// The value of a decimal number.
pub open spec fn number_value(text: Seq<char>) -> nat
    decreases text.len(),
{
    if text.len() == 0 {
        0
    } else {
        (10 * number_value(text.drop_last()) + (text.last() as u32 - '0' as u32)) as nat
    }
}

/// `text` is a number, a colon at index `at`, and a number.
pub open spec fn splits_at(text: Seq<char>, at: int) -> bool {
    &&& 0 <= at < text.len()
    &&& text[at] == ':'
    &&& is_number(text.take(at))
    &&& is_number(text.skip(at + 1))
}

/// The two numbers of a text of the form `start:end`; none for a text of
/// another form.
pub open spec fn interval_of(text: Seq<char>) -> Option<(nat, nat)> {
    if exists|at: int| splits_at(text, at) {
        let at = choose|at: int| splits_at(text, at);
        Some((number_value(text.take(at)), number_value(text.skip(at + 1))))
    } else {
        None
    }
}

/// A text of the form `start:end` has its colon at one place only.
pub proof fn splits_at_one_place(text: Seq<char>, at: int, other: int)
    requires
        splits_at(text, at),
        splits_at(text, other),
    ensures
        at == other,
{
    if at < other {
        assert(text.take(other)[at] == ':');
    }
    if other < at {
        assert(text.take(at)[other] == ':');
    }
}

/// A number is worth no less than any of its beginnings.
proof fn value_grows(text: Seq<char>, count: int)
    requires
        0 <= count <= text.len(),
        forall|i: int| 0 <= i < text.len() ==> is_digit(#[trigger] text[i]),
    ensures
        number_value(text.take(count)) <= number_value(text),
    decreases text.len() - count,
{
    if count < text.len() {
        value_grows(text, count + 1);
        assert(text.take(count + 1).drop_last() == text.take(count));
        assert(text.take(count + 1).last() == text[count]);
    } else {
        assert(text.take(count) == text);
    }
}

/// Checks an interval of lines; fails with `InvalidInput`.
pub fn check_interval(start: usize, end: usize) -> (r: Result<(), CaptureError>)
    ensures
        r == if valid_interval(start as int, end as int) {
            Ok::<(), CaptureError>(())
        } else {
            Err::<(), CaptureError>(CaptureError::InvalidInput)
        },
{
    if start < 1 || end < start {
        Err(CaptureError::InvalidInput)
    } else {
        Ok(())
    }
}

/// Reads `text[from..upto]` as a decimal number; gives none where it is no
/// number or its value does not fit.
fn read_number(text: &Vec<char>, from: usize, upto: usize) -> (r: Option<usize>)
    requires
        from <= upto <= text.len(),
    ensures
        match r {
            Some(value) => is_number(text@.subrange(from as int, upto as int)) && number_value(
                text@.subrange(from as int, upto as int),
            ) == value,
            None => !is_number(text@.subrange(from as int, upto as int)) || number_value(
                text@.subrange(from as int, upto as int),
            ) > usize::MAX,
        },
{
    let ghost part = text@.subrange(from as int, upto as int);
    if from == upto {
        return None;
    }
    let mut at: usize = from;
    while at < upto
        invariant
            from <= at <= upto <= text.len(),
            part == text@.subrange(from as int, upto as int),
            forall|i: int| 0 <= i < at - from ==> is_digit(#[trigger] part[i]),
        decreases upto - at,
    {
        let c = text[at];
        if !('0' <= c && c <= '9') {
            assert(!is_digit(part[at - from]));
            return None;
        }
        at = at + 1;
    }
    let mut value: usize = 0;
    let mut at: usize = from;
    while at < upto
        invariant
            from <= at <= upto <= text.len(),
            part == text@.subrange(from as int, upto as int),
            is_number(part),
            value == number_value(part.take(at - from)),
        decreases upto - at,
    {
        let c = text[at];
        assert(is_digit(part[at - from]));
        let digit: usize = (c as u32 - '0' as u32) as usize;
        proof {
            assert(part.take(at - from + 1).drop_last() == part.take(at - from));
            assert(part.take(at - from + 1).last() == c);
            value_grows(part, at - from + 1);
        }
        if value > (usize::MAX - digit) / 10 {
            return None;
        }
        value = value * 10 + digit;
        at = at + 1;
    }
    assert(part.take(at - from) == part);
    Some(value)
}

/// Reads an interval of lines written as `start:end`, both in decimal
/// digits, and checks it.
///
/// Fails with `InvalidInput` where the text has another form, where a
/// number does not fit, where `start` is 0 and where `end` is less than
/// `start`.
pub fn parse_interval(text: &str) -> (r: Result<(usize, usize), CaptureError>)
    ensures
        match r {
            Ok((start, end)) => interval_of(text@) == Some((start as nat, end as nat))
                && valid_interval(start as int, end as int),
            Err(e) => e == CaptureError::InvalidInput && match interval_of(text@) {
                Some((start, end)) => start > usize::MAX || end > usize::MAX || !valid_interval(
                    start as int,
                    end as int,
                ),
                None => true,
            },
        },
{
    let chars = chars_of(text);
    let mut colon: usize = 0;
    while colon < chars.len() && chars[colon] != ':'
        invariant
            colon <= chars.len(),
            forall|i: int| 0 <= i < colon ==> chars@[i] != ':',
        decreases chars.len() - colon,
    {
        colon = colon + 1;
    }
    if colon == chars.len() {
        assert(forall|at: int| !splits_at(text@, at));
        return Err(CaptureError::InvalidInput);
    }
    assert(text@.take(colon as int) == chars@.subrange(0, colon as int));
    assert(text@.skip(colon + 1) == chars@.subrange(colon + 1, chars.len() as int));
    let first = read_number(&chars, 0, colon);
    let second = read_number(&chars, colon + 1, chars.len());
    proof {
        assert forall|at: int| splits_at(text@, at) implies at == colon by {
            if at > colon {
                assert(text@.take(at)[colon as int] == ':');
            }
        }
    }
    match (first, second) {
        (Some(start), Some(end)) => {
            assert(splits_at(text@, colon as int));
            if start < 1 || end < start {
                Err(CaptureError::InvalidInput)
            } else {
                Ok((start, end))
            }
        },
        _ => Err(CaptureError::InvalidInput),
    }
}

} // verus!
