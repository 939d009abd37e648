//! Parsing the countdown length that the operator types: `<minutes>:<seconds>`
//! or a bare number of seconds.

use vstd::prelude::*;
use crate::text::{trim, trimmed};

verus! {

/// The typed text is not a countdown length.
#[derive(Debug, PartialEq, Eq, Structural, Clone, Copy)]
pub struct ParseError;

pub open spec fn is_digit(c: char) -> bool {
    '0' <= c && c <= '9'
}

pub open spec fn all_digits(s: Seq<char>) -> bool {
    forall|i: int| 0 <= i < s.len() ==> is_digit(#[trigger] s[i])
}

/// The number that a run of decimal digits writes.
pub open spec fn digits_value(s: Seq<char>) -> nat
    decreases s.len(),
{
    if s.len() == 0 {
        0
    } else {
        digits_value(s.drop_last()) * 10 + ((s.last() as int - '0' as int) as nat)
    }
}

/// The digits of an unsigned number text: one or more decimal digits, after
/// an optional `+`.
pub open spec fn number_digits(s: Seq<char>) -> Seq<char> {
    if s.len() > 0 && s[0] == '+' {
        s.drop_first()
    } else {
        s
    }
}

/// What reading `s` as a `u64` gives: its value when `s` is an unsigned number
/// text whose value fits, else nothing.
pub open spec fn number_of(s: Seq<char>) -> Option<u64> {
    let d = number_digits(s);
    if d.len() > 0 && all_digits(d) && digits_value(d) <= u64::MAX {
        Some(digits_value(d) as u64)
    } else {
        None
    }
}

/// `i` is the position of the first colon of `s`.
pub open spec fn is_first_colon(s: Seq<char>, i: int) -> bool {
    0 <= i < s.len() && s[i] == ':' && forall|j: int| 0 <= j < i ==> s[j] != ':'
}

/// The seconds that a countdown text stands for: with a colon, the minutes
/// before the first one and the seconds after it (seconds past 59 allowed);
/// without, a number of seconds. Nothing when a part is not a number or the
/// total does not fit in a `u64`.
pub open spec fn duration_of(s: Seq<char>) -> Option<u64> {
    if exists|i: int| is_first_colon(s, i) {
        let c = choose|i: int| is_first_colon(s, i);
        match (number_of(s.take(c)), number_of(s.skip(c + 1))) {
            (Some(m), Some(x)) => if m * 60 + x <= u64::MAX {
                Some((m * 60 + x) as u64)
            } else {
                None
            },
            _ => None,
        }
    } else {
        number_of(s)
    }
}

/// Reads `s[from..to]` as a `u64`.
fn number_in(s: &Vec<char>, from: usize, to: usize) -> (r: Option<u64>)
    requires
        from <= to <= s@.len(),
    ensures
        r == number_of(s@.subrange(from as int, to as int)),
{
    let ghost t = s@.subrange(from as int, to as int);
    let start: usize = if from < to && s[from] == '+' {
        from + 1
    } else {
        from
    };
    let ghost d = number_digits(t);
    assert(d =~= s@.subrange(start as int, to as int));
    if start == to {
        return None;
    }
    let mut value: u64 = 0;
    let mut i: usize = start;
    let mut fits = true;
    while i < to
        invariant
            start <= i <= to <= s@.len(),
            d == s@.subrange(start as int, to as int),
            d == number_digits(s@.subrange(from as int, to as int)),
            all_digits(d.take(i - start)),
            fits ==> value == digits_value(d.take(i - start)),
            !fits ==> digits_value(d.take(i - start)) > u64::MAX,
        decreases to - i,
    {
        let c = s[i];
        if !('0' <= c && c <= '9') {
            assert(d[i - start] == c);
            assert(!is_digit(d[i - start]));
            assert(!all_digits(d));
            return None;
        }
        let ghost k = i - start;
        assert(d.take(k + 1).drop_last() =~= d.take(k));
        assert(d.take(k + 1).last() == c);
        let digit: u64 = ((c as u32) - ('0' as u32)) as u64;
        if fits {
            if value > (u64::MAX - digit) / 10 {
                fits = false;
                assert(value * 10 + digit > u64::MAX) by (nonlinear_arith)
                    requires
                        value > (u64::MAX - digit) / 10,
                        digit <= 9,
                ;
            } else {
                assert(value * 10 + digit <= u64::MAX) by (nonlinear_arith)
                    requires
                        value <= (u64::MAX - digit) / 10,
                        digit <= 9,
                ;
                value = value * 10 + digit;
            }
        } else {
            assert(digits_value(d.take(k + 1)) >= digits_value(d.take(k)) * 10) by (nonlinear_arith)
                requires
                    digits_value(d.take(k + 1)) == digits_value(d.take(k)) * 10 + (c as int
                        - '0' as int),
                    c as int >= '0' as int,
            ;
        }
        i = i + 1;
    }
    assert(d.take(to - start) =~= d);
    if fits {
        Some(value)
    } else {
        None
    }
}

/// The seconds that a countdown text stands for, `<minutes>:<seconds>` or a
/// bare number of seconds.
pub fn parse_duration(s: &Vec<char>) -> (r: Result<u64, ParseError>)
    ensures
        r == (match duration_of(s@) {
            Some(v) => Ok::<u64, ParseError>(v),
            None => Err(ParseError),
        }),
{
    let mut i: usize = 0;
    while i < s.len()
        invariant
            i <= s@.len(),
            forall|j: int| 0 <= j < i ==> s@[j] != ':',
        decreases s@.len() - i,
    {
        if s[i] == ':' {
            assert(is_first_colon(s@, i as int));
            let ghost c = choose|c: int| is_first_colon(s@, c);
            assert(c == i);
            let minutes = number_in(s, 0, i);
            let seconds = number_in(s, i + 1, s.len());
            assert(s@.subrange(0, i as int) =~= s@.take(i as int));
            assert(s@.subrange(i + 1, s@.len() as int) =~= s@.skip(i + 1));
            return match (minutes, seconds) {
                (Some(m), Some(x)) => if m <= (u64::MAX - x) / 60 {
                    assert(m * 60 + x <= u64::MAX) by (nonlinear_arith)
                        requires
                            m <= (u64::MAX - x) / 60,
                    ;
                    Ok(m * 60 + x)
                } else {
                    assert(m * 60 + x > u64::MAX) by (nonlinear_arith)
                        requires
                            m > (u64::MAX - x) / 60,
                    ;
                    Err(ParseError)
                },
                _ => Err(ParseError),
            };
        }
        i = i + 1;
    }
    assert(!exists|c: int| is_first_colon(s@, c));
    assert(s@.subrange(0, s@.len() as int) =~= s@);
    match number_in(s, 0, s.len()) {
        Some(v) => Ok(v),
        None => Err(ParseError),
    }
}

/// The seconds that the operator's countdown text stands for, read after
/// leading and trailing whitespace is removed.
pub fn parse_timer_input(input: &Vec<char>) -> (r: Result<u64, ParseError>)
    ensures
        r == (match duration_of(trimmed(input@)) {
            Some(v) => Ok::<u64, ParseError>(v),
            None => Err(ParseError),
        }),
{
    let text = trim(input);
    parse_duration(&text)
}

} // verus!
