//! Decimal numbers as they appear in dice notation.

use vstd::prelude::*;
use crate::error::Error;

verus! {

/// Whether `c` is one of the ten ASCII decimal digits.
pub open spec fn is_digit(c: char) -> bool {
    '0' <= c && c <= '9'
}

/// The value of the decimal digit `c`.
pub open spec fn digit_value(c: char) -> int {
    c as int - '0' as int
}

/// Whether `text` consists of decimal digits only.
pub open spec fn all_digits(text: Seq<char>) -> bool {
    forall|i: int| 0 <= i < text.len() ==> is_digit(#[trigger] text[i])
}

/// The number that the digits of `text` denote in base ten; the empty text
/// denotes 0.
pub open spec fn decimal_value(text: Seq<char>) -> int
    decreases text.len(),
{
    if text.len() == 0 {
        0
    } else {
        decimal_value(text.drop_last()) * 10 + digit_value(text.last())
    }
}

/// The `i32` that `text` denotes: `text` must be a non-empty run of decimal
/// digits whose value is at most `i32::MAX`.
pub open spec fn number_of(text: Seq<char>) -> Option<i32> {
    if text.len() > 0 && all_digits(text) && decimal_value(text) <= i32::MAX {
        Some(decimal_value(text) as i32)
    } else {
        None
    }
}

/// The value of a run of digits is never negative, and appending digits
/// never makes it smaller.
proof fn lemma_decimal_value_grows(text: Seq<char>, k: int)
    requires
        all_digits(text),
        0 <= k <= text.len(),
    ensures
        0 <= decimal_value(text.take(k)) <= decimal_value(text),
    decreases text.len() - k,
{
    if k == text.len() {
        assert(text.take(k) =~= text);
        lemma_decimal_value_nonnegative(text);
    } else {
        lemma_decimal_value_grows(text, k + 1);
        let longer = text.take(k + 1);
        assert(longer.drop_last() =~= text.take(k));
        lemma_decimal_value_nonnegative(text.take(k));
    }
}

/// The value of a run of digits is never negative.
proof fn lemma_decimal_value_nonnegative(text: Seq<char>)
    requires
        all_digits(text),
    ensures
        0 <= decimal_value(text),
    decreases text.len(),
{
    if text.len() > 0 {
        lemma_decimal_value_nonnegative(text.drop_last());
    }
}

/// A number is never negative.
pub proof fn lemma_number_of_nonnegative(text: Seq<char>)
    ensures
        number_of(text) matches Some(n) ==> 0 <= n,
{
    if number_of(text) is Some {
        lemma_decimal_value_nonnegative(text);
    }
}

/// Reads `text` as a decimal number.
pub fn parse_number(text: &str) -> (r: Result<i32, Error>)
    ensures
        r == (match number_of(text@) {
            Some(n) => Ok::<i32, Error>(n),
            None => Err::<i32, Error>(Error::NumberParseFailure),
        }),
        r matches Ok(n) ==> n >= 0,
{
    let mut value: i64 = 0;
    let mut empty: bool = true;
    for c in it: text.chars()
        invariant
            it.seq() == text@,
            empty <==> it.index() == 0,
            all_digits(text@.take(it.index() as int)),
            value == decimal_value(text@.take(it.index() as int)),
            0 <= value <= i32::MAX,
    {
        let ghost seen = it.index() as int;
        if c < '0' || c > '9' {
            return Err(Error::NumberParseFailure);
        }
        let digit: i64 = (c as u32 - '0' as u32) as i64;
        proof {
            let longer = text@.take(seen + 1);
            assert(longer.drop_last() =~= text@.take(seen));
            assert(all_digits(longer)) by {
                assert forall|j: int| 0 <= j < seen implies is_digit(#[trigger] longer[j]) by {
                    assert(longer[j] == text@.take(seen)[j]);
                }
            }
        }
        value = value * 10 + digit;
        if value > i32::MAX as i64 {
            proof {
                if all_digits(text@) {
                    lemma_decimal_value_grows(text@, seen + 1);
                }
            }
            return Err(Error::NumberParseFailure);
        }
        empty = false;
    }
    assert(text@.take(text@.len() as int) =~= text@);
    if empty {
        Err(Error::NumberParseFailure)
    } else {
        Ok(value as i32)
    }
}

} // verus!
