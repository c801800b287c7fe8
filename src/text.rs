//! Conversions between source text, characters and numbers that lean on std.
use std::num::ParseIntError;
use vstd::prelude::*;

verus! {

/// `std::num::ParseIntError`, carried opaquely inside lexical errors.
#[verifier::external_type_specification]
#[verifier::external_body]
pub struct ExParseIntError(ParseIntError);

/// Relies on `ParseIntError`'s `Clone`, used when a lexical error is cloned.
pub assume_specification[ <ParseIntError as Clone>::clone ](e: &ParseIntError) -> ParseIntError;

/// True when every character of `t` is an ASCII decimal digit.
pub open spec fn all_digits(t: Seq<char>) -> bool {
    forall|j: int| 0 <= j < t.len() ==> '0' <= #[trigger] t[j] && t[j] <= '9'
}

/// The value of a string of decimal digits, most significant first.
pub open spec fn digits_value(t: Seq<char>) -> nat
    decreases t.len(),
{
    if t.len() == 0 {
        0
    } else {
        digits_value(t.drop_last()) * 10 + ((t.last() as u32) - ('0' as u32)) as nat
    }
}

/// Relies on `str::chars` collected into a `Vec`: the characters of the text, in order.
#[verifier::external_body]
pub(crate) fn chars_of(source: &str) -> (r: Vec<char>)
    ensures
        r@ == source@,
{
    source.chars().collect()
}

/// Relies on collecting characters into a `String` (`FromIterator<&char>`): the same characters, in order.
#[verifier::external_body]
pub(crate) fn string_of(chars: &[char]) -> (r: String)
    ensures
        r@ == chars@,
{
    chars.iter().collect()
}

/// Relies on `str::parse::<i64>` (`i64::from_str`): a non-empty string of
/// ASCII digits parses to its decimal value, and fails exactly when that value
/// does not fit in an `i64`.
#[verifier::external_body]
pub(crate) fn parse_i64(text: &str) -> (r: Result<i64, ParseIntError>)
    requires
        text@.len() > 0,
        all_digits(text@),
    ensures
        r.is_ok() <==> digits_value(text@) <= i64::MAX,
        r.is_ok() ==> r.unwrap() == digits_value(text@),
{
    text.parse::<i64>()
}

} // verus!
