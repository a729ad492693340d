//! Decimal numerals: what they denote, reading them and writing them.

use std::num::ParseIntError;
use vstd::prelude::*;

verus! {

/// The error of std's integer parsers. Nothing is read from it here: it is
/// carried to the caller as it came.
#[verifier::external_type_specification]
#[verifier::external_body]
pub struct ExParseIntError(ParseIntError);

/// Whether `c` is one of `0` to `9`.
pub open spec fn is_digit(c: char) -> bool {
    '0' as int <= c as int <= '9' as int
}

/// The digit that stands for `d`, for `d` below ten.
pub open spec fn digit_char(d: nat) -> char {
    ('0' as int + d) as char
}

/// Whether `text` consists of decimal digits only.
pub open spec fn all_digits(text: Seq<char>) -> bool {
    forall|i: int| 0 <= i < text.len() ==> is_digit(#[trigger] text[i])
}

/// The number that a string of decimal digits denotes; leading zeros count
/// for nothing.
pub open spec fn digits_value(digits: Seq<char>) -> nat
    decreases digits.len(),
{
    if digits.len() == 0 {
        0
    } else {
        (digits_value(digits.drop_last()) * 10 + (digits.last() as int - '0' as int)) as nat
    }
}

/// The number that a numeral denotes. A numeral is an optional `+` followed
/// by at least one decimal digit and nothing else; of any other text the
/// result is `None`.
pub open spec fn numeral_value(text: Seq<char>) -> Option<nat> {
    let digits = if text.len() > 0 && text[0] == '+' {
        text.drop_first()
    } else {
        text
    };
    if digits.len() > 0 && all_digits(digits) {
        Some(digits_value(digits))
    } else {
        None
    }
}

/// The shortest numeral of `n`.
pub open spec fn decimal_digits(n: nat) -> Seq<char>
    decreases n,
{
    if n < 10 {
        seq![digit_char(n)]
    } else {
        decimal_digits(n / 10).push(digit_char(n % 10))
    }
}

/// `str::parse::<u64>` of std. Its documentation promises that it accepts an
/// optional `+` followed by decimal digits and nothing else, and fails when
/// the text is empty, holds any other character, or denotes a number above
/// `u64::MAX`. The contract says that in terms of `numeral_value`.
#[verifier::external_body]
pub(crate) fn parse_u64(text: &str) -> (parsed: Result<u64, ParseIntError>)
    ensures
        parsed matches Ok(n) ==> numeral_value(text@) == Some(n as nat),
        parsed is Err ==> !(numeral_value(text@) matches Some(n) && n <= u64::MAX),
{
    text.parse::<u64>()
}

/// `str::parse::<usize>` of std, with the promise of `parse_u64` for the
/// range of `usize`.
#[verifier::external_body]
pub(crate) fn parse_usize(text: &str) -> (parsed: Result<usize, ParseIntError>)
    ensures
        parsed matches Ok(n) ==> numeral_value(text@) == Some(n as nat),
        parsed is Err ==> !(numeral_value(text@) matches Some(n) && n <= usize::MAX),
{
    text.parse::<usize>()
}

/// The one-character string of a digit.
fn digit_text(d: usize) -> (text: &'static str)
    requires
        d < 10,
    ensures
        text@ == seq![digit_char(d as nat)],
{
    let text = match d {
        0 => "0",
        1 => "1",
        2 => "2",
        3 => "3",
        4 => "4",
        5 => "5",
        6 => "6",
        7 => "7",
        8 => "8",
        _ => "9",
    };
    proof {
        reveal_strlit("0");
        reveal_strlit("1");
        reveal_strlit("2");
        reveal_strlit("3");
        reveal_strlit("4");
        reveal_strlit("5");
        reveal_strlit("6");
        reveal_strlit("7");
        reveal_strlit("8");
        reveal_strlit("9");
        assert(text@ =~= seq![digit_char(d as nat)]);
    }
    text
}

/// Writes `n` as its shortest decimal numeral.
pub fn decimal_text(n: usize) -> (text: String)
    ensures
        text@ == decimal_digits(n as nat),
{
    let mut text = String::from_str(digit_text(n % 10));
    let mut rest = n / 10;
    while rest > 0
        invariant
            rest > 0 ==> decimal_digits(n as nat) == decimal_digits(rest as nat) + text@,
            rest == 0 ==> decimal_digits(n as nat) == text@,
            n < 10 ==> rest == 0,
        decreases rest,
    {
        let digit = String::from_str(digit_text(rest % 10));
        proof {
            let head = decimal_digits(rest as nat);
            if rest >= 10 {
                assert(head == decimal_digits(rest as nat / 10).push(digit_char(rest as nat % 10)));
                assert(head + text@ =~= decimal_digits(rest as nat / 10) + (digit@ + text@));
            } else {
                assert(head + text@ =~= digit@ + text@);
            }
        }
        text = digit.concat(text.as_str());
        rest = rest / 10;
    }
    text
}

} // verus!
