//! Decimal text of numbers, for the messages of the crate.

use vstd::prelude::*;
use vstd::string::StringExecFns;

verus! {

/// The character of a decimal digit.
pub open spec fn digit_char(digit: nat) -> char {
    if digit == 0 {
        '0'
    } else if digit == 1 {
        '1'
    } else if digit == 2 {
        '2'
    } else if digit == 3 {
        '3'
    } else if digit == 4 {
        '4'
    } else if digit == 5 {
        '5'
    } else if digit == 6 {
        '6'
    } else if digit == 7 {
        '7'
    } else if digit == 8 {
        '8'
    } else {
        '9'
    }
}

/// The decimal text of a number, without leading zeros.
pub open spec fn decimal(number: nat) -> Seq<char>
    decreases number,
{
    if number < 10 {
        seq![digit_char(number)]
    } else {
        decimal(number / 10).push(digit_char(number % 10))
    }
}

/// The text of a decimal digit.
fn digit_text(digit: u64) -> (text: &'static str)
    requires
        digit < 10,
    ensures
        text@ == seq![digit_char(digit as nat)],
{
    proof {
        reveal_strlit("0");
        reveal_strlit("1");
        reveal_strlit("2");
        reveal_strlit("3");
        reveal_strlit("4");
        reveal_strlit("5");
        reveal_strlit("6");
        reveal_strlit("7");
        reveal_strlit("8");
        reveal_strlit("9");
    }
    let text = match digit {
        0 => "0",
        1 => "1",
        2 => "2",
        3 => "3",
        4 => "4",
        5 => "5",
        6 => "6",
        7 => "7",
        8 => "8",
        _ => "9",
    };
    assert(text@ =~= seq![digit_char(digit as nat)]);
    text
}

/// Appends the decimal text of `number` to `text`.
pub fn append_decimal(text: &mut String, number: u64)
    ensures
        final(text)@ == old(text)@ + decimal(number as nat),
    decreases number,
{
    let ghost before = text@;
    if number < 10 {
        text.append(digit_text(number));
    } else {
        append_decimal(text, number / 10);
        text.append(digit_text(number % 10));
        assert(text@ =~= before + decimal(number as nat));
    }
}

/// Decimal text reads back: the last character is the digit of the remainder by ten, and
/// what stands before it is the text of the quotient, or nothing for a single digit.
pub proof fn law_decimal_reads_back(number: nat)
    ensures
        decimal(number).len() >= 1,
        decimal(number).last() as int == '0' as int + number % 10,
        number < 10 ==> decimal(number).len() == 1,
        number >= 10 ==> decimal(number).drop_last() == decimal(number / 10),
{
    if number >= 10 {
        assert(decimal(number).drop_last() =~= decimal(number / 10));
    }
}

/// Different numbers have different texts.
pub proof fn law_decimal_is_unique(a: nat, b: nat)
    requires
        decimal(a) == decimal(b),
    ensures
        a == b,
    decreases a,
{
    law_decimal_reads_back(a);
    law_decimal_reads_back(b);
    if a >= 10 {
        law_decimal_reads_back(a / 10);
        if b >= 10 {
            law_decimal_is_unique(a / 10, b / 10);
        }
    } else if b >= 10 {
        law_decimal_reads_back(b / 10);
    }
}

} // verus!
