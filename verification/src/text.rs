//! Digits and small pieces of text, as the diagnostic output needs them.

use vstd::prelude::*;
use vstd::string::*;

verus! {

/// The character for a digit below sixteen: `0` to `9`, then `a` to `f`.
pub open spec fn digit_char(n: int) -> char
    recommends
        0 <= n < 16,
{
    seq!['0', '1', '2', '3', '4', '5', '6', '7', '8', '9', 'a', 'b', 'c', 'd', 'e', 'f'][n]
}

/// A number in decimal, without leading zeros.
pub open spec fn decimal(n: nat) -> Seq<char>
    decreases n,
{
    if n < 10 {
        seq![digit_char(n as int)]
    } else {
        decimal(n / 10).push(digit_char((n % 10) as int))
    }
}

/// A truth value as the word `true` or `false`.
pub open spec fn bool_text(b: bool) -> Seq<char> {
    if b {
        "true"@
    } else {
        "false"@
    }
}

/// Appends the character of one digit below sixteen.
pub fn put_digit(text: &mut String, n: u8)
    requires
        n < 16,
    ensures
        final(text)@ == old(text)@.push(digit_char(n as int)),
{
    let digits: &str = "0123456789abcdef";
    proof {
        reveal_strlit("0123456789abcdef");
    }
    let at: usize = n as usize;
    let digit: &str = digits.substring_char(at, at + 1);
    assert(digit@ =~= seq![digit_char(n as int)]);
    let ghost before = text@;
    text.append(digit);
    assert(text@ =~= before.push(digit_char(n as int)));
}

/// Appends a number in decimal.
pub fn put_decimal(text: &mut String, n: usize)
    ensures
        final(text)@ == old(text)@ + decimal(n as nat),
    decreases n,
{
    let ghost before = text@;
    if n >= 10 {
        put_decimal(text, n / 10);
    }
    put_digit(text, (n % 10) as u8);
    assert(text@ =~= before + decimal(n as nat));
}

/// Appends the word for a truth value.
pub fn put_bool(text: &mut String, b: bool)
    ensures
        final(text)@ == old(text)@ + bool_text(b),
{
    if b {
        text.append("true");
    } else {
        text.append("false");
    }
}

} // verus!
