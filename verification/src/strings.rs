//! Text: appending to a string, and numbers written in decimal.

use vstd::prelude::*;

verus! {

/// `String::push_str` of std: appends a string.
#[verifier::external_body]
pub(crate) fn string_push_str(s: &mut String, t: &str)
    ensures
        final(s)@ == old(s)@ + t@,
{
    s.push_str(t)
}

/// `String::push` of std: appends a character.
#[verifier::external_body]
pub(crate) fn string_push(s: &mut String, c: char)
    ensures
        final(s)@ == old(s)@.push(c),
{
    s.push(c)
}

/// The character for a digit.
pub open spec fn digit(d: nat) -> char {
    ((48 + d) as u8) as char
}

/// A natural number in decimal, without leading zeros.
pub open spec fn digits(n: nat) -> Seq<char>
    decreases n,
{
    if n < 10 {
        seq![digit(n)]
    } else {
        digits(n / 10).push(digit(n % 10))
    }
}

/// A whole number in decimal, with a minus sign in front where it is below
/// zero.
pub open spec fn decimal(v: int) -> Seq<char> {
    if v < 0 {
        seq!['-'] + digits((-v) as nat)
    } else {
        digits(v as nat)
    }
}

/// Appends a natural number in decimal.
pub fn push_digits(text: &mut String, n: u64)
    ensures
        final(text)@ == old(text)@ + digits(n as nat),
    decreases n,
{
    if n >= 10 {
        push_digits(text, n / 10);
    }
    let d: u8 = (n % 10) as u8;
    string_push(text, (48u8 + d) as char);
    assert(text@ =~= old(text)@ + digits(n as nat));
}

/// Appends a whole number in decimal.
pub fn push_decimal(text: &mut String, v: i64)
    ensures
        final(text)@ == old(text)@ + decimal(v as int),
{
    if v < 0 {
        string_push(text, '-');
        let magnitude: u64 = if v == i64::MIN {
            0x8000_0000_0000_0000
        } else {
            (-v) as u64
        };
        push_digits(text, magnitude);
        assert(text@ =~= old(text)@ + decimal(v as int));
    } else {
        push_digits(text, v as u64);
    }
}

} // verus!
