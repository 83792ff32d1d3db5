use vstd::prelude::*;

verus! {

/// The character that stands for the digit `d`, for digits below sixteen.
pub open spec fn digit(d: nat) -> char {
    seq![
        '0',
        '1',
        '2',
        '3',
        '4',
        '5',
        '6',
        '7',
        '8',
        '9',
        'a',
        'b',
        'c',
        'd',
        'e',
        'f',
    ][d as int]
}

/// The decimal numeral of `n`: its digits, the most significant first,
/// without leading zeros.
pub open spec fn decimal(n: nat) -> Seq<char>
    decreases n,
{
    if n < 10 {
        seq![digit(n)]
    } else {
        decimal(n / 10).push(digit(n % 10))
    }
}

/// The hexadecimal numeral of `n`: its digits, the most significant first,
/// in lower case, without leading zeros.
pub open spec fn hexadecimal(n: nat) -> Seq<char>
    decreases n,
{
    if n < 16 {
        seq![digit(n)]
    } else {
        hexadecimal(n / 16).push(digit(n % 16))
    }
}

/// Formats `n` with `format!` and `{}`, which std documents to give the
/// decimal numeral of an unsigned integer.
#[verifier::external_body]
pub(crate) fn decimal_string(n: u64) -> (text: String)
    ensures
        text@ == decimal(n as nat),
{
    format!("{}", n)
}

/// Formats `n` with `format!` and `{:x}`, which std documents to give the
/// lower-case hexadecimal numeral of an unsigned integer.
#[verifier::external_body]
pub(crate) fn hexadecimal_string(n: u64) -> (text: String)
    ensures
        text@ == hexadecimal(n as nat),
{
    format!("{:x}", n)
}

} // verus!
