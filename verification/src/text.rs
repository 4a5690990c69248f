//! Comparisons on identity strings, and amounts written out as text.

use vstd::prelude::*;

verus! {

/// Whether `caller` begins with `prefix`, character by character.
pub open spec fn has_prefix(caller: Seq<char>, prefix: Seq<char>) -> bool {
    prefix.len() <= caller.len() && caller.subrange(0, prefix.len() as int) == prefix
}

/// The character that stands for a single decimal digit.
pub open spec fn digit(d: nat) -> char {
    if d == 0 {
        '0'
    } else if d == 1 {
        '1'
    } else if d == 2 {
        '2'
    } else if d == 3 {
        '3'
    } else if d == 4 {
        '4'
    } else if d == 5 {
        '5'
    } else if d == 6 {
        '6'
    } else if d == 7 {
        '7'
    } else if d == 8 {
        '8'
    } else {
        '9'
    }
}

/// The decimal numeral of `n`: its digits from the most significant down,
/// without leading zeros, and the single digit `0` for zero.
pub open spec fn decimal(n: nat) -> Seq<char>
    decreases n,
{
    if n < 10 {
        seq![digit(n)]
    } else {
        decimal(n / 10).push(digit(n % 10))
    }
}

/// The conversion of `Uint128` into `String` in `cosmwasm_std`, which writes
/// the number as `u128` displays it. Trusted: the text is the decimal numeral
/// of the amount.
#[verifier::external_body]
pub(crate) fn amount_text(amount: u128) -> (text: String)
    ensures
        text@ == decimal(amount as nat),
{
    String::from(cosmwasm_std::Uint128::new(amount))
}

/// `str`'s `==` from the standard library, which compares two string slices
/// byte by byte. Trusted: two strings are equal exactly when they hold the
/// same characters.
#[verifier::external_body]
pub(crate) fn str_eq(a: &str, b: &str) -> (same: bool)
    ensures
        same == (a@ == b@),
{
    a == b
}

/// `str::starts_with` from the standard library with a string pattern.
/// Trusted: it answers whether the pattern's characters are the first
/// characters of the string.
#[verifier::external_body]
pub(crate) fn str_starts_with(s: &str, prefix: &str) -> (found: bool)
    ensures
        found == has_prefix(s@, prefix@),
{
    s.starts_with(prefix)
}

} // verus!
