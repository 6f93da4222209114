//! Arbitrary-precision integers.
//!
//! The library computes with `num_bigint::BigInt`. Verus cannot look inside
//! that type, so every contract speaks of the mathematical integer a `BigInt`
//! holds, [`int_value`], and every operation on a `BigInt` goes through one of
//! the small functions below, whose contracts are taken on trust.

use num_bigint::BigInt;
use vstd::prelude::*;

verus! {

/// `num_bigint::BigInt`, carried through verified code as an opaque value.
#[verifier::external_type_specification]
#[verifier::external_body]
pub struct ExBigInt(num_bigint::BigInt);

/// The mathematical integer that a `BigInt` holds. Verus knows of it what
/// the contracts below say of it, and nothing else.
pub uninterp spec fn int_value(b: BigInt) -> int;

/// The integers held by a sequence of `BigInt`s, in order.
pub open spec fn int_values(s: Seq<BigInt>) -> Seq<int> {
    Seq::new(s.len(), |i: int| int_value(s[i]))
}

/// `<BigInt as From<i64>>::from`: the result holds exactly `n`.
#[verifier::external_body]
pub(crate) fn big_from_i64(n: i64) -> (r: BigInt)
    ensures
        int_value(r) == n,
{
    BigInt::from(n)
}

/// `<&BigInt as Add<&BigInt>>::add`: the result holds the exact sum of what
/// the operands hold; nothing overflows or wraps.
#[verifier::external_body]
pub(crate) fn big_add(a: &BigInt, b: &BigInt) -> (r: BigInt)
    ensures
        int_value(r) == int_value(*a) + int_value(*b),
{
    a + b
}

/// `<&BigInt as Mul<&BigInt>>::mul`: the result holds the exact product of
/// what the operands hold; nothing overflows or wraps.
#[verifier::external_body]
pub(crate) fn big_mul(a: &BigInt, b: &BigInt) -> (r: BigInt)
    ensures
        int_value(r) == int_value(*a) * int_value(*b),
{
    a * b
}

/// `<BigInt as PartialEq>::eq`: true exactly when both hold the same integer.
#[verifier::external_body]
pub(crate) fn big_eq(a: &BigInt, b: &BigInt) -> (r: bool)
    ensures
        r == (int_value(*a) == int_value(*b)),
{
    a == b
}

/// `<BigInt as Clone>::clone`: the copy holds the same integer.
#[verifier::external_body]
pub(crate) fn big_clone(a: &BigInt) -> (r: BigInt)
    ensures
        int_value(r) == int_value(*a),
{
    a.clone()
}

/// The character that stands for a single decimal digit.
pub open spec fn digit_char(digit: int) -> char {
    if digit == 0 {
        '0'
    } else if digit == 1 {
        '1'
    } else if digit == 2 {
        '2'
    } else if digit == 3 {
        '3'
    } else if digit == 4 {
        '4'
    } else if digit == 5 {
        '5'
    } else if digit == 6 {
        '6'
    } else if digit == 7 {
        '7'
    } else if digit == 8 {
        '8'
    } else {
        '9'
    }
}

/// The decimal digits of a natural number, most significant first, with no
/// leading zero; `0` is written `0`.
pub open spec fn decimal_digits(n: nat) -> Seq<char>
    decreases n,
{
    if n < 10 {
        seq![digit_char(n as int)]
    } else {
        decimal_digits(n / 10).push(digit_char((n % 10) as int))
    }
}

/// An integer in decimal: a `-` in front of a negative one, then the digits
/// of its magnitude.
pub open spec fn decimal_text(value: int) -> Seq<char> {
    if value < 0 {
        seq!['-'] + decimal_digits((-value) as nat)
    } else {
        decimal_digits(value as nat)
    }
}

/// `BigInt`'s `Display`, through `to_string`: the integer in decimal, with a
/// `-` in front when it is negative and nothing else around it.
#[verifier::external_body]
pub(crate) fn big_to_string(a: &BigInt) -> (text: String)
    ensures
        text@ == decimal_text(int_value(*a)),
{
    a.to_string()
}

} // verus!
