//! Trusted boundary to the external decimal and big-integer libraries.
//!
//! Everything this crate learns from `bigdecimal` or `num_bigint` passes
//! through the items in this module; their contracts are stated here and
//! believed, not proved. Each doc comment names the external function relied
//! on and what is assumed of it. Two results are given names rather than
//! definitions — `plain_chars_of`, the characters of a decimal's plain
//! rendering, and `be_digits_of`, the big-endian base-256 digits of a big
//! integer — so that the callers' own contracts can speak of them exactly.

use crate::numeral::{chars_of, shaped_plain_dec};
use vstd::prelude::*;

verus! {

#[verifier::external_type_specification]
#[verifier::external_body]
pub struct ExBigDecimal(bigdecimal::BigDecimal);

#[verifier::external_type_specification]
#[verifier::external_body]
pub struct ExBigUint(num_bigint::BigUint);

/// The characters of a decimal's plain positional rendering: what
/// `bigdecimal::BigDecimal::to_plain_string` returns, a function of the
/// decimal value alone.
pub uninterp spec fn plain_chars_of(d: bigdecimal::BigDecimal) -> Seq<char>;

/// The big-endian base-256 digits of an unsigned big integer: what
/// `num_bigint::BigUint::to_bytes_be` returns, a function of the value alone.
pub uninterp spec fn be_digits_of(b: num_bigint::BigUint) -> Seq<u8>;

/// Relies on the derived `Clone` of `bigdecimal::BigDecimal`: a clone is
/// field-for-field the same value.
pub assume_specification[ <bigdecimal::BigDecimal as Clone>::clone ](
    d: &bigdecimal::BigDecimal,
) -> (r: bigdecimal::BigDecimal)
    ensures
        r == *d,
;

/// Relies on `bigdecimal::BigDecimal::to_plain_string`: it renders the exact
/// mathematical value in plain positional notation — an optional minus sign,
/// one or more integer digits, and, when the scale leaves fraction digits,
/// a dot followed by one or more of them — and never scientific notation.
#[verifier::external_body]
pub(crate) fn plain_string_of(d: &bigdecimal::BigDecimal) -> (r: String)
    ensures
        r@ == plain_chars_of(*d),
        shaped_plain_dec(r@),
{
    d.to_plain_string()
}

/// Relies on `From<u128> for bigdecimal::BigDecimal` together with
/// `to_plain_string`: the conversion builds the decimal holding exactly the
/// integer `v` at scale zero, and the plain rendering of such a decimal is
/// its digits with no sign, no dot and no leading zeros — the canonical
/// rendering `chars_of(v)`.
#[verifier::external_body]
pub(crate) fn big_decimal_of_u128(v: u128) -> (r: bigdecimal::BigDecimal)
    ensures
        plain_chars_of(r) == chars_of(v as nat),
{
    bigdecimal::BigDecimal::from(v)
}

/// Relies on `num_bigint::BigUint::to_bytes_be`: the big-endian base-256
/// digits of the value, at least one byte, with no leading zero byte other
/// than the single byte of the value zero.
#[verifier::external_body]
pub(crate) fn be_bytes_of_biguint(b: &num_bigint::BigUint) -> (r: Vec<u8>)
    ensures
        r@ == be_digits_of(*b),
        r@.len() >= 1,
        r@.len() > 1 ==> r@[0] != 0,
{
    b.to_bytes_be()
}

} // verus!
