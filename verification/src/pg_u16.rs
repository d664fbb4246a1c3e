//! The 16-bit width of the wrapper family.

use crate::bridge::{big_decimal_of_u128, plain_chars_of, plain_string_of};
use crate::numeral::{
    chars_of, classify_dec_str, classify_spec, parse_uint_spec, parse_uint_str, render_u128,
    Classified,
};
use crate::{Error, OptionPgUint, Sealed, UIntType};
use vstd::prelude::*;

verus! {

/// An unsigned 16-bit integer storable in an arbitrary-precision decimal
/// column. The wrapped primitive itself carries the range invariant.
#[derive(Debug, Clone, Copy, PartialEq, Eq, Hash, PartialOrd, Ord, Structural)]
pub struct PgU16 {
    value: u16,
}

impl View for PgU16 {
    type V = u16;

    closed spec fn view(&self) -> u16 {
        self.value
    }
}

impl Sealed for PgU16 {}

impl UIntType for PgU16 {
    type Uint = u16;
}

impl Default for PgU16 {
    /// The zero value.
    fn default() -> (r: Self)
        ensures
            r@ == 0,
    {
        PgU16 { value: 0 }
    }
}

impl PgU16 {
    /// Wrap a primitive value.
    pub fn new(num: u16) -> (r: Self)
        ensures
            r@ == num,
    {
        PgU16 { value: num }
    }

    /// Wrap a primitive value.
    pub fn from(value: u16) -> (r: Self)
        ensures
            r@ == value,
    {
        PgU16 { value }
    }

    /// The primitive value this wrapper holds.
    pub fn to_uint(&self) -> (r: u16)
        ensures
            r == self@,
    {
        self.value
    }

    /// The value in its decimal form, as it is sent to the database: the
    /// decimal whose plain rendering is exactly this value's canonical digit
    /// string.
    pub fn as_big_decimal(&self) -> (r: bigdecimal::BigDecimal)
        ensures
            plain_chars_of(r) == chars_of(self@ as nat),
    {
        big_decimal_of_u128(self.value as u128)
    }

    /// Lift a decimal into this width. Fails with `Fractional` when the value
    /// has a nonzero fractional component, and with `InvalidValue` when it is
    /// integral but outside `[0, 2^16 - 1]`; both carry the offending decimal.
    pub fn try_from(value: bigdecimal::BigDecimal) -> (r: Result<Self, Error>)
        ensures
            ({
                match classify_spec(plain_chars_of(value), u16::MAX as u128) {
                    Classified::Value(v) => r matches Ok(p) && p@ == v as u16,
                    Classified::Fractional => r == Err::<PgU16, Error>(Error::Fractional(value)),
                    Classified::Invalid => r == Err::<PgU16, Error>(Error::InvalidValue(value)),
                }
            }),
    {
        let rendered = plain_string_of(&value);
        match classify_dec_str(rendered.as_str(), u16::MAX as u128) {
            Classified::Fractional => Err(Error::Fractional(value)),
            Classified::Invalid => Err(Error::InvalidValue(value)),
            Classified::Value(v) => Ok(PgU16 { value: v as u16 }),
        }
    }

    /// Parse a base-10 string, exactly as `parse_uint_spec` reads it at this
    /// width, and wrap the result.
    pub fn from_str(s: &str) -> (r: Result<Self, Error>)
        ensures
            ({
                match parse_uint_spec(s@, u16::MAX as u128) {
                    Ok(v) => r matches Ok(p) && p@ == v as u16,
                    Err(e) => r == Err::<PgU16, Error>(Error::ParseInt(e)),
                }
            }),
    {
        match parse_uint_str(s, u16::MAX as u128) {
            Ok(v) => Ok(PgU16 { value: v as u16 }),
            Err(e) => Err(Error::ParseInt(e)),
        }
    }

    /// Render the value in base 10, with no sign and no leading zeros.
    pub fn to_string(&self) -> (r: String)
        ensures
            r@ == chars_of(self@ as nat),
    {
        render_u128(self.value as u128)
    }

    /// Sum of two values; the contract rules overflow out.
    pub fn add(self, rhs: Self) -> (r: Self)
        requires
            self@ + rhs@ <= u16::MAX,
        ensures
            r@ == self@ + rhs@,
    {
        PgU16 { value: self.value + rhs.value }
    }

    /// Difference of two values; the contract rules underflow out.
    pub fn sub(self, rhs: Self) -> (r: Self)
        requires
            rhs@ <= self@,
        ensures
            r@ == self@ - rhs@,
    {
        PgU16 { value: self.value - rhs.value }
    }

    /// Product of two values; the contract rules overflow out.
    pub fn mul(self, rhs: Self) -> (r: Self)
        requires
            self@ * rhs@ <= u16::MAX,
        ensures
            r@ == self@ * rhs@,
    {
        PgU16 { value: self.value * rhs.value }
    }

    /// Quotient of two values; the contract rules division by zero out.
    pub fn div(self, rhs: Self) -> (r: Self)
        requires
            rhs@ != 0,
        ensures
            r@ == self@ / rhs@,
    {
        PgU16 { value: self.value / rhs.value }
    }

    /// Remainder of two values; the contract rules division by zero out.
    pub fn rem(self, rhs: Self) -> (r: Self)
        requires
            rhs@ != 0,
        ensures
            r@ == self@ % rhs@,
    {
        PgU16 { value: self.value % rhs.value }
    }

    /// Add in place; the contract rules overflow out.
    pub fn add_assign(&mut self, rhs: Self)
        requires
            old(self)@ + rhs@ <= u16::MAX,
        ensures
            final(self)@ == old(self)@ + rhs@,
    {
        self.value = self.value + rhs.value;
    }

    /// Subtract in place; the contract rules underflow out.
    pub fn sub_assign(&mut self, rhs: Self)
        requires
            rhs@ <= old(self)@,
        ensures
            final(self)@ == old(self)@ - rhs@,
    {
        self.value = self.value - rhs.value;
    }

    /// Multiply in place; the contract rules overflow out.
    pub fn mul_assign(&mut self, rhs: Self)
        requires
            old(self)@ * rhs@ <= u16::MAX,
        ensures
            final(self)@ == old(self)@ * rhs@,
    {
        self.value = self.value * rhs.value;
    }

    /// Divide in place; the contract rules division by zero out.
    pub fn div_assign(&mut self, rhs: Self)
        requires
            rhs@ != 0,
        ensures
            final(self)@ == old(self)@ / rhs@,
    {
        self.value = self.value / rhs.value;
    }
}

impl OptionPgUint<PgU16> for Option<PgU16> {
    open spec fn option_uint_view(&self) -> Option<u16> {
        match *self {
            Some(p) => Some(p@),
            None => None,
        }
    }

    /// The wrapped primitive, if a value is present.
    fn to_option_uint(&self) -> Option<u16> {
        match self {
            Some(p) => Some(p.to_uint()),
            None => None,
        }
    }
}

impl OptionPgUint<PgU16> for PgU16 {
    open spec fn option_uint_view(&self) -> Option<u16> {
        Some(self@)
    }

    /// The wrapped primitive, always present.
    fn to_option_uint(&self) -> Option<u16> {
        Some(self.to_uint())
    }
}

/// Two values compare equal exactly when their primitive values agree.
pub proof fn lemma_pg_u16_eq_agrees_with_uint(a: PgU16, b: PgU16)
    ensures
        (a == b) <==> (a@ == b@),
{
}

} // verus!
