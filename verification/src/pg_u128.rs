//! The 128-bit width of the wrapper family.

use crate::bridge::{
    be_bytes_of_biguint, be_digits_of, big_decimal_of_u128, plain_chars_of, plain_string_of,
};
use crate::numeral::{
    chars_of, classify_dec_str, classify_spec, parse_uint_spec, parse_uint_str, render_u128,
    Classified,
};
use crate::{Error, OptionPgUint, Sealed, UIntType};
use vstd::prelude::*;

verus! {

/// An unsigned 128-bit integer storable in an arbitrary-precision decimal
/// column. The wrapped primitive itself carries the range invariant.
#[derive(Debug, Clone, Copy, PartialEq, Eq, Hash, PartialOrd, Ord, Structural)]
pub struct PgU128 {
    value: u128,
}

impl View for PgU128 {
    type V = u128;

    closed spec fn view(&self) -> u128 {
        self.value
    }
}

impl Sealed for PgU128 {}

impl UIntType for PgU128 {
    type Uint = u128;
}

impl Default for PgU128 {
    /// The zero value.
    fn default() -> (r: Self)
        ensures
            r@ == 0,
    {
        PgU128 { value: 0 }
    }
}

impl PgU128 {
    /// Wrap a primitive value.
    pub fn new(num: u128) -> (r: Self)
        ensures
            r@ == num,
    {
        PgU128 { value: num }
    }

    /// Wrap a primitive value.
    pub fn from(value: u128) -> (r: Self)
        ensures
            r@ == value,
    {
        PgU128 { value }
    }

    /// The primitive value this wrapper holds.
    pub fn to_uint(&self) -> (r: u128)
        ensures
            r == self@,
    {
        self.value
    }

    /// The primitive value this wrapper holds.
    pub fn to_u128(&self) -> (r: u128)
        ensures
            r == self@,
    {
        self.value
    }

    /// Lift an unsigned big integer into this width. The value carries over
    /// exactly when it fits 128 bits; this decimal-free path otherwise
    /// reports only the fact of overflow.
    pub fn try_from_biguint(value: num_bigint::BigUint) -> (r: Result<Self, Error>)
        ensures
            ({
                if be_val(be_digits_of(value)) <= u128::MAX {
                    r matches Ok(p) && p@ as nat == be_val(be_digits_of(value))
                } else {
                    r == Err::<PgU128, Error>(Error::Overflow)
                }
            }),
    {
        let bytes = be_bytes_of_biguint(&value);
        match u128_from_be_bytes(&bytes) {
            Some(v) => Ok(PgU128 { value: v }),
            None => Err(Error::Overflow),
        }
    }

    /// The value in its decimal form, as it is sent to the database: the
    /// decimal whose plain rendering is exactly this value's canonical digit
    /// string.
    pub fn as_big_decimal(&self) -> (r: bigdecimal::BigDecimal)
        ensures
            plain_chars_of(r) == chars_of(self@ as nat),
    {
        big_decimal_of_u128(self.value as u128)
    }

    /// Lift a decimal into this width. Fails with `Fractional` when the value
    /// has a nonzero fractional component, and with `InvalidValue` when it is
    /// integral but outside `[0, 2^128 - 1]`; both carry the offending decimal.
    pub fn try_from(value: bigdecimal::BigDecimal) -> (r: Result<Self, Error>)
        ensures
            ({
                match classify_spec(plain_chars_of(value), u128::MAX as u128) {
                    Classified::Value(v) => r matches Ok(p) && p@ == v as u128,
                    Classified::Fractional => r == Err::<PgU128, Error>(Error::Fractional(value)),
                    Classified::Invalid => r == Err::<PgU128, Error>(Error::InvalidValue(value)),
                }
            }),
    {
        let rendered = plain_string_of(&value);
        match classify_dec_str(rendered.as_str(), u128::MAX as u128) {
            Classified::Fractional => Err(Error::Fractional(value)),
            Classified::Invalid => Err(Error::InvalidValue(value)),
            Classified::Value(v) => Ok(PgU128 { value: v as u128 }),
        }
    }

    /// Parse a base-10 string, exactly as `parse_uint_spec` reads it at this
    /// width, and wrap the result.
    pub fn from_str(s: &str) -> (r: Result<Self, Error>)
        ensures
            ({
                match parse_uint_spec(s@, u128::MAX as u128) {
                    Ok(v) => r matches Ok(p) && p@ == v as u128,
                    Err(e) => r == Err::<PgU128, Error>(Error::ParseInt(e)),
                }
            }),
    {
        match parse_uint_str(s, u128::MAX as u128) {
            Ok(v) => Ok(PgU128 { value: v as u128 }),
            Err(e) => Err(Error::ParseInt(e)),
        }
    }

    /// Render the value in base 10, with no sign and no leading zeros.
    pub fn to_string(&self) -> (r: String)
        ensures
            r@ == chars_of(self@ as nat),
    {
        render_u128(self.value as u128)
    }

    /// Sum of two values; the contract rules overflow out.
    pub fn add(self, rhs: Self) -> (r: Self)
        requires
            self@ + rhs@ <= u128::MAX,
        ensures
            r@ == self@ + rhs@,
    {
        PgU128 { value: self.value + rhs.value }
    }

    /// Difference of two values; the contract rules underflow out.
    pub fn sub(self, rhs: Self) -> (r: Self)
        requires
            rhs@ <= self@,
        ensures
            r@ == self@ - rhs@,
    {
        PgU128 { value: self.value - rhs.value }
    }

    /// Product of two values; the contract rules overflow out.
    pub fn mul(self, rhs: Self) -> (r: Self)
        requires
            self@ * rhs@ <= u128::MAX,
        ensures
            r@ == self@ * rhs@,
    {
        PgU128 { value: self.value * rhs.value }
    }

    /// Quotient of two values; the contract rules division by zero out.
    pub fn div(self, rhs: Self) -> (r: Self)
        requires
            rhs@ != 0,
        ensures
            r@ == self@ / rhs@,
    {
        PgU128 { value: self.value / rhs.value }
    }

    /// Remainder of two values; the contract rules division by zero out.
    pub fn rem(self, rhs: Self) -> (r: Self)
        requires
            rhs@ != 0,
        ensures
            r@ == self@ % rhs@,
    {
        PgU128 { value: self.value % rhs.value }
    }

    /// Add in place; the contract rules overflow out.
    pub fn add_assign(&mut self, rhs: Self)
        requires
            old(self)@ + rhs@ <= u128::MAX,
        ensures
            final(self)@ == old(self)@ + rhs@,
    {
        self.value = self.value + rhs.value;
    }

    /// Subtract in place; the contract rules underflow out.
    pub fn sub_assign(&mut self, rhs: Self)
        requires
            rhs@ <= old(self)@,
        ensures
            final(self)@ == old(self)@ - rhs@,
    {
        self.value = self.value - rhs.value;
    }

    /// Multiply in place; the contract rules overflow out.
    pub fn mul_assign(&mut self, rhs: Self)
        requires
            old(self)@ * rhs@ <= u128::MAX,
        ensures
            final(self)@ == old(self)@ * rhs@,
    {
        self.value = self.value * rhs.value;
    }

    /// Divide in place; the contract rules division by zero out.
    pub fn div_assign(&mut self, rhs: Self)
        requires
            rhs@ != 0,
        ensures
            final(self)@ == old(self)@ / rhs@,
    {
        self.value = self.value / rhs.value;
    }
}

impl OptionPgUint<PgU128> for Option<PgU128> {
    open spec fn option_uint_view(&self) -> Option<u128> {
        match *self {
            Some(p) => Some(p@),
            None => None,
        }
    }

    /// The wrapped primitive, if a value is present.
    fn to_option_uint(&self) -> Option<u128> {
        match self {
            Some(p) => Some(p.to_uint()),
            None => None,
        }
    }
}

impl OptionPgUint<PgU128> for PgU128 {
    open spec fn option_uint_view(&self) -> Option<u128> {
        Some(self@)
    }

    /// The wrapped primitive, always present.
    fn to_option_uint(&self) -> Option<u128> {
        Some(self.to_uint())
    }
}

/// Two values compare equal exactly when their primitive values agree.
pub proof fn lemma_pg_u128_eq_agrees_with_uint(a: PgU128, b: PgU128)
    ensures
        (a == b) <==> (a@ == b@),
{
}

/// Value of a byte string read in base 256, most significant byte first.
pub open spec fn be_val(s: Seq<u8>) -> nat
    decreases s.len(),
{
    if s.len() == 0 {
        0
    } else {
        be_val(s.drop_last()) * 256 + s.last() as nat
    }
}

/// Reading more bytes can only grow the value.
proof fn lemma_be_val_take_le(s: Seq<u8>, i: int, j: int)
    requires
        0 <= i <= j <= s.len(),
    ensures
        be_val(s.take(i)) <= be_val(s.take(j)),
    decreases j - i,
{
    if i < j {
        lemma_be_val_take_le(s, i, j - 1);
        let t = s.take(j);
        assert(t.drop_last() =~= s.take(j - 1));
        assert(be_val(t) == be_val(s.take(j - 1)) * 256 + t.last() as nat);
        assert(be_val(s.take(j - 1)) * 256 >= be_val(s.take(j - 1)));
    }
}

/// Base-256 value of big-endian bytes, or `None` when it exceeds the `u128`
/// range.
pub fn u128_from_be_bytes(bytes: &Vec<u8>) -> (r: Option<u128>)
    ensures
        ({
            match r {
                Some(v) => v as nat == be_val(bytes@),
                None => be_val(bytes@) > u128::MAX,
            }
        }),
{
    let mut acc: u128 = 0;
    let mut i: usize = 0;
    let len = bytes.len();
    while i < len
        invariant
            0 <= i <= len == bytes@.len(),
            acc as nat == be_val(bytes@.take(i as int)),
        decreases len - i,
    {
        let b = bytes[i];
        let ghost stepped = bytes@.take(i + 1);
        proof {
            assert(stepped.drop_last() =~= bytes@.take(i as int));
            assert(stepped.last() == bytes@[i as int]);
            assert(be_val(stepped) == be_val(bytes@.take(i as int)) * 256 + b as nat);
        }
        let grown = match acc.checked_mul(256) {
            Some(m) => m.checked_add(b as u128),
            None => None,
        };
        match grown {
            Some(v) => {
                acc = v;
            },
            None => {
                proof {
                    assert(be_val(stepped) > u128::MAX);
                    lemma_be_val_take_le(bytes@, i + 1, bytes@.len() as int);
                    assert(bytes@.take(bytes@.len() as int) =~= bytes@);
                }
                return None;
            },
        }
        i += 1;
    }
    proof {
        assert(bytes@.take(bytes@.len() as int) =~= bytes@);
    }
    Some(acc)
}

} // verus!
