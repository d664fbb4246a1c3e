//! Fixed-width unsigned integer value types backed by an arbitrary-precision
//! decimal column type.
//!
//! Each `PgU*` type wraps one unsigned machine integer of its width and
//! bridges it to the decimal domain: construction from the primitive, a
//! fallible lift from a `bigdecimal::BigDecimal` that enforces integrality
//! and the width's range, decimal string rendering and parsing, and exact
//! (panic-free, contract-checked) arithmetic.

use vstd::prelude::*;

pub mod bridge;
pub mod numeral;
pub mod pg_u128;
pub mod pg_u16;
pub mod pg_u32;
pub mod pg_u64;
pub mod pg_u8;

pub use pg_u128::PgU128;
pub use pg_u16::PgU16;
pub use pg_u32::PgU32;
pub use pg_u64::PgU64;
pub use pg_u8::PgU8;

verus! {

/// Failure modes of parsing a decimal digit string as an unsigned integer.
#[derive(Debug, Clone, Copy, PartialEq, Eq, Structural)]
pub enum ParseIntError {
    /// The input string was empty.
    Empty,
    /// A character that is not an ASCII decimal digit was found.
    InvalidDigit,
    /// The digits denote a value above the width's maximum.
    PosOverflow,
}

/// Error type for conversions between the decimal domain and the `PgU*` types.
#[derive(Debug, Clone, PartialEq)]
pub enum Error {
    /// The candidate decimal is integral but outside `[0, 2^W - 1]`,
    /// or is not a value the width can represent.
    InvalidValue(bigdecimal::BigDecimal),
    /// The candidate decimal has a fractional component.
    Fractional(bigdecimal::BigDecimal),
    /// A string could not be parsed as the width's primitive integer.
    ParseInt(ParseIntError),
    /// A decimal-free construction path found the source value too wide.
    Overflow,
}

/// Marker restricting the primitive widths this crate supports.
pub trait Sealed {}

impl Sealed for u8 {}

impl Sealed for u16 {}

impl Sealed for u32 {}

impl Sealed for u64 {}

impl Sealed for u128 {}

/// Associates a `PgU*` wrapper with its underlying primitive integer type.
pub trait UIntType: Sealed {
    /// The underlying unsigned integer type of the wrapper.
    type Uint;
}

/// Conversion of optional wrappers to optional primitive integers.
pub trait OptionPgUint<T: UIntType> {
    /// The primitive image of this container, `None` where no value is
    /// present.
    spec fn option_uint_view(&self) -> Option<T::Uint>;

    /// Extract the underlying integer, if a value is present.
    fn to_option_uint(&self) -> (r: Option<T::Uint>)
        ensures
            r == self.option_uint_view(),
    ;
}

} // verus!
