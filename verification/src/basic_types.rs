//! Basic numeric types shared by the whole crate.
//!
//! Prices and amounts are fixed-point decimals held as a scaled integer
//! mantissa: the represented value is `mantissa / 10^16`. Equality and
//! ordering on the mantissa are exactly equality and ordering on the
//! represented decimal, so books can compare prices without rounding drift.

use vstd::prelude::*;

verus! {

/// Mantissa of a fixed-point decimal price, scaled by `10^16`.
pub type Price = i128;

/// Mantissa of a fixed-point decimal amount, scaled by `10^16`.
pub type Amount = i128;

/// Number of decimal places carried by `Price` and `Amount` mantissas.
pub const FIXED_SCALE_DIGITS: u32 = 16;

/// `10^16`, the factor between a mantissa and the integer part of the
/// decimal it represents.
pub const FIXED_SCALE: i128 = 10_000_000_000_000_000;

/// Numeric identifier of an instrument.
#[derive(Copy, Clone, Debug, PartialEq, Eq, Hash, Structural)]
pub struct InstrumentId(pub u64);

impl InstrumentId {
    /// The raw numeric id.
    pub fn raw(&self) -> (r: u64)
        ensures
            r == self.0,
    {
        self.0
    }
}

impl From<u64> for InstrumentId {
    fn from(v: u64) -> (r: InstrumentId)
        ensures
            r.0 == v,
    {
        InstrumentId(v)
    }
}

impl vstd::std_specs::convert::FromSpecImpl<u64> for InstrumentId {
    open spec fn obeys_from_spec() -> bool {
        true
    }

    open spec fn from_spec(v: u64) -> InstrumentId {
        InstrumentId(v)
    }
}

} // verus!
