//! IEEE-754 binary64 values carried by their bit pattern.
//!
//! The benchmark JSON holds `f64` metrics. The library keeps each one as its
//! `f64::to_bits` pattern and decides comparisons on it: a binary64 value is a
//! sign bit followed by a 63-bit magnitude, and for values that are not NaN the
//! order of magnitudes is the order of absolute values (`-0.0 == 0.0`).

use vstd::prelude::*;

verus! {

pub const SIGN_BIT: u64 = 0x8000_0000_0000_0000;

/// Bit pattern of positive infinity; larger magnitudes are NaN.
pub const INFINITY_BITS: u64 = 0x7ff0_0000_0000_0000;

/// Bit pattern of `1.0`.
pub const ONE_BITS: u64 = 0x3ff0_0000_0000_0000;

/// An `f64` given by its bit pattern (`f64::to_bits`).
#[derive(Clone, Copy, Debug)]
pub struct F64Bits(pub u64);

pub open spec fn magnitude(b: u64) -> int {
    if b >= SIGN_BIT {
        b - SIGN_BIT
    } else {
        b as int
    }
}

pub open spec fn sign_set(b: u64) -> bool {
    b >= SIGN_BIT
}

/// `f64::is_nan`.
pub open spec fn nan(b: u64) -> bool {
    magnitude(b) > INFINITY_BITS
}

/// `f64::is_finite`.
pub open spec fn finite(b: u64) -> bool {
    magnitude(b) < INFINITY_BITS
}

/// `x >= 0.0`.
pub open spec fn ge_zero(b: u64) -> bool {
    !nan(b) && (!sign_set(b) || magnitude(b) == 0)
}

/// `x > 0.0`.
pub open spec fn gt_zero(b: u64) -> bool {
    !nan(b) && !sign_set(b) && magnitude(b) > 0
}

/// `x <= 0.0`.
pub open spec fn le_zero(b: u64) -> bool {
    !nan(b) && (sign_set(b) || magnitude(b) == 0)
}

/// `x < 0.0`.
pub open spec fn lt_zero(b: u64) -> bool {
    !nan(b) && sign_set(b) && magnitude(b) > 0
}

/// `x <= c` where `c` is the bit pattern of a positive, finite bound.
pub open spec fn le_bound(b: u64, c: u64) -> bool {
    !nan(b) && (sign_set(b) || magnitude(b) <= c)
}

/// `x > c` where `c` is the bit pattern of a positive, finite bound.
pub open spec fn gt_bound(b: u64, c: u64) -> bool {
    !nan(b) && !sign_set(b) && magnitude(b) > c
}

/// `(0.0..=1.0).contains(&x)`.
pub open spec fn in_unit(b: u64) -> bool {
    ge_zero(b) && le_bound(b, ONE_BITS)
}

impl F64Bits {
    pub fn magnitude_bits(&self) -> (m: u64)
        ensures
            m == magnitude(self.0),
    {
        if self.0 >= SIGN_BIT {
            self.0 - SIGN_BIT
        } else {
            self.0
        }
    }

    pub fn is_nan(&self) -> (r: bool)
        ensures
            r == nan(self.0),
    {
        self.magnitude_bits() > INFINITY_BITS
    }

    pub fn is_finite(&self) -> (r: bool)
        ensures
            r == finite(self.0),
    {
        self.magnitude_bits() < INFINITY_BITS
    }

    pub fn is_gt_zero(&self) -> (r: bool)
        ensures
            r == gt_zero(self.0),
    {
        !self.is_nan() && self.0 < SIGN_BIT && self.magnitude_bits() > 0
    }

    pub fn is_le_zero(&self) -> (r: bool)
        ensures
            r == le_zero(self.0),
    {
        !self.is_nan() && (self.0 >= SIGN_BIT || self.magnitude_bits() == 0)
    }

    pub fn is_lt_zero(&self) -> (r: bool)
        ensures
            r == lt_zero(self.0),
    {
        !self.is_nan() && self.0 >= SIGN_BIT && self.magnitude_bits() > 0
    }

    pub fn is_gt_bound(&self, c: u64) -> (r: bool)
        ensures
            r == gt_bound(self.0, c),
    {
        !self.is_nan() && self.0 < SIGN_BIT && self.magnitude_bits() > c
    }

    pub fn is_in_unit(&self) -> (r: bool)
        ensures
            r == in_unit(self.0),
    {
        let m: u64 = self.magnitude_bits();
        !self.is_nan() && (self.0 < SIGN_BIT || m == 0) && (self.0 >= SIGN_BIT || m <= ONE_BITS)
    }
}

} // verus!
