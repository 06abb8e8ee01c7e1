//! Real-valued quantities, carried as IEEE 754 bit patterns.
//!
//! The world stores and compares positions, sizes and colours but never does
//! arithmetic on them, so each is kept as the exact bits that a caller handed
//! in and is handed back unchanged.

use vstd::prelude::*;

verus! {

/// A single-precision real number, as its IEEE 754 binary32 bit pattern.
#[derive(Debug, Clone, Copy, Hash, PartialEq, Eq, Structural)]
pub struct Scalar32 {
    pub bits: u32,
}

/// A double-precision real number, as its IEEE 754 binary64 bit pattern.
#[derive(Debug, Clone, Copy, Hash, PartialEq, Eq, Structural)]
pub struct Scalar64 {
    pub bits: u64,
}

/// A point or an extent in the plane.
#[derive(Debug, Clone, Copy, Hash, PartialEq, Eq, Structural)]
pub struct Vec2 {
    pub x: Scalar32,
    pub y: Scalar32,
}

/// The bit pattern of zero.
pub const ZERO_BITS: u32 = 0;

/// The bit pattern of one half.
pub const HALF_BITS: u32 = 0x3f00_0000;

impl Scalar32 {
    pub fn from_bits(bits: u32) -> (r: Self)
        ensures
            r == (Scalar32 { bits }),
    {
        Scalar32 { bits }
    }

    pub fn to_bits(&self) -> (r: u32)
        ensures
            r == self.bits,
    {
        self.bits
    }

    /// Zero.
    pub fn zero() -> (r: Self)
        ensures
            r == (Scalar32 { bits: ZERO_BITS }),
    {
        Scalar32 { bits: ZERO_BITS }
    }

    /// One half.
    pub fn half() -> (r: Self)
        ensures
            r == (Scalar32 { bits: HALF_BITS }),
    {
        Scalar32 { bits: HALF_BITS }
    }
}

impl Scalar64 {
    pub fn from_bits(bits: u64) -> (r: Self)
        ensures
            r == (Scalar64 { bits }),
    {
        Scalar64 { bits }
    }

    pub fn to_bits(&self) -> (r: u64)
        ensures
            r == self.bits,
    {
        self.bits
    }
}

impl Vec2 {
    pub fn new(x: Scalar32, y: Scalar32) -> (r: Self)
        ensures
            r == (Vec2 { x, y }),
    {
        Vec2 { x, y }
    }
}

} // verus!
