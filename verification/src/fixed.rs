//! Fixed-point coordinates.
//!
//! Canvas coordinates are kept as signed 64-bit fixed-point numbers with
//! 32 fractional bits, so every whole pixel position in the `i32` range is
//! representable and can be halved exactly 32 times in a row. Arithmetic
//! on them is integer arithmetic on the raw representation.

use vstd::prelude::*;

verus! {

/// Number of fractional bits in a [`Fixed`].
pub const FRACTION_BITS: u32 = 32;

/// The raw representation of the number one, `2^32`.
pub const ONE: i64 = 0x1_0000_0000;

/// A signed fixed-point number standing for the value `raw / 2^32`.
///
/// Two numbers are equal exactly when their raw representations are.
#[derive(Clone, Copy, Debug, PartialEq, Eq, Structural)]
pub struct Fixed {
    pub raw: i64,
}

/// Half of `a + b`, rounded toward negative infinity.
pub open spec fn half_sum(a: int, b: int) -> int {
    (a + b) / 2
}

impl Fixed {
    /// The mean of two fixed-point numbers, as a raw representation:
    /// exact when `self.raw + other.raw` is even, and otherwise the
    /// nearest representable value below the mean.
    pub open spec fn midpoint_spec(self, other: Fixed) -> Fixed {
        Fixed { raw: half_sum(self.raw as int, other.raw as int) as i64 }
    }

    /// The fixed-point number with the given raw representation.
    pub fn from_raw(raw: i64) -> (r: Fixed)
        ensures
            r.raw == raw,
    {
        Fixed { raw }
    }

    /// The whole number `n`.
    pub fn from_int(n: i32) -> (r: Fixed)
        ensures
            r.raw == n * ONE,
    {
        let wide: i64 = n as i64;
        Fixed { raw: wide * ONE }
    }

    /// The mean of `self` and `other`, rounded toward negative infinity
    /// to the nearest representable value.
    pub fn midpoint(self, other: Fixed) -> (m: Fixed)
        ensures
            m == self.midpoint_spec(other),
            m.raw == half_sum(self.raw as int, other.raw as int),
    {
        let sum: i128 = self.raw as i128 + other.raw as i128;
        // Integer division truncates toward zero; shifting a negative sum
        // down by one first turns that into rounding toward negative infinity.
        let half: i128 = if sum >= 0 {
            sum / 2
        } else {
            (sum - 1) / 2
        };
        Fixed { raw: half as i64 }
    }
}

/// The midpoint of two numbers lies between them and is their exact mean
/// whenever the raw representations have the same parity.
pub proof fn lemma_midpoint_mean(a: Fixed, b: Fixed)
    ensures
        a.midpoint_spec(b).raw == half_sum(a.raw as int, b.raw as int),
        (a.raw + b.raw) % 2 == 0 ==> 2 * a.midpoint_spec(b).raw == a.raw + b.raw,
        (a.raw + b.raw) % 2 != 0 ==> 2 * a.midpoint_spec(b).raw + 1 == a.raw + b.raw,
        a.raw <= b.raw ==> a.raw <= a.midpoint_spec(b).raw <= b.raw,
        a.midpoint_spec(b) == b.midpoint_spec(a),
{
}

} // verus!
