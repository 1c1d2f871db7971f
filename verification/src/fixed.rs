//! Binary fixed-point numbers: a scalar whose arithmetic is exact up to a
//! stated rounding, and the same on every machine.
//!
//! A value is a signed 64-bit count of units of 2^-32. Every operation
//! computes over the integers, rounds towards zero where it divides, and
//! keeps to the nearest end of the range where the result leaves it.
use vstd::prelude::*;
use crate::scalar::Scalar;

verus! {

/// The count that stands for the number one.
pub const ONE: i64 = 0x1_0000_0000;

/// A fixed-point number: `raw` units of 2^-32.
pub struct Fixed {
    pub raw: i64,
}

impl Clone for Fixed {
    fn clone(&self) -> (r: Self)
        ensures
            r == *self,
    {
        *self
    }
}

impl Copy for Fixed {

}

/// The nearest count within the range of `i64`.
pub open spec fn clamp_spec(value: int) -> i64 {
    if value < i64::MIN {
        i64::MIN
    } else if value > i64::MAX {
        i64::MAX
    } else {
        value as i64
    }
}

/// The absolute value.
pub open spec fn magnitude_spec(value: int) -> int {
    if value < 0 {
        -value
    } else {
        value
    }
}

/// `magnitude` with the sign that a product or quotient of `a` and `b` has.
pub open spec fn signed_spec(a: int, b: int, magnitude: int) -> int {
    if (a < 0) != (b < 0) {
        -magnitude
    } else {
        magnitude
    }
}

/// `r` is the largest natural number whose square does not exceed `n`.
pub open spec fn is_floor_sqrt(n: int, r: int) -> bool {
    0 <= r && r * r <= n < (r + 1) * (r + 1)
}

/// The largest natural number whose square does not exceed `n`.
pub open spec fn floor_sqrt_spec(n: int) -> int {
    choose|r: int| is_floor_sqrt(n, r)
}

/// Only one natural number has its square at or below `n` and the square of
/// its successor above.
pub proof fn lemma_floor_sqrt_unique(n: int, r: int)
    requires
        0 <= r,
        r * r <= n < (r + 1) * (r + 1),
    ensures
        floor_sqrt_spec(n) == r,
{
    let s = floor_sqrt_spec(n);
    assert(is_floor_sqrt(n, r));
    assert(is_floor_sqrt(n, s));
    if s < r {
        assert((s + 1) * (s + 1) <= r * r) by (nonlinear_arith)
            requires
                0 <= s + 1 <= r,
        ;
    }
    if r < s {
        assert((r + 1) * (r + 1) <= s * s) by (nonlinear_arith)
            requires
                0 <= r + 1 <= s,
        ;
    }
}

fn clamp(value: i128) -> (r: i64)
    ensures
        r == clamp_spec(value as int),
{
    if value < i64::MIN as i128 {
        i64::MIN
    } else if value > i64::MAX as i128 {
        i64::MAX
    } else {
        value as i64
    }
}

fn magnitude(value: i64) -> (r: u128)
    ensures
        r == magnitude_spec(value as int),
{
    if value < 0 {
        (-(value as i128)) as u128
    } else {
        value as u128
    }
}

/// `size`, at most 2^127, with the sign of a product of `a` and `b`, clamped.
fn signed(a: i64, b: i64, size: u128) -> (r: i64)
    ensures
        r == clamp_spec(signed_spec(a as int, b as int, size as int)),
{
    if size > i64::MAX as u128 + 1 {
        if (a < 0) != (b < 0) {
            i64::MIN
        } else {
            i64::MAX
        }
    } else if (a < 0) != (b < 0) {
        clamp(-(size as i128))
    } else {
        clamp(size as i128)
    }
}

/// The floor of the square root of `n`, for `n` below 2^96.
fn floor_sqrt(n: u128) -> (r: u128)
    requires
        n < 0x1_0000_0000_0000_0000_0000_0000,
    ensures
        r == floor_sqrt_spec(n as int),
        is_floor_sqrt(n as int, r as int),
{
    let mut low: u128 = 0;
    let mut high: u128 = 0x1_0000_0000_0000;
    assert(0x1_0000_0000_0000 * 0x1_0000_0000_0000 == 0x1_0000_0000_0000_0000_0000_0000int)
        by (nonlinear_arith);
    while high - low > 1
        invariant
            low < high <= 0x1_0000_0000_0000,
            low * low <= n < high * high,
        decreases high - low,
    {
        let middle: u128 = low + (high - low) / 2;
        assert(middle * middle < 0x1_0000_0000_0000_0000_0000_0000) by (nonlinear_arith)
            requires
                middle < 0x1_0000_0000_0000,
        ;
        if middle * middle <= n {
            low = middle;
        } else {
            high = middle;
        }
    }
    proof {
        lemma_floor_sqrt_unique(n as int, low as int);
    }
    low
}

impl Fixed {
    /// The whole number `value`.
    pub fn from_int(value: i32) -> (r: Self)
        ensures
            r.raw == value * ONE,
    {
        Fixed { raw: (value as i64) * ONE }
    }
}

impl Scalar for Fixed {
    open spec fn zero_spec() -> Self {
        Fixed { raw: 0 }
    }

    open spec fn two_spec() -> Self {
        Fixed { raw: 0x2_0000_0000 }
    }

    open spec fn add_spec(self, rhs: Self) -> Self {
        Fixed { raw: clamp_spec(self.raw + rhs.raw) }
    }

    open spec fn sub_spec(self, rhs: Self) -> Self {
        Fixed { raw: clamp_spec(self.raw - rhs.raw) }
    }

    /// The product of the two counts over `ONE`, rounded towards zero.
    open spec fn mul_spec(self, rhs: Self) -> Self {
        Fixed {
            raw: clamp_spec(
                signed_spec(
                    self.raw as int,
                    rhs.raw as int,
                    (magnitude_spec(self.raw as int) * magnitude_spec(rhs.raw as int)) / (
                    ONE as int),
                ),
            ),
        }
    }

    /// The count of `self` times `ONE` over the count of `rhs`, rounded
    /// towards zero. Over zero: the end of the range on the side of `self`,
    /// and zero for zero.
    open spec fn div_spec(self, rhs: Self) -> Self {
        if rhs.raw == 0 {
            Fixed {
                raw: if self.raw > 0 {
                    i64::MAX
                } else if self.raw < 0 {
                    i64::MIN
                } else {
                    0
                },
            }
        } else {
            Fixed {
                raw: clamp_spec(
                    signed_spec(
                        self.raw as int,
                        rhs.raw as int,
                        (magnitude_spec(self.raw as int) * ONE) / magnitude_spec(rhs.raw as int),
                    ),
                ),
            }
        }
    }

    open spec fn neg_spec(self) -> Self {
        Fixed { raw: clamp_spec(-self.raw) }
    }

    /// The root rounded down to a count; zero for a negative value.
    open spec fn sqrt_spec(self) -> Self {
        if self.raw <= 0 {
            Fixed { raw: 0 }
        } else {
            Fixed { raw: floor_sqrt_spec(self.raw * ONE) as i64 }
        }
    }

    open spec fn max_spec(self, rhs: Self) -> Self {
        if self.raw < rhs.raw {
            rhs
        } else {
            self
        }
    }

    open spec fn min_spec(self, rhs: Self) -> Self {
        if rhs.raw < self.raw {
            rhs
        } else {
            self
        }
    }

    open spec fn lt_spec(self, rhs: Self) -> bool {
        self.raw < rhs.raw
    }

    open spec fn same_spec(self, rhs: Self) -> bool {
        self.raw == rhs.raw
    }

    proof fn zero_is_not_positive() {
    }

    fn zero() -> (r: Self) {
        Fixed { raw: 0 }
    }

    fn two() -> (r: Self) {
        Fixed { raw: 0x2_0000_0000 }
    }

    fn add(self, rhs: Self) -> (r: Self) {
        Fixed { raw: clamp(self.raw as i128 + rhs.raw as i128) }
    }

    fn sub(self, rhs: Self) -> (r: Self) {
        Fixed { raw: clamp(self.raw as i128 - rhs.raw as i128) }
    }

    fn mul(self, rhs: Self) -> (r: Self) {
        let a = magnitude(self.raw);
        let b = magnitude(rhs.raw);
        assert(a * b <= 0x8000_0000_0000_0000 * 0x8000_0000_0000_0000) by (nonlinear_arith)
            requires
                a <= 0x8000_0000_0000_0000,
                b <= 0x8000_0000_0000_0000,
        ;
        Fixed { raw: signed(self.raw, rhs.raw, (a * b) / (ONE as u128)) }
    }

    fn div(self, rhs: Self) -> (r: Self) {
        if rhs.raw == 0 {
            if self.raw > 0 {
                Fixed { raw: i64::MAX }
            } else if self.raw < 0 {
                Fixed { raw: i64::MIN }
            } else {
                Fixed { raw: 0 }
            }
        } else {
            let a = magnitude(self.raw);
            let b = magnitude(rhs.raw);
            assert(a * ONE <= 0x8000_0000_0000_0000 * 0x1_0000_0000) by (nonlinear_arith)
                requires
                    a <= 0x8000_0000_0000_0000,
                    ONE == 0x1_0000_0000,
            ;
            Fixed { raw: signed(self.raw, rhs.raw, (a * (ONE as u128)) / b) }
        }
    }

    fn neg(self) -> (r: Self) {
        Fixed { raw: clamp(-(self.raw as i128)) }
    }

    fn sqrt(self) -> (r: Self) {
        if self.raw <= 0 {
            Fixed { raw: 0 }
        } else {
            assert(self.raw * ONE < 0x8000_0000_0000_0000 * 0x1_0000_0000) by (nonlinear_arith)
                requires
                    0 < self.raw < 0x8000_0000_0000_0000,
                    ONE == 0x1_0000_0000,
            ;
            let root = floor_sqrt((self.raw as u128) * (ONE as u128));
            proof {
                let n = self.raw * ONE;
                assert(root < 0x1_0000_0000_0000) by (nonlinear_arith)
                    requires
                        root * root <= n,
                        n < 0x1_0000_0000_0000 * 0x1_0000_0000_0000,
                        root >= 0,
                ;
            }
            Fixed { raw: root as i64 }
        }
    }

    fn max(self, rhs: Self) -> (r: Self) {
        if self.raw < rhs.raw {
            rhs
        } else {
            self
        }
    }

    fn min(self, rhs: Self) -> (r: Self) {
        if rhs.raw < self.raw {
            rhs
        } else {
            self
        }
    }

    fn lt(self, rhs: Self) -> (r: bool) {
        self.raw < rhs.raw
    }

    fn same(self, rhs: Self) -> (r: bool) {
        self.raw == rhs.raw
    }
}

} // verus!
