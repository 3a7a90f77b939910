//! A decimal fixed-point number: the scalar that the solver can be proved
//! on, since every operation is a function on integers.

use crate::scalar::Scalar;
use vstd::arithmetic::div_mod::{lemma_fundamental_div_mod, lemma_fundamental_div_mod_converse};
use vstd::prelude::*;

verus! {

/// How many units of `raw` make one.
pub const SCALE: i64 = 1_000_000_000_000;

/// A number with twelve decimal places, between about minus and plus nine
/// million: the value is `raw / SCALE`. Results are rounded down to the next
/// representable number and cut at the ends of the range.
#[derive(Clone, Copy, Debug, PartialEq, Eq, Structural)]
pub struct Fixed {
    pub raw: i64,
}

/// `x` cut at the ends of the range of `i64`.
pub open spec fn saturate(x: int) -> i64 {
    if x > i64::MAX {
        i64::MAX
    } else if x < i64::MIN {
        i64::MIN
    } else {
        x as i64
    }
}

/// The end of the range on the side of `x`, and zero for zero: what a
/// division of `x` by zero gives.
pub open spec fn limit(x: int) -> i64 {
    if x > 0 {
        i64::MAX
    } else if x < 0 {
        i64::MIN
    } else {
        0
    }
}

/// The quotient `n / d` rounded down, for a divisor of either sign.
pub open spec fn floor_div(n: int, d: int) -> int
    recommends
        d != 0,
{
    if d > 0 {
        n / d
    } else {
        (-n) / (-d)
    }
}

/// Whether `r` is the square root of `n` rounded down.
pub open spec fn is_floor_sqrt(n: int, r: int) -> bool {
    0 <= r && r * r <= n < (r + 1) * (r + 1)
}

/// The square root of `n` rounded down.
pub open spec fn floor_sqrt(n: int) -> int {
    choose|r: int| is_floor_sqrt(n, r)
}

/// A number has at most one rounded-down square root.
pub proof fn lemma_floor_sqrt_unique(n: int, r1: int, r2: int)
    requires
        is_floor_sqrt(n, r1),
        is_floor_sqrt(n, r2),
    ensures
        r1 == r2,
{
    if r1 < r2 {
        assert((r1 + 1) * (r1 + 1) <= r2 * r2) by (nonlinear_arith)
            requires
                0 <= r1,
                r1 + 1 <= r2,
        ;
    }
    if r2 < r1 {
        assert((r2 + 1) * (r2 + 1) <= r1 * r1) by (nonlinear_arith)
            requires
                0 <= r2,
                r2 + 1 <= r1,
        ;
    }
}

/// `x` cut at the ends of the range of `i64`.
fn saturated(x: i128) -> (r: i64)
    ensures
        r == saturate(x as int),
{
    if x > i64::MAX as i128 {
        i64::MAX
    } else if x < i64::MIN as i128 {
        i64::MIN
    } else {
        x as i64
    }
}

/// The end of the range on the side of `x`, and zero for zero.
fn limit_of(x: i64) -> (r: i64)
    ensures
        r == limit(x as int),
{
    if x > 0 {
        i64::MAX
    } else if x < 0 {
        i64::MIN
    } else {
        0
    }
}

/// The quotient `n / d` rounded down, for a positive divisor.
fn div_down(n: i128, d: i128) -> (q: i128)
    requires
        0 < d <= 0x1_0000_0000_0000_0000,
        -0x4000_0000_0000_0000_0000_0000_0000_0000 <= n <= 0x4000_0000_0000_0000_0000_0000_0000_0000,
    ensures
        q == n as int / d as int,
{
    if n >= 0 {
        n / d
    } else {
        let m: i128 = -n;
        let t: i128 = (m + (d - 1)) / d;
        proof {
            lemma_fundamental_div_mod(m + d - 1, d as int);
            let r1 = (m + d - 1) % (d as int);
            assert(n == (-t) * d + (d - 1 - r1)) by (nonlinear_arith)
                requires
                    m + d - 1 == d * t + r1,
                    m == -n,
            ;
            lemma_fundamental_div_mod_converse(n as int, d as int, -t as int, d - 1 - r1);
        }
        -t
    }
}

/// The square root of `n` rounded down.
fn sqrt_down(n: u128) -> (r: u128)
    requires
        n < 0x100_0000_0000_0000_0000_0000_0000,
    ensures
        is_floor_sqrt(n as int, r as int),
        r < 0x10_0000_0000_0000,
{
    let mut lo: u128 = 0;
    let mut hi: u128 = 0x10_0000_0000_0000;
    proof {
        assert(0x10_0000_0000_0000int * 0x10_0000_0000_0000int
            == 0x100_0000_0000_0000_0000_0000_0000int) by (nonlinear_arith);
    }
    while hi - lo > 1
        invariant
            lo < hi <= 0x10_0000_0000_0000,
            lo * lo <= n < hi * hi,
        decreases hi - lo,
    {
        let mid: u128 = lo + (hi - lo) / 2;
        proof {
            assert(mid * mid < 0x100_0000_0000_0000_0000_0000_0000) by (nonlinear_arith)
                requires
                    0 <= mid < 0x10_0000_0000_0000,
            ;
        }
        if mid * mid <= n {
            lo = mid;
        } else {
            hi = mid;
        }
    }
    lo
}

impl Scalar for Fixed {
    open spec fn ratio_spec(num: i64, den: u64) -> Self {
        if den == 0 {
            Fixed { raw: limit(num as int) }
        } else {
            Fixed { raw: saturate((num * SCALE) / (den as int)) }
        }
    }

    open spec fn index_spec(i: usize) -> Self {
        Fixed { raw: saturate(i * SCALE) }
    }

    open spec fn plus_spec(self, rhs: Self) -> Self {
        Fixed { raw: saturate(self.raw + rhs.raw) }
    }

    open spec fn minus_spec(self, rhs: Self) -> Self {
        Fixed { raw: saturate(self.raw - rhs.raw) }
    }

    open spec fn times_spec(self, rhs: Self) -> Self {
        Fixed { raw: saturate((self.raw * rhs.raw) / (SCALE as int)) }
    }

    open spec fn over_spec(self, rhs: Self) -> Self {
        if rhs.raw == 0 {
            Fixed { raw: limit(self.raw as int) }
        } else {
            Fixed { raw: saturate(floor_div(self.raw * SCALE, rhs.raw as int)) }
        }
    }

    open spec fn le_spec(self, rhs: Self) -> bool {
        self.raw <= rhs.raw
    }

    open spec fn floor_index_spec(self) -> usize {
        if self.raw < 0 {
            0
        } else {
            (self.raw / SCALE) as usize
        }
    }

    open spec fn sqrt_spec(self) -> Self {
        if self.raw <= 0 {
            Fixed { raw: 0 }
        } else {
            Fixed { raw: floor_sqrt(self.raw * SCALE) as i64 }
        }
    }

    fn ratio(num: i64, den: u64) -> (r: Self) {
        if den == 0 {
            Fixed { raw: limit_of(num) }
        } else {
            proof {
                assert(-0x4000_0000_0000_0000_0000_0000_0000_0000 <= num * SCALE
                    <= 0x4000_0000_0000_0000_0000_0000_0000_0000) by (nonlinear_arith)
                    requires
                        -0x8000_0000_0000_0000 <= num <= 0x8000_0000_0000_0000,
                        SCALE == 1_000_000_000_000,
                ;
            }
            Fixed { raw: saturated(div_down(num as i128 * SCALE as i128, den as i128)) }
        }
    }

    fn index(i: usize) -> (r: Self) {
        proof {
            assert(0 <= i * SCALE <= 0x4000_0000_0000_0000_0000_0000_0000_0000)
                by (nonlinear_arith)
                requires
                    0 <= i <= 0xffff_ffff_ffff_ffff,
                    SCALE == 1_000_000_000_000,
            ;
        }
        Fixed { raw: saturated(i as i128 * SCALE as i128) }
    }

    fn plus(&self, rhs: &Self) -> (r: Self) {
        Fixed { raw: saturated(self.raw as i128 + rhs.raw as i128) }
    }

    fn minus(&self, rhs: &Self) -> (r: Self) {
        Fixed { raw: saturated(self.raw as i128 - rhs.raw as i128) }
    }

    fn times(&self, rhs: &Self) -> (r: Self) {
        proof {
            assert(-0x4000_0000_0000_0000_0000_0000_0000_0000 <= self.raw * rhs.raw
                <= 0x4000_0000_0000_0000_0000_0000_0000_0000) by (nonlinear_arith)
                requires
                    -0x8000_0000_0000_0000 <= self.raw <= 0x8000_0000_0000_0000,
                    -0x8000_0000_0000_0000 <= rhs.raw <= 0x8000_0000_0000_0000,
            ;
        }
        Fixed { raw: saturated(div_down(self.raw as i128 * rhs.raw as i128, SCALE as i128)) }
    }

    fn over(&self, rhs: &Self) -> (r: Self) {
        if rhs.raw == 0 {
            Fixed { raw: limit_of(self.raw) }
        } else {
            proof {
                assert(-0x4000_0000_0000_0000_0000_0000_0000_0000 <= self.raw * SCALE
                    <= 0x4000_0000_0000_0000_0000_0000_0000_0000) by (nonlinear_arith)
                    requires
                        -0x8000_0000_0000_0000 <= self.raw <= 0x8000_0000_0000_0000,
                        SCALE == 1_000_000_000_000,
                ;
            }
            let n: i128 = self.raw as i128 * SCALE as i128;
            if rhs.raw > 0 {
                Fixed { raw: saturated(div_down(n, rhs.raw as i128)) }
            } else {
                Fixed { raw: saturated(div_down(-n, -(rhs.raw as i128))) }
            }
        }
    }

    fn le(&self, rhs: &Self) -> (r: bool) {
        self.raw <= rhs.raw
    }

    fn floor_index(&self) -> (r: usize) {
        if self.raw < 0 {
            0
        } else {
            (self.raw / SCALE) as usize
        }
    }

    fn sqrt(&self) -> (r: Self) {
        if self.raw <= 0 {
            Fixed { raw: 0 }
        } else {
            proof {
                assert(0 <= self.raw * SCALE < 0x100_0000_0000_0000_0000_0000_0000)
                    by (nonlinear_arith)
                    requires
                        0 <= self.raw <= 0x8000_0000_0000_0000,
                        SCALE == 1_000_000_000_000,
                ;
            }
            let root = sqrt_down(self.raw as u128 * SCALE as u128);
            proof {
                let n = self.raw * SCALE;
                assert(is_floor_sqrt(n, root as int));
                lemma_floor_sqrt_unique(n, root as int, floor_sqrt(n));
            }
            Fixed { raw: root as i64 }
        }
    }
}

} // verus!
