//! Exact rational results.
//!
//! Expected damage is a rational number whose denominator is a power of
//! twenty (hit probabilities) times two (half-point damage units). A
//! [`Ratio`] carries that number exactly, so callers can compare results
//! without any rounding.

use vstd::prelude::*;

verus! {

/// An exact rational `num / den`, with `den > 0`.
#[derive(Debug, Clone, Copy, PartialEq, Eq, Structural)]
pub struct Ratio {
    pub num: i128,
    pub den: i128,
}

/// 100 times `num / den`, truncated toward zero: the value in whole
/// hundredths, as used to compare two results at two-decimal precision.
pub open spec fn spec_hundredths(num: int, den: int) -> int {
    if num >= 0 {
        (100 * num) / den
    } else {
        -((100 * -num) / den)
    }
}

impl Ratio {
    /// A ratio is well formed when its denominator is positive.
    pub open spec fn wf(self) -> bool {
        self.den > 0
    }

    /// `self` in whole hundredths, truncated toward zero. Two results are
    /// equal at two-decimal precision exactly when their `cmpable` values
    /// are equal.
    pub fn cmpable(&self) -> (r: i128)
        requires
            self.wf(),
            -(i128::MAX / 100) <= self.num <= i128::MAX / 100,
        ensures
            r == spec_hundredths(self.num as int, self.den as int),
    {
        let d: u128 = self.den as u128;
        if self.num >= 0 {
            let m: u128 = self.num as u128;
            let q: u128 = (100 * m) / d;
            proof {
                vstd::arithmetic::div_mod::lemma_div_nonincreasing((100 * m) as int, d as int);
            }
            q as i128
        } else {
            let m: u128 = (-self.num) as u128;
            let q: u128 = (100 * m) / d;
            proof {
                vstd::arithmetic::div_mod::lemma_div_nonincreasing((100 * m) as int, d as int);
            }
            -(q as i128)
        }
    }
}

/// The least integer at or above the rational `p / q`, for `q != 0`.
/// The ceiling of a rational is minus the floor of its negation, and
/// integer division by a positive divisor is that floor.
pub open spec fn spec_ceil_div(p: int, q: int) -> int
    recommends
        q != 0,
{
    if q > 0 {
        -((-p) / q)
    } else {
        -(p / (-q))
    }
}

/// `p / q` rounded up to the next integer, exactly.
pub fn ceil_div(p: i128, q: i128) -> (r: i128)
    requires
        q != 0,
        -0x40000000000000000000000000000000 < p < 0x40000000000000000000000000000000,
        -0x40000000000000000000000000000000 < q < 0x40000000000000000000000000000000,
    ensures
        r == spec_ceil_div(p as int, q as int),
        -0x40000000000000000000000000000000 <= r <= 0x40000000000000000000000000000000,
{
    let pp: i128 = if q < 0 {
        -p
    } else {
        p
    };
    let qq: i128 = if q < 0 {
        -q
    } else {
        q
    };
    if pp >= 0 {
        let m: u128 = pp as u128;
        let d: u128 = qq as u128;
        let qt: u128 = m / d;
        let rm: u128 = m % d;
        proof {
            let a = pp as int;
            let b = qq as int;
            vstd::arithmetic::div_mod::lemma_fundamental_div_mod(a, b);
            vstd::arithmetic::div_mod::lemma_mod_division_less_than_divisor(a, b);
            vstd::arithmetic::div_mod::lemma_div_nonincreasing(a, b);
            vstd::arithmetic::div_mod::lemma_div_pos_is_pos(a, b);
            if a % b == 0 {
                assert(-a == (-(a / b)) * b + 0) by (nonlinear_arith)
                    requires
                        a == b * (a / b),
                ;
                vstd::arithmetic::div_mod::lemma_fundamental_div_mod_converse(
                    -a,
                    b,
                    -(a / b),
                    0,
                );
            } else {
                assert(-a == (-(a / b) - 1) * b + (b - a % b)) by (nonlinear_arith)
                    requires
                        a == b * (a / b) + a % b,
                ;
                vstd::arithmetic::div_mod::lemma_fundamental_div_mod_converse(
                    -a,
                    b,
                    -(a / b) - 1,
                    b - a % b,
                );
            }
        }
        if rm != 0 {
            qt as i128 + 1
        } else {
            qt as i128
        }
    } else {
        let m: u128 = (-pp) as u128;
        let d: u128 = qq as u128;
        let qt: u128 = m / d;
        proof {
            vstd::arithmetic::div_mod::lemma_div_nonincreasing(m as int, d as int);
            vstd::arithmetic::div_mod::lemma_div_pos_is_pos(m as int, d as int);
        }
        -(qt as i128)
    }
}

/// The exact value that a whole number of hundredths stands for.
pub fn uncmp(x: i64) -> (r: Ratio)
    ensures
        r.num == x,
        r.den == 100,
        r.wf(),
{
    Ratio { num: x as i128, den: 100 }
}

} // verus!
