//! Average values of the polyhedral dice, in half-points.
//!
//! A die with `n` faces averages `(1 + n) / 2` points per roll, which is
//! always a whole number of half-points: `1 + n`. Keeping the averages in
//! half-points lets every later computation stay in exact integers.

use vstd::prelude::*;

verus! {

/// Average roll of a die with `sides` faces, in half-points.
pub open spec fn spec_die_average(sides: int) -> int {
    1 + sides
}

/// Average roll of one four-sided die (2.5 points), in half-points.
#[allow(non_upper_case_globals)]
pub const d4: i32 = 5;

/// Average roll of one six-sided die (3.5 points), in half-points.
#[allow(non_upper_case_globals)]
pub const d6: i32 = 7;

/// Average roll of one eight-sided die (4.5 points), in half-points.
#[allow(non_upper_case_globals)]
pub const d8: i32 = 9;

/// Average roll of one ten-sided die (5.5 points), in half-points.
#[allow(non_upper_case_globals)]
pub const d10: i32 = 11;

/// Average roll of one twelve-sided die (6.5 points), in half-points.
#[allow(non_upper_case_globals)]
pub const d12: i32 = 13;

/// The named constants are the die averages they claim to be.
pub proof fn lemma_die_constants()
    ensures
        d4 == spec_die_average(4),
        d6 == spec_die_average(6),
        d8 == spec_die_average(8),
        d10 == spec_die_average(10),
        d12 == spec_die_average(12),
{
}

} // verus!
