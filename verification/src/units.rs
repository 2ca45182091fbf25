//! Fixed-point conventions shared by the whole crate, and a widening
//! multiply-divide helper.

use vstd::prelude::*;

verus! {

/// One whole unit of amplitude or of a dimensionless ratio: 1.0 == 10^9.
pub const UNIT: u64 = 1_000_000_000;

/// One full revolution (2*pi radians), or one waveform cycle, measured in
/// billionths of a turn ("nanoturns").
pub const TURN: u64 = 1_000_000_000;

/// Half a revolution / half a waveform cycle, in nanoturns.
pub const HALF_TURN: u64 = 500_000_000;

/// Multiplies two `u64` values and divides the product by a third, widening
/// to 128 bits so the intermediate product cannot overflow.
pub fn mul_div(a: u64, b: u64, d: u64) -> (r: u64)
    requires
        d > 0,
        a * b / (d as int) <= u64::MAX,
    ensures
        r == a * b / (d as int),
{
    proof {
        assert((a as int) * (b as int) <= (u64::MAX as int) * (u64::MAX as int))
            by (nonlinear_arith)
            requires
                a <= u64::MAX,
                b <= u64::MAX,
        ;
    }
    (((a as u128) * (b as u128)) / (d as u128)) as u64
}

} // verus!
