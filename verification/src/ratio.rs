//! Exact rational scalars for scaled font measurements.
//!
//! Font-unit quantities are integers; scaling by `1000 / unitsPerEm` and by a
//! font size divided by 1000 turns them into exact rationals.  A `Ratio`
//! keeps numerator and denominator separate so every scaled width and line
//! metric in this crate is exact, with no rounding anywhere.

use vstd::prelude::*;

verus! {

/// An exact rational number `num / den`.  Well-formed values keep `den`
/// positive; the fraction is not necessarily reduced.
#[derive(Clone, Copy, Debug, PartialEq, Eq, Structural)]
pub struct Ratio {
    pub num: i128,
    pub den: u64,
}

impl Ratio {
    /// Well-formed: the denominator is positive.
    pub open spec fn wf(self) -> bool {
        self.den > 0
    }

    /// An integer as a ratio over denominator 1.
    pub fn whole(n: i64) -> (r: Ratio)
        ensures
            r.num == n as int,
            r.den == 1,
            r.wf(),
    {
        Ratio { num: n as i128, den: 1 }
    }
}

} // verus!
