//! An exact rational number.
use vstd::prelude::*;

verus! {

/// An exact rational: `num / den`. Produced where a geometric construction
/// divides (segment intersections, circumcenters, triangle areas); kept
/// unreduced, so two `Ratio` values denote the same rational exactly when
/// [`ratio_eq`] holds.
#[derive(Debug, Clone, Copy, PartialEq, Eq, Structural)]
pub struct Ratio {
    pub num: i128,
    pub den: i128,
}

/// A rational is well-formed when its denominator is nonzero.
pub open spec fn ratio_wf(r: Ratio) -> bool {
    r.den != 0
}

/// The two rationals denote the same number: cross-multiplication agrees.
pub open spec fn ratio_eq(a: Ratio, b: Ratio) -> bool {
    a.num * b.den == b.num * a.den
}

/// The rational denotes the integer `n`.
pub open spec fn ratio_is_int(r: Ratio, n: int) -> bool {
    r.num == n * r.den
}

/// Shorthand constructor, mirroring the struct literal.
pub fn ratio(num: i128, den: i128) -> (r: Ratio)
    ensures
        r == (Ratio { num, den }),
{
    Ratio { num, den }
}

} // verus!
