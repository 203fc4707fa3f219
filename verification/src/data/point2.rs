//! A 2D point with exact rational coordinates.
use vstd::prelude::*;
use crate::data::ratio::Ratio;

verus! {

/// A 2D point whose coordinates are exact rationals: the kind of point a
/// geometric construction (a circumcenter, a segment intersection) yields.
#[derive(Debug, Clone, Copy, PartialEq, Eq, Structural)]
pub struct Point2 {
    pub x: Ratio,
    pub y: Ratio,
}

/// Shorthand constructor, mirroring the struct literal.
pub fn point2(x: Ratio, y: Ratio) -> (p: Point2)
    ensures
        p == (Point2 { x, y }),
{
    Point2 { x, y }
}

} // verus!
