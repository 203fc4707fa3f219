//! A 3D point with exact rational coordinates.
use vstd::prelude::*;
use crate::data::ratio::Ratio;

verus! {

/// A 3D point whose coordinates are exact rationals.
#[derive(Debug, Clone, Copy, PartialEq, Eq, Structural)]
pub struct Point3 {
    pub x: Ratio,
    pub y: Ratio,
    pub z: Ratio,
}

/// Shorthand constructor, mirroring the struct literal.
pub fn point3(x: Ratio, y: Ratio, z: Ratio) -> (p: Point3)
    ensures
        p == (Point3 { x, y, z }),
{
    Point3 { x, y, z }
}

} // verus!
