//! A 3D sphere.
use vstd::prelude::*;
use crate::data::point3::Point3;
use crate::data::ratio::Ratio;

verus! {

/// A 3D sphere, kept exactly: its center has rational coordinates and its
/// squared radius is rational.
#[derive(Debug, Clone, Copy, PartialEq, Eq, Structural)]
pub struct Sphere2 {
    pub radius_sq: Ratio,
    pub center: Point3,
}

impl Sphere2 {
    /// The center of the sphere.
    pub fn center(&self) -> (r: Point3)
        ensures
            r == self.center,
    {
        self.center
    }

    /// The squared radius of the sphere.
    pub fn radius_sq(&self) -> (r: Ratio)
        ensures
            r == self.radius_sq,
    {
        self.radius_sq
    }
}

} // verus!
