//! A 2D circle.
use vstd::prelude::*;
use crate::data::point2::Point2;
use crate::data::ratio::Ratio;

verus! {

/// A 2D circle, kept exactly: its center has rational coordinates and its
/// squared radius is rational. (The radius itself is usually irrational, so
/// it is the square that is stored.)
#[derive(Debug, Clone, Copy, PartialEq, Eq, Structural)]
pub struct Sphere1 {
    pub radius_sq: Ratio,
    pub center: Point2,
}

impl Sphere1 {
    /// The center of the circle.
    pub fn center(&self) -> (r: Point2)
        ensures
            r == self.center,
    {
        self.center
    }

    /// The squared radius of the circle.
    pub fn radius_sq(&self) -> (r: Ratio)
        ensures
            r == self.radius_sq,
    {
        self.radius_sq
    }
}

} // verus!
