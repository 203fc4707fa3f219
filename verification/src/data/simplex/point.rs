//! The 0-dimensional simplex: a single point.
use vstd::prelude::*;
use crate::data::ratio::Ratio;
use crate::data::simplex::simplex::Simplex;
use crate::data::sphere::sphere1::Sphere1;

verus! {

/// A vertex of a simplex: a 2D point with exact integer coordinates.
#[derive(Debug, Clone, Copy, PartialEq, Eq, Structural)]
pub struct Point {
    pub x: i32,
    pub y: i32,
}

impl Simplex for Point {
    type Face = Point;

    open spec fn spec_dimension() -> u32 {
        0
    }

    open spec fn spec_faces(&self) -> Seq<Point> {
        Seq::empty()
    }

    open spec fn spec_vertices(&self) -> Seq<Point> {
        Seq::empty()
    }

    fn dimension() -> (r: u32) {
        0
    }

    fn faces(&self) -> (r: Vec<Point>) {
        Vec::new()
    }

    fn vertices(&self) -> (r: Vec<Point>) {
        Vec::new()
    }
}

impl Point {
    /// A point has no extent: its volume is exactly zero.
    pub fn volume(&self) -> (r: Ratio)
        ensures
            r.num == 0,
            r.den == 1,
    {
        Ratio { num: 0, den: 1 }
    }

    /// A single point has no circumscribed sphere in this design.
    pub fn circumscribe(&self) -> (r: Option<Sphere1>)
        ensures
            r is None,
    {
        None
    }

    /// Componentwise sum of two points.
    pub fn add(self, rhs: Self) -> (r: Self)
        requires
            i32::MIN <= self.x + rhs.x <= i32::MAX,
            i32::MIN <= self.y + rhs.y <= i32::MAX,
        ensures
            r.x == self.x + rhs.x,
            r.y == self.y + rhs.y,
    {
        Self { x: self.x + rhs.x, y: self.y + rhs.y }
    }

    /// Componentwise product of two points.
    pub fn mul(self, rhs: Self) -> (r: Self)
        requires
            i32::MIN <= self.x * rhs.x <= i32::MAX,
            i32::MIN <= self.y * rhs.y <= i32::MAX,
        ensures
            r.x == self.x * rhs.x,
            r.y == self.y * rhs.y,
    {
        Self { x: self.x * rhs.x, y: self.y * rhs.y }
    }
}

} // verus!
