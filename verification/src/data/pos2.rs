//! A 2D position (an absolute point) with exact integer coordinates.
use vstd::prelude::*;
use crate::data::vec2::Vec2;

verus! {

/// An absolute 2D point. The same data as [`Vec2`], kept as a distinct type
/// so that positions and displacements do not mix silently.
#[derive(Debug, Clone, Copy, PartialEq, Eq, Structural)]
pub struct Pos2 {
    pub x: i32,
    pub y: i32,
}

/// Shorthand constructor, mirroring the struct literal.
pub fn pos2(x: i32, y: i32) -> (p: Pos2)
    ensures
        p == (Pos2 { x, y }),
{
    Pos2 { x, y }
}

impl Pos2 {
    /// Componentwise difference of two positions, giving the displacement
    /// from `rhs` to `self`.
    pub fn sub(self, rhs: Self) -> (r: Self)
        requires
            i32::MIN <= self.x - rhs.x <= i32::MAX,
            i32::MIN <= self.y - rhs.y <= i32::MAX,
        ensures
            r.x == self.x - rhs.x,
            r.y == self.y - rhs.y,
    {
        Self { x: self.x - rhs.x, y: self.y - rhs.y }
    }
}

impl From<Pos2> for Vec2 {
    /// Reinterprets a position as the displacement from the origin.
    fn from(p: Pos2) -> (v: Vec2) {
        Vec2 { x: p.x, y: p.y }
    }
}

impl vstd::std_specs::convert::FromSpecImpl<Pos2> for Vec2 {
    open spec fn obeys_from_spec() -> bool {
        true
    }

    open spec fn from_spec(p: Pos2) -> Vec2 {
        Vec2 { x: p.x, y: p.y }
    }
}

} // verus!
