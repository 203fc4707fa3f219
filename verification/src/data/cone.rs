//! A cone: the angle swept from the ray `origin -> a` to the ray
//! `origin -> b`.
use vstd::prelude::*;
use crate::data::polar_direction::PolarDirection;
use crate::data::vec2::Vec2;
use crate::data::vec2::lemma_diff_product_bounds;

verus! {

// Cone example:
// [ABC] ==
//        A
//        /
//       /
//      /
//     /_____
//    B      C
/// The angle swept from the ray `origin -> a` to the ray `origin -> b`.
#[derive(Debug, Clone, Copy, PartialEq, Eq, Structural)]
pub struct Cone {
    pub a: Vec2,
    pub b: Vec2,
    pub origin: Vec2,
}

/// The cross product of the two rays of `c`, translated to the origin and
/// taken in the order `(b - origin) x (a - origin)`. Its sign classifies the
/// cone's turn direction.
pub open spec fn spec_cone_cross(c: Cone) -> int {
    (c.b.x - c.origin.x) * (c.a.y - c.origin.y) - (c.b.y - c.origin.y) * (c.a.x - c.origin.x)
}

impl Cone {
    /// Classifies the turn direction of the cone by the sign of the exact
    /// cross product of its two rays: zero is collinear, positive is a left
    /// turn (counterclockwise), negative a right turn (clockwise).
    pub fn angle_direction(self) -> (r: PolarDirection)
        ensures
            r == PolarDirection::Collinear <==> spec_cone_cross(self) == 0,
            r == PolarDirection::CCW <==> spec_cone_cross(self) > 0,
            r == PolarDirection::CW <==> spec_cone_cross(self) < 0,
    {
        let bx: i64 = (self.b.x as i64) - (self.origin.x as i64);
        let by: i64 = (self.b.y as i64) - (self.origin.y as i64);
        let ax: i64 = (self.a.x as i64) - (self.origin.x as i64);
        let ay: i64 = (self.a.y as i64) - (self.origin.y as i64);
        proof {
            lemma_diff_product_bounds(self.b.x as int, self.origin.x as int, self.a.y as int,
                self.origin.y as int);
            lemma_diff_product_bounds(self.b.y as int, self.origin.y as int, self.a.x as int,
                self.origin.x as int);
        }
        let angle: i128 = (bx as i128) * (ay as i128) - (by as i128) * (ax as i128);
        if angle == 0 {
            PolarDirection::Collinear
        } else if angle < 0 {
            PolarDirection::CW
        } else {
            PolarDirection::CCW
        }
    }
}

/// Swapping the two rays of a cone negates its cross product, so
/// [`Cone::angle_direction`] flips CW and CCW and preserves Collinear.
pub proof fn lemma_cone_swap(c: Cone)
    ensures
        spec_cone_cross(Cone { a: c.b, b: c.a, origin: c.origin }) == -spec_cone_cross(c),
{
    assert((c.a.x - c.origin.x) * (c.b.y - c.origin.y) - (c.a.y - c.origin.y) * (c.b.x
        - c.origin.x) == -((c.b.x - c.origin.x) * (c.a.y - c.origin.y) - (c.b.y - c.origin.y) * (
    c.a.x - c.origin.x))) by (nonlinear_arith);
}

} // verus!
