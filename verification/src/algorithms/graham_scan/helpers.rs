//! Stack accessors and the pop test used by the hull scan.
use vstd::prelude::*;
use crate::data::polar_direction::PolarDirection;
use crate::data::pos2::Pos2;
use crate::data::cone::Cone;
use crate::data::cone::spec_cone_cross;
use crate::data::vec2::Vec2;
use crate::algorithms::graham_scan::order::spec_orient;

verus! {

/// The element just below the top of the stack.
pub fn next_to_top<T: Copy>(stack: &[T]) -> (r: T)
    requires
        stack@.len() > 1,
    ensures
        r == stack@[stack@.len() - 2],
{
    stack[stack.len() - 2]
}

/// The top element of the stack.
pub fn top<T: Copy>(stack: &[T]) -> (r: T)
    requires
        stack@.len() > 1,
    ensures
        r == stack@[stack@.len() - 1],
{
    stack[stack.len() - 1]
}

/// Whether reaching `p2` from the two topmost stack points means turning
/// clockwise (or not turning at all): exactly when the candidate does not
/// make a strict left turn, and the scan must pop the stack.
pub fn to_the_right(stack: &[Pos2], p2: Pos2) -> (r: bool)
    requires
        stack@.len() > 1,
    ensures
        r == (spec_orient(stack@[stack@.len() - 2], stack@[stack@.len() - 1], p2) <= 0),
{
    let p0 = next_to_top(stack);
    let p1 = top(stack);
    let cone = Cone {
        a: Vec2 { x: p0.x, y: p0.y },
        b: Vec2 { x: p2.x, y: p2.y },
        origin: Vec2 { x: p1.x, y: p1.y },
    };
    proof {
        lemma_cone_cross_is_orient(p0, p1, p2);
    }
    match cone.angle_direction() {
        PolarDirection::Collinear | PolarDirection::CW => true,
        PolarDirection::CCW => false,
    }
}

/// The cone swept from `origin -> a` to `origin -> b` has the same cross
/// product as the turn `a -> origin -> ...` — concretely, the cone built by
/// [`to_the_right`] measures the orientation of `(p0, p1, p2)`.
proof fn lemma_cone_cross_is_orient(p0: Pos2, p1: Pos2, p2: Pos2)
    ensures
        spec_cone_cross(
            Cone {
                a: Vec2 { x: p0.x, y: p0.y },
                b: Vec2 { x: p2.x, y: p2.y },
                origin: Vec2 { x: p1.x, y: p1.y },
            },
        ) == spec_orient(p0, p1, p2),
{
    assert((p2.x - p1.x) * (p0.y - p1.y) - (p2.y - p1.y) * (p0.x - p1.x) == (p1.x - p0.x) * (p2.y
        - p0.y) - (p1.y - p0.y) * (p2.x - p0.x)) by (nonlinear_arith);
}

} // verus!
