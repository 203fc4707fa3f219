//! Convex-hull construction and the orientation predicate it rests on.
use vstd::prelude::*;
use crate::data::vec2::Vec2;
use crate::data::vec2::lemma_diff_product_bounds;
use crate::data::pos2::Pos2;

pub mod graham_scan;

verus! {

/// The turn direction of three points, as classified by [`ccw`].
#[derive(Debug, Clone, Copy, PartialEq, Eq, Structural)]
pub enum Direction {
    /// A right turn.
    Clockwise,
    /// A left turn.
    CounterClockwise,
    /// No turn: the three points are collinear.
    Collinear,
}

impl Direction {
    /// Orders candidate hull points by the turn they form with the anchor: a
    /// counterclockwise turn means the first point has the smaller polar
    /// angle and sorts first.
    pub fn to_ordering(self) -> (r: core::cmp::Ordering)
        ensures
            r == (match self {
                Direction::Clockwise => core::cmp::Ordering::Greater,
                Direction::CounterClockwise => core::cmp::Ordering::Less,
                Direction::Collinear => core::cmp::Ordering::Equal,
            }),
    {
        match self {
            Direction::Clockwise => core::cmp::Ordering::Greater,
            Direction::CounterClockwise => core::cmp::Ordering::Less,
            Direction::Collinear => core::cmp::Ordering::Equal,
        }
    }

    /// The opposite direction: swapping the last two points handed to
    /// [`ccw`] flips Clockwise and CounterClockwise and preserves Collinear.
    pub fn neg(self) -> (r: Self)
        ensures
            r == (match self {
                Direction::Clockwise => Direction::CounterClockwise,
                Direction::CounterClockwise => Direction::Clockwise,
                Direction::Collinear => Direction::Collinear,
            }),
    {
        match self {
            Self::Clockwise => Self::CounterClockwise,
            Self::CounterClockwise => Self::Clockwise,
            Self::Collinear => Self::Collinear,
        }
    }
}

/// The z-coordinate of the cross product of the vectors `v1 -> v2` and
/// `v1 -> v3`: zero when the three points are collinear, positive when they
/// make a left turn, negative when they make a right turn.
pub open spec fn spec_turn(v1: Vec2, v2: Vec2, v3: Vec2) -> int {
    (v2.x - v1.x) * (v3.y - v1.y) - (v2.y - v1.y) * (v3.x - v1.x)
}

/// Classifies the turn made by travelling `v1 -> v2 -> v3`, by the sign of
/// the z-coordinate of the cross product of the two displacement vectors.
pub fn ccw(v1: &Vec2, v2: &Vec2, v3: &Vec2) -> (r: Direction)
    ensures
        r == Direction::Collinear <==> spec_turn(*v1, *v2, *v3) == 0,
        r == Direction::CounterClockwise <==> spec_turn(*v1, *v2, *v3) > 0,
        r == Direction::Clockwise <==> spec_turn(*v1, *v2, *v3) < 0,
{
    let dx2: i64 = (v2.x as i64) - (v1.x as i64);
    let dy2: i64 = (v2.y as i64) - (v1.y as i64);
    let dx3: i64 = (v3.x as i64) - (v1.x as i64);
    let dy3: i64 = (v3.y as i64) - (v1.y as i64);
    proof {
        lemma_diff_product_bounds(v2.x as int, v1.x as int, v3.y as int, v1.y as int);
        lemma_diff_product_bounds(v2.y as int, v1.y as int, v3.x as int, v1.x as int);
    }
    let cross: i128 = (dx2 as i128) * (dy3 as i128) - (dy2 as i128) * (dx3 as i128);
    if cross == 0 {
        Direction::Collinear
    } else if cross > 0 {
        Direction::CounterClockwise
    } else {
        Direction::Clockwise
    }
}

/// Orientation antisymmetry: swapping the two non-origin points negates the
/// cross product, so [`ccw`] answers Clockwise for one order exactly when it
/// answers CounterClockwise for the other, and Collinear for one exactly
/// when Collinear for the other.
pub proof fn lemma_turn_antisymmetric(v1: Vec2, v2: Vec2, v3: Vec2)
    ensures
        spec_turn(v1, v2, v3) == -spec_turn(v1, v3, v2),
{
    assert((v2.x - v1.x) * (v3.y - v1.y) - (v2.y - v1.y) * (v3.x - v1.x) == -((v3.x - v1.x) * (
    v2.y - v1.y) - (v3.y - v1.y) * (v2.x - v1.x))) by (nonlinear_arith);
}

/// A vector, seen as the absolute point it reaches from the origin.
pub open spec fn vec_as_pos(v: Vec2) -> Pos2 {
    Pos2 { x: v.x, y: v.y }
}

/// A position, seen as the displacement from the origin.
pub open spec fn pos_as_vec(p: Pos2) -> Vec2 {
    Vec2 { x: p.x, y: p.y }
}

/// A point sequence, reinterpreted pointwise as positions.
pub open spec fn seq_as_pos(s: Seq<Vec2>) -> Seq<Pos2> {
    s.map_values(|v: Vec2| vec_as_pos(v))
}

/// A position sequence, reinterpreted pointwise as vectors.
pub open spec fn seq_as_vec(s: Seq<Pos2>) -> Seq<Vec2> {
    s.map_values(|p: Pos2| pos_as_vec(p))
}

/// Computes the convex hull of a set of points given as vectors, by the
/// Graham scan: the returned boundary starts at the point with the least
/// y-coordinate (ties broken by least x) and proceeds counterclockwise.
pub fn grahams_scan(points: &[Vec2]) -> (hull: Vec<Vec2>)
    ensures
        hull@ == seq_as_vec(
            crate::algorithms::graham_scan::algorithm::spec_hull(seq_as_pos(points@)),
        ),
{
    let mut ps: Vec<Pos2> = Vec::new();
    let mut i: usize = 0;
    while i < points.len()
        invariant
            i <= points@.len(),
            ps@ == seq_as_pos(points@.subrange(0, i as int)),
        decreases points@.len() - i,
    {
        ps.push(Pos2 { x: points[i].x, y: points[i].y });
        proof {
            assert(ps@ =~= seq_as_pos(points@.subrange(0, i + 1 as int)));
        }
        i = i + 1;
    }
    proof {
        assert(points@.subrange(0, points@.len() as int) == points@);
    }
    let hull_ps = crate::algorithms::graham_scan::graham_scan(ps.as_slice());
    let mut hull: Vec<Vec2> = Vec::new();
    let mut j: usize = 0;
    while j < hull_ps.len()
        invariant
            j <= hull_ps@.len(),
            hull@ == seq_as_vec(hull_ps@.subrange(0, j as int)),
        decreases hull_ps@.len() - j,
    {
        hull.push(Vec2 { x: hull_ps[j].x, y: hull_ps[j].y });
        proof {
            assert(hull@ =~= seq_as_vec(hull_ps@.subrange(0, j + 1 as int)));
        }
        j = j + 1;
    }
    proof {
        assert(hull_ps@.subrange(0, hull_ps@.len() as int) == hull_ps@);
    }
    hull
}

} // verus!
