//! The 2-dimensional simplex: a triangle.
use vstd::prelude::*;
use crate::data::point2::Point2;
use crate::data::ratio::Ratio;
use crate::data::simplex::line_segment::LineSegment;
use crate::data::simplex::point::Point;
use crate::data::simplex::simplex::Simplex;
use crate::data::sphere::sphere1::Sphere1;
use crate::data::vec2::lemma_abs_mul_bound;

verus! {

/// A triangle with three vertices.
#[derive(Debug, Clone, Copy, PartialEq, Eq)]
pub struct Triangle {
    pub vertices: [Point; 3],
}

/// Twice the signed area of the triangle: the cross product of the edge
/// vectors `a -> b` and `a -> c`; zero exactly when the vertices are
/// collinear.
pub open spec fn spec_tri_cross(t: Triangle) -> int {
    let a = t.vertices[0];
    let b = t.vertices[1];
    let c = t.vertices[2];
    a.x * (b.y - c.y) + b.x * (c.y - a.y) + c.x * (a.y - b.y)
}

/// The denominator of the circumcenter's closed form: twice the triangle's
/// signed doubled area.
pub open spec fn spec_circum_d(t: Triangle) -> int {
    2 * spec_tri_cross(t)
}

/// The numerator of the circumcenter's x-coordinate, over [`spec_circum_d`].
pub open spec fn spec_circum_ux(t: Triangle) -> int {
    let a = t.vertices[0];
    let b = t.vertices[1];
    let c = t.vertices[2];
    (a.x * a.x + a.y * a.y) * (b.y - c.y) + (b.x * b.x + b.y * b.y) * (c.y - a.y) + (c.x * c.x
        + c.y * c.y) * (a.y - b.y)
}

/// The numerator of the circumcenter's y-coordinate, over [`spec_circum_d`].
pub open spec fn spec_circum_uy(t: Triangle) -> int {
    let a = t.vertices[0];
    let b = t.vertices[1];
    let c = t.vertices[2];
    (a.x * a.x + a.y * a.y) * (c.x - b.x) + (b.x * b.x + b.y * b.y) * (a.x - c.x) + (c.x * c.x
        + c.y * c.y) * (b.x - a.x)
}

/// The numerator, over `spec_circum_d(t)^2`, of the squared distance from
/// the circumcenter to the vertex `v`.
pub open spec fn spec_circum_dist_sq(t: Triangle, v: Point) -> int {
    let ux = spec_circum_ux(t);
    let uy = spec_circum_uy(t);
    let d = spec_circum_d(t);
    (ux - v.x * d) * (ux - v.x * d) + (uy - v.y * d) * (uy - v.y * d)
}

/// The coordinate bound under which the circumcircle's exact arithmetic
/// cannot overflow the machine integers it is computed in.
pub const CIRCUM_COORD_BOUND: i32 = 0x20000;

impl Simplex for Triangle {
    type Face = LineSegment;

    open spec fn spec_dimension() -> u32 {
        2
    }

    open spec fn spec_faces(&self) -> Seq<LineSegment> {
        seq![
            LineSegment { vertices: [self.vertices[0], self.vertices[1]] },
            LineSegment { vertices: [self.vertices[1], self.vertices[2]] },
            LineSegment { vertices: [self.vertices[0], self.vertices[2]] },
        ]
    }

    open spec fn spec_vertices(&self) -> Seq<Point> {
        seq![self.vertices[0], self.vertices[1], self.vertices[2]]
    }

    fn dimension() -> (r: u32) {
        2
    }

    /// The three edges, in the order `ab`, `bc`, `ac`.
    fn faces(&self) -> (r: Vec<LineSegment>) {
        let mut v = Vec::new();
        v.push(LineSegment { vertices: [self.vertices[0], self.vertices[1]] });
        v.push(LineSegment { vertices: [self.vertices[1], self.vertices[2]] });
        v.push(LineSegment { vertices: [self.vertices[0], self.vertices[2]] });
        proof {
            assert(v@ =~= self.spec_faces());
        }
        v
    }

    fn vertices(&self) -> (r: Vec<Point>) {
        let mut v = Vec::new();
        v.push(self.vertices[0]);
        v.push(self.vertices[1]);
        v.push(self.vertices[2]);
        proof {
            assert(v@ =~= self.spec_vertices());
        }
        v
    }
}

impl Triangle {
    /// The exact area of the triangle: half the absolute cross product of
    /// two edge vectors (the shoelace form, equal to Heron's formula under
    /// exact arithmetic).
    pub fn volume(&self) -> (r: Ratio)
        ensures
            r.den == 2,
            spec_tri_cross(*self) >= 0 ==> r.num == spec_tri_cross(*self),
            spec_tri_cross(*self) < 0 ==> r.num == -spec_tri_cross(*self),
    {
        let cross = tri_cross(self);
        let num: i128 = if cross < 0 {
            -cross
        } else {
            cross
        };
        Ratio { num, den: 2 }
    }

    /// The circle through the three vertices, by the standard closed-form
    /// determinant formula, computed exactly: absent exactly when the
    /// vertices are collinear (where the closed form would divide by zero).
    pub fn circumscribe(&self) -> (r: Option<Sphere1>)
        requires
            forall|i: int|
                0 <= i < 3 ==> -CIRCUM_COORD_BOUND <= (#[trigger] self.vertices[i]).x
                    <= CIRCUM_COORD_BOUND && -CIRCUM_COORD_BOUND <= self.vertices[i].y
                    <= CIRCUM_COORD_BOUND,
        ensures
            r is Some <==> spec_tri_cross(*self) != 0,
            match r {
                Some(s) => {
                    &&& s.center.x.num == spec_circum_ux(*self)
                    &&& s.center.x.den == spec_circum_d(*self)
                    &&& s.center.y.num == spec_circum_uy(*self)
                    &&& s.center.y.den == spec_circum_d(*self)
                    &&& s.radius_sq.num == spec_circum_dist_sq(*self, self.vertices[0])
                    &&& s.radius_sq.den == spec_circum_d(*self) * spec_circum_d(*self)
                },
                None => true,
            },
    {
        let a = self.vertices[0];
        let b = self.vertices[1];
        let c = self.vertices[2];
        proof {
            assert(-CIRCUM_COORD_BOUND <= self.vertices[0].x <= CIRCUM_COORD_BOUND);
            assert(-CIRCUM_COORD_BOUND <= self.vertices[1].x <= CIRCUM_COORD_BOUND);
            assert(-CIRCUM_COORD_BOUND <= self.vertices[2].x <= CIRCUM_COORD_BOUND);
        }
        let cross = tri_cross(self);
        if cross == 0 {
            None
        } else {
            proof {
                lemma_abs_mul_bound(a.x as int, b.y as int - c.y as int, 0x20000, 0x40000);
                lemma_abs_mul_bound(b.x as int, c.y as int - a.y as int, 0x20000, 0x40000);
                lemma_abs_mul_bound(c.x as int, a.y as int - b.y as int, 0x20000, 0x40000);
            }
            let d: i128 = 2 * cross;
            proof {
                lemma_abs_mul_bound(a.x as int, a.x as int, 0x20000, 0x20000);
                lemma_abs_mul_bound(a.y as int, a.y as int, 0x20000, 0x20000);
                lemma_abs_mul_bound(b.x as int, b.x as int, 0x20000, 0x20000);
                lemma_abs_mul_bound(b.y as int, b.y as int, 0x20000, 0x20000);
                lemma_abs_mul_bound(c.x as int, c.x as int, 0x20000, 0x20000);
                lemma_abs_mul_bound(c.y as int, c.y as int, 0x20000, 0x20000);
            }
            let na: i128 = (a.x as i128) * (a.x as i128) + (a.y as i128) * (a.y as i128);
            let nb: i128 = (b.x as i128) * (b.x as i128) + (b.y as i128) * (b.y as i128);
            let nc: i128 = (c.x as i128) * (c.x as i128) + (c.y as i128) * (c.y as i128);
            proof {
                lemma_abs_mul_bound(na as int, b.y as int - c.y as int, 0x800000000, 0x40000);
                lemma_abs_mul_bound(nb as int, c.y as int - a.y as int, 0x800000000, 0x40000);
                lemma_abs_mul_bound(nc as int, a.y as int - b.y as int, 0x800000000, 0x40000);
                lemma_abs_mul_bound(na as int, c.x as int - b.x as int, 0x800000000, 0x40000);
                lemma_abs_mul_bound(nb as int, a.x as int - c.x as int, 0x800000000, 0x40000);
                lemma_abs_mul_bound(nc as int, b.x as int - a.x as int, 0x800000000, 0x40000);
            }
            let ux: i128 = na * ((b.y as i128) - (c.y as i128)) + nb * ((c.y as i128)
                - (a.y as i128)) + nc * ((a.y as i128) - (b.y as i128));
            let uy: i128 = na * ((c.x as i128) - (b.x as i128)) + nb * ((a.x as i128)
                - (c.x as i128)) + nc * ((b.x as i128) - (a.x as i128));
            proof {
                lemma_abs_mul_bound(a.x as int, d as int, 0x20000, 0x20000000000);
                lemma_abs_mul_bound(a.y as int, d as int, 0x20000, 0x20000000000);
            }
            let rx: i128 = ux - (a.x as i128) * d;
            let ry: i128 = uy - (a.y as i128) * d;
            proof {
                lemma_abs_mul_bound(rx as int, rx as int, 0x800000000000000,
                    0x800000000000000);
                lemma_abs_mul_bound(ry as int, ry as int, 0x800000000000000,
                    0x800000000000000);
                lemma_abs_mul_bound(d as int, d as int, 0x20000000000, 0x20000000000);
            }
            let rn: i128 = rx * rx + ry * ry;
            let center = Point2 { x: Ratio { num: ux, den: d }, y: Ratio { num: uy, den: d } };
            Some(Sphere1 { radius_sq: Ratio { num: rn, den: d * d }, center })
        }
    }
}

/// Computes [`spec_tri_cross`] exactly, in `i128`.
fn tri_cross(t: &Triangle) -> (r: i128)
    ensures
        r == spec_tri_cross(*t),
        -0x18000000000000000 <= r <= 0x18000000000000000,
{
    let a = t.vertices[0];
    let b = t.vertices[1];
    let c = t.vertices[2];
    proof {
        lemma_abs_mul_bound(a.x as int, b.y as int - c.y as int, 0x80000000, 0x100000000);
        lemma_abs_mul_bound(b.x as int, c.y as int - a.y as int, 0x80000000, 0x100000000);
        lemma_abs_mul_bound(c.x as int, a.y as int - b.y as int, 0x80000000, 0x100000000);
    }
    (a.x as i128) * ((b.y as i128) - (c.y as i128)) + (b.x as i128) * ((c.y as i128)
        - (a.y as i128)) + (c.x as i128) * ((a.y as i128) - (b.y as i128))
}

/// The circumcenter is exactly equidistant from the three vertices: the
/// squared distances from the center to each vertex, cleared of their
/// common denominator, coincide. This holds of the closed form as a
/// polynomial identity, whatever the triangle.
pub proof fn lemma_circumscribe_equidistant(t: Triangle)
    ensures
        spec_circum_dist_sq(t, t.vertices[0]) == spec_circum_dist_sq(t, t.vertices[1]),
        spec_circum_dist_sq(t, t.vertices[0]) == spec_circum_dist_sq(t, t.vertices[2]),
{
    let a = t.vertices[0];
    let b = t.vertices[1];
    let c = t.vertices[2];
    let ux = spec_circum_ux(t);
    let uy = spec_circum_uy(t);
    let d = spec_circum_d(t);
    let na = a.x * a.x + a.y * a.y;
    let nb = b.x * b.x + b.y * b.y;
    let nc = c.x * c.x + c.y * c.y;
    let k = spec_tri_cross(t);
    lemma_coefficients(a.x as int, a.y as int, b.x as int, b.y as int, c.x as int, c.y as int);
    lemma_combine_b(
        b.x - a.x,
        b.y - a.y,
        na,
        nb,
        nc,
        b.y - c.y,
        c.y - a.y,
        a.y - b.y,
        c.x - b.x,
        a.x - c.x,
        b.x - a.x,
        k,
    );
    lemma_combine_c(
        c.x - a.x,
        c.y - a.y,
        na,
        nb,
        nc,
        b.y - c.y,
        c.y - a.y,
        a.y - b.y,
        c.x - b.x,
        a.x - c.x,
        b.x - a.x,
        k,
    );
    assert(2 * (b.x - a.x) * ux + 2 * (b.y - a.y) * uy == (nb - na) * (2 * k));
    assert(2 * (c.x - a.x) * ux + 2 * (c.y - a.y) * uy == (nc - na) * (2 * k));
    lemma_dist_diff(ux, uy, 2 * k, a.x as int, a.y as int, b.x as int, b.y as int, na, nb);
    lemma_dist_diff(ux, uy, 2 * k, a.x as int, a.y as int, c.x as int, c.y as int, na, nc);
    assert(d == 2 * k);
    assert(spec_circum_dist_sq(t, a) == (ux - a.x * d) * (ux - a.x * d) + (uy - a.y * d) * (uy
        - a.y * d));
    assert(spec_circum_dist_sq(t, b) == (ux - b.x * d) * (ux - b.x * d) + (uy - b.y * d) * (uy
        - b.y * d));
    assert(spec_circum_dist_sq(t, c) == (ux - c.x * d) * (ux - c.x * d) + (uy - c.y * d) * (uy
        - c.y * d));
}

/// The edge vectors out of each vertex recombine with the triangle's cross
/// product `k`: the coefficient identities behind the perpendicular
/// bisectors of the circumcenter's closed form.
proof fn lemma_coefficients(ax: int, ay: int, bx: int, by: int, cx: int, cy: int)
    ensures
        (bx - ax) * (by - cy) + (by - ay) * (cx - bx) == -(ax * (by - cy) + bx * (cy - ay) + cx
            * (ay - by)),
        (bx - ax) * (cy - ay) + (by - ay) * (ax - cx) == ax * (by - cy) + bx * (cy - ay) + cx * (
        ay - by),
        (bx - ax) * (ay - by) + (by - ay) * (bx - ax) == 0,
        (cx - ax) * (by - cy) + (cy - ay) * (cx - bx) == -(ax * (by - cy) + bx * (cy - ay) + cx
            * (ay - by)),
        (cx - ax) * (cy - ay) + (cy - ay) * (ax - cx) == 0,
        (cx - ax) * (ay - by) + (cy - ay) * (bx - ax) == ax * (by - cy) + bx * (cy - ay) + cx * (
        ay - by),
{
    assert((bx - ax) * (by - cy) + (by - ay) * (cx - bx) == -(ax * (by - cy) + bx * (cy - ay) + cx
        * (ay - by))) by (nonlinear_arith);
    assert((bx - ax) * (cy - ay) + (by - ay) * (ax - cx) == ax * (by - cy) + bx * (cy - ay) + cx
        * (ay - by)) by (nonlinear_arith);
    assert((bx - ax) * (ay - by) + (by - ay) * (bx - ax) == 0) by (nonlinear_arith);
    assert((cx - ax) * (by - cy) + (cy - ay) * (cx - bx) == -(ax * (by - cy) + bx * (cy - ay) + cx
        * (ay - by))) by (nonlinear_arith);
    assert((cx - ax) * (cy - ay) + (cy - ay) * (ax - cx) == 0) by (nonlinear_arith);
    assert((cx - ax) * (ay - by) + (cy - ay) * (bx - ax) == ax * (by - cy) + bx * (cy - ay) + cx
        * (ay - by)) by (nonlinear_arith);
}

/// Recombines the coefficient identities with the squared norms: the
/// perpendicular-bisector equation of the second vertex against the first.
proof fn lemma_combine_b(
    u: int,
    v: int,
    na: int,
    nb: int,
    nc: int,
    p1: int,
    p2: int,
    p3: int,
    q1: int,
    q2: int,
    q3: int,
    k: int,
)
    requires
        u * p1 + v * q1 == -k,
        u * p2 + v * q2 == k,
        u * p3 + v * q3 == 0,
    ensures
        2 * u * (na * p1 + nb * p2 + nc * p3) + 2 * v * (na * q1 + nb * q2 + nc * q3) == (nb - na)
            * (2 * k),
{
    lemma_combine_core(u, v, na, nb, nc, p1, p2, p3, q1, q2, q3);
    assert(na * (u * p1 + v * q1) == na * (-k));
    assert(nb * (u * p2 + v * q2) == nb * k);
    assert(nc * (u * p3 + v * q3) == nc * 0);
    assert(na * (-k) == -(na * k)) by (nonlinear_arith);
    assert(nc * 0 == 0) by (nonlinear_arith);
    assert(nb * k - na * k == (nb - na) * k) by (nonlinear_arith);
    lemma_mul_ac(2, nb - na, k);
}

/// Recombines the coefficient identities with the squared norms: the
/// perpendicular-bisector equation of the third vertex against the first.
proof fn lemma_combine_c(
    u: int,
    v: int,
    na: int,
    nb: int,
    nc: int,
    p1: int,
    p2: int,
    p3: int,
    q1: int,
    q2: int,
    q3: int,
    k: int,
)
    requires
        u * p1 + v * q1 == -k,
        u * p2 + v * q2 == 0,
        u * p3 + v * q3 == k,
    ensures
        2 * u * (na * p1 + nb * p2 + nc * p3) + 2 * v * (na * q1 + nb * q2 + nc * q3) == (nc - na)
            * (2 * k),
{
    lemma_combine_core(u, v, na, nb, nc, p1, p2, p3, q1, q2, q3);
    assert(na * (u * p1 + v * q1) == na * (-k));
    assert(nb * (u * p2 + v * q2) == nb * 0);
    assert(nc * (u * p3 + v * q3) == nc * k);
    assert(na * (-k) == -(na * k)) by (nonlinear_arith);
    assert(nb * 0 == 0) by (nonlinear_arith);
    assert(nc * k - na * k == (nc - na) * k) by (nonlinear_arith);
    lemma_mul_ac(2, nc - na, k);
}

/// Distributivity: grouping the bisector sum by the squared norms.
proof fn lemma_combine_core(
    u: int,
    v: int,
    na: int,
    nb: int,
    nc: int,
    p1: int,
    p2: int,
    p3: int,
    q1: int,
    q2: int,
    q3: int,
)
    ensures
        2 * u * (na * p1 + nb * p2 + nc * p3) + 2 * v * (na * q1 + nb * q2 + nc * q3) == 2 * (na
            * (u * p1 + v * q1) + nb * (u * p2 + v * q2) + nc * (u * p3 + v * q3)),
{
    lemma_mul_dist3(u, na * p1, nb * p2, nc * p3);
    lemma_mul_dist3(v, na * q1, nb * q2, nc * q3);
    lemma_mul_ac(u, na, p1);
    lemma_mul_ac(u, nb, p2);
    lemma_mul_ac(u, nc, p3);
    lemma_mul_ac(v, na, q1);
    lemma_mul_ac(v, nb, q2);
    lemma_mul_ac(v, nc, q3);
    lemma_mul_dist2(na, u * p1, v * q1);
    lemma_mul_dist2(nb, u * p2, v * q2);
    lemma_mul_dist2(nc, u * p3, v * q3);
    lemma_mul_assoc(2, u, na * p1 + nb * p2 + nc * p3);
    lemma_mul_assoc(2, v, na * q1 + nb * q2 + nc * q3);
}

/// Distributivity of one factor over a three-term sum.
proof fn lemma_mul_dist3(x: int, a: int, b: int, c: int)
    ensures
        x * (a + b + c) == x * a + x * b + x * c,
{
    assert(x * (a + b + c) == x * a + x * b + x * c) by (nonlinear_arith);
}

/// Distributivity of one factor over a two-term sum.
proof fn lemma_mul_dist2(x: int, a: int, b: int)
    ensures
        x * (a + b) == x * a + x * b,
{
    assert(x * (a + b) == x * a + x * b) by (nonlinear_arith);
}

/// Commuting a factor through a product.
proof fn lemma_mul_ac(x: int, y: int, z: int)
    ensures
        x * (y * z) == y * (x * z),
{
    assert(x * (y * z) == y * (x * z)) by (nonlinear_arith);
}

/// Associativity of multiplication.
proof fn lemma_mul_assoc(x: int, y: int, z: int)
    ensures
        (x * y) * z == x * (y * z),
{
    assert((x * y) * z == x * (y * z)) by (nonlinear_arith);
}

/// Two points whose perpendicular-bisector equation the candidate center
/// satisfies are equidistant from it, denominators cleared.
proof fn lemma_dist_diff(
    ux: int,
    uy: int,
    d: int,
    px: int,
    py: int,
    qx: int,
    qy: int,
    np: int,
    nq: int,
)
    requires
        np == px * px + py * py,
        nq == qx * qx + qy * qy,
        2 * (qx - px) * ux + 2 * (qy - py) * uy == (nq - np) * d,
    ensures
        (ux - px * d) * (ux - px * d) + (uy - py * d) * (uy - py * d) == (ux - qx * d) * (ux - qx
            * d) + (uy - qy * d) * (uy - qy * d),
{
    // Expand each square and commute the cross terms.
    lemma_sq_expand(ux, px * d);
    lemma_sq_expand(ux, qx * d);
    lemma_sq_expand(uy, py * d);
    lemma_sq_expand(uy, qy * d);
    lemma_mul_ac(ux, px, d);
    lemma_mul_ac(ux, qx, d);
    lemma_mul_ac(uy, py, d);
    lemma_mul_ac(uy, qy, d);
    lemma_sq_swap(px, d);
    lemma_sq_swap(qx, d);
    lemma_sq_swap(py, d);
    lemma_sq_swap(qy, d);
    // Group the cross terms by the coordinate differences.
    lemma_mul_dist_sub(ux * d, qx, px);
    lemma_mul_dist_sub(uy * d, qy, py);
    // Multiply the bisector equation through by the denominator.
    lemma_mul_dist2_right(d, 2 * (qx - px) * ux, 2 * (qy - py) * uy);
    lemma_mul_assoc(2 * (qx - px), ux, d);
    lemma_mul_assoc(2, qx - px, ux * d);
    lemma_mul_assoc(2 * (qy - py), uy, d);
    lemma_mul_assoc(2, qy - py, uy * d);
    lemma_mul_assoc(nq - np, d, d);
    // Expand the squared-norm difference against the denominator.
    lemma_mul_dist_sub(d * d, nq, np);
    lemma_mul_dist2_right(d * d, px * px, py * py);
    lemma_mul_dist2_right(d * d, qx * qx, qy * qy);
}

/// The square of a difference, expanded.
proof fn lemma_sq_expand(s: int, t: int)
    ensures
        (s - t) * (s - t) == s * s - 2 * (s * t) + t * t,
{
    assert((s - t) * (s - t) == s * s - 2 * (s * t) + t * t) by (nonlinear_arith);
}

/// The square of a product, regrouped into a product of squares.
proof fn lemma_sq_swap(a: int, b: int)
    ensures
        (a * b) * (a * b) == (a * a) * (b * b),
{
    assert((a * b) * (a * b) == (a * a) * (b * b)) by (nonlinear_arith);
}

/// Distributivity of a factor over a difference, from the right.
proof fn lemma_mul_dist_sub(x: int, a: int, b: int)
    ensures
        (a - b) * x == a * x - b * x,
{
    assert((a - b) * x == a * x - b * x) by (nonlinear_arith);
}

/// Distributivity of a sum over a factor, from the right.
proof fn lemma_mul_dist2_right(x: int, a: int, b: int)
    ensures
        (a + b) * x == a * x + b * x,
{
    assert((a + b) * x == a * x + b * x) by (nonlinear_arith);
}

} // verus!
