//! The 1-dimensional simplex: a line segment.
use vstd::prelude::*;
use crate::data::point2::Point2;
use crate::data::ratio::{Ratio, ratio_eq, ratio_wf};
use crate::data::simplex::point::Point;
use crate::data::simplex::simplex::Simplex;
use crate::data::sphere::sphere1::Sphere1;
use crate::data::vec2::lemma_abs_mul_bound;

verus! {

/// A line segment between two vertices.
#[derive(Debug, Clone, Copy, PartialEq, Eq)]
pub struct LineSegment {
    pub vertices: [Point; 2],
}

/// The `a` coefficient of the general-form equation `a*x + b*y = c` of the
/// line through the segment `s`.
pub open spec fn line_a(s: LineSegment) -> int {
    s.vertices[1].y - s.vertices[0].y
}

/// The `b` coefficient of the line through `s`; see [`line_a`].
pub open spec fn line_b(s: LineSegment) -> int {
    s.vertices[0].x - s.vertices[1].x
}

/// The `c` constant of the line through `s`; see [`line_a`].
pub open spec fn line_c(s: LineSegment) -> int {
    line_a(s) * s.vertices[0].x + line_b(s) * s.vertices[0].y
}

/// The determinant of the linear system formed by the two lines: zero
/// exactly when the lines are parallel (coincident included), and also
/// exactly when the two segments' direction vectors have a zero cross
/// product.
pub open spec fn spec_det(s: LineSegment, o: LineSegment) -> int {
    line_a(s) * line_b(o) - line_a(o) * line_b(s)
}

/// The exact rational point `p` lies on the line through `s`:
/// `a*x + b*y = c` after clearing both denominators.
pub open spec fn spec_on_line(p: Point2, s: LineSegment) -> bool {
    line_a(s) * (p.x.num * p.y.den) + line_b(s) * (p.y.num * p.x.den) == line_c(s) * (p.x.den
        * p.y.den)
}

/// The squared Euclidean length of the segment.
pub open spec fn spec_length_sq(s: LineSegment) -> int {
    let dx = s.vertices[1].x - s.vertices[0].x;
    let dy = s.vertices[1].y - s.vertices[0].y;
    dx * dx + dy * dy
}

impl Simplex for LineSegment {
    type Face = Point;

    open spec fn spec_dimension() -> u32 {
        1
    }

    open spec fn spec_faces(&self) -> Seq<Point> {
        seq![self.vertices[0], self.vertices[1]]
    }

    open spec fn spec_vertices(&self) -> Seq<Point> {
        seq![self.vertices[0], self.vertices[1]]
    }

    fn dimension() -> (r: u32) {
        1
    }

    fn faces(&self) -> (r: Vec<Point>) {
        let mut v = Vec::new();
        v.push(self.vertices[0]);
        v.push(self.vertices[1]);
        proof {
            assert(v@ =~= self.spec_faces());
        }
        v
    }

    fn vertices(&self) -> (r: Vec<Point>) {
        let mut v = Vec::new();
        v.push(self.vertices[0]);
        v.push(self.vertices[1]);
        proof {
            assert(v@ =~= self.spec_vertices());
        }
        v
    }
}

impl LineSegment {
    /// The intersection of the two lines through `self` and `other`, solved
    /// exactly from their general-form equations by Cramer's rule: absent
    /// exactly when the lines are parallel (coincident included), otherwise
    /// the unique point lying on both lines.
    pub fn intersection_point(&self, other: &Self) -> (r: Option<Point2>)
        ensures
            r is Some <==> spec_det(*self, *other) != 0,
            match r {
                Some(p) => {
                    &&& p.x.den == spec_det(*self, *other)
                    &&& p.y.den == spec_det(*self, *other)
                    &&& ratio_wf(p.x) && ratio_wf(p.y)
                    &&& spec_on_line(p, *self)
                    &&& spec_on_line(p, *other)
                },
                None => true,
            },
    {
        let a = self.vertices[0];
        let b = self.vertices[1];
        let c = other.vertices[0];
        let d = other.vertices[1];
        // Line AB represented as a1*x + b1*y = c1.
        let a1: i64 = (b.y as i64) - (a.y as i64);
        let b1: i64 = (a.x as i64) - (b.x as i64);
        proof {
            lemma_line_coeff_bounds(a.x as int, a.y as int, b.x as int, b.y as int);
        }
        let c1: i128 = (a1 as i128) * (a.x as i128) + (b1 as i128) * (a.y as i128);
        // Line CD represented as a2*x + b2*y = c2.
        let a2: i64 = (d.y as i64) - (c.y as i64);
        let b2: i64 = (c.x as i64) - (d.x as i64);
        proof {
            lemma_line_coeff_bounds(c.x as int, c.y as int, d.x as int, d.y as int);
        }
        let c2: i128 = (a2 as i128) * (c.x as i128) + (b2 as i128) * (c.y as i128);
        proof {
            crate::data::vec2::lemma_diff_product_bounds(b.y as int, a.y as int, c.x as int,
                d.x as int);
            crate::data::vec2::lemma_diff_product_bounds(d.y as int, c.y as int, a.x as int,
                b.x as int);
        }
        let determinant: i128 = (a1 as i128) * (b2 as i128) - (a2 as i128) * (b1 as i128);
        if determinant == 0 {
            // The lines are parallel.
            None
        } else {
            proof {
                lemma_abs_mul_bound(b2 as int, c1 as int, 0x100000000, 0x20000000000000000);
                lemma_abs_mul_bound(b1 as int, c2 as int, 0x100000000, 0x20000000000000000);
                lemma_abs_mul_bound(a1 as int, c2 as int, 0x100000000, 0x20000000000000000);
                lemma_abs_mul_bound(a2 as int, c1 as int, 0x100000000, 0x20000000000000000);
            }
            let xn: i128 = (b2 as i128) * c1 - (b1 as i128) * c2;
            let yn: i128 = (a1 as i128) * c2 - (a2 as i128) * c1;
            proof {
                lemma_cramer_solves(
                    line_a(*self),
                    line_b(*self),
                    line_c(*self),
                    line_a(*other),
                    line_b(*other),
                    line_c(*other),
                );
            }
            Some(
                Point2 {
                    x: Ratio { num: xn, den: determinant },
                    y: Ratio { num: yn, den: determinant },
                },
            )
        }
    }

    /// The squared Euclidean length of the segment — the square of its
    /// 1-dimensional volume. (The length itself is usually irrational;
    /// callers take the square root in floating point.)
    pub fn volume_sq(&self) -> (r: i128)
        ensures
            r == spec_length_sq(*self),
    {
        let a = self.vertices[0];
        let b = self.vertices[1];
        let dx: i64 = (b.x as i64) - (a.x as i64);
        let dy: i64 = (b.y as i64) - (a.y as i64);
        proof {
            crate::data::vec2::lemma_diff_product_bounds(b.x as int, a.x as int, b.x as int,
                a.x as int);
            crate::data::vec2::lemma_diff_product_bounds(b.y as int, a.y as int, b.y as int,
                a.y as int);
        }
        (dx as i128) * (dx as i128) + (dy as i128) * (dy as i128)
    }

    /// A single segment has no circumscribed circle in this design.
    pub fn circumscribe(&self) -> (r: Option<Sphere1>)
        ensures
            r is None,
    {
        None
    }
}

/// The intersection point is unique: when the lines through `s` and `o` are
/// not parallel, any two well-formed rational points lying on both lines
/// denote the same rational point.
pub proof fn lemma_intersection_unique(s: LineSegment, o: LineSegment, p: Point2, q: Point2)
    requires
        spec_det(s, o) != 0,
        ratio_wf(p.x) && ratio_wf(p.y),
        ratio_wf(q.x) && ratio_wf(q.y),
        spec_on_line(p, s) && spec_on_line(p, o),
        spec_on_line(q, s) && spec_on_line(q, o),
    ensures
        ratio_eq(p.x, q.x),
        ratio_eq(p.y, q.y),
{
    let a1 = line_a(s);
    let b1 = line_b(s);
    let c1 = line_c(s);
    let a2 = line_a(o);
    let b2 = line_b(o);
    let c2 = line_c(o);
    let det = a1 * b2 - a2 * b1;
    let x = b2 * c1 - b1 * c2;
    let y = a1 * c2 - a2 * c1;
    lemma_solution_cleared(a1, b1, c1, a2, b2, c2, p.x.num as int, p.x.den as int,
        p.y.num as int, p.y.den as int);
    lemma_solution_cleared(a1, b1, c1, a2, b2, c2, q.x.num as int, q.x.den as int,
        q.y.num as int, q.y.den as int);
    lemma_same_ratio(det, x, p.x.num as int, p.x.den as int, q.x.num as int, q.x.den as int);
    lemma_same_ratio(det, y, p.y.num as int, p.y.den as int, q.y.num as int, q.y.den as int);
}

/// Clearing denominators, a rational point on both lines satisfies the two
/// Cramer proportions: `det * xn == x * xd` and `det * yn == y * yd`.
proof fn lemma_solution_cleared(
    a1: int,
    b1: int,
    c1: int,
    a2: int,
    b2: int,
    c2: int,
    xn: int,
    xd: int,
    yn: int,
    yd: int,
)
    requires
        xd != 0,
        yd != 0,
        a1 * (xn * yd) + b1 * (yn * xd) == c1 * (xd * yd),
        a2 * (xn * yd) + b2 * (yn * xd) == c2 * (xd * yd),
    ensures
        (a1 * b2 - a2 * b1) * xn == (b2 * c1 - b1 * c2) * xd,
        (a1 * b2 - a2 * b1) * yn == (a1 * c2 - a2 * c1) * yd,
{
    let det = a1 * b2 - a2 * b1;
    let x = b2 * c1 - b1 * c2;
    let y = a1 * c2 - a2 * c1;
    lemma_eliminate(a1, b1, c1, a2, b2, c2, xn * yd, yn * xd, xd * yd);
    // det * (xn * yd) == x * (xd * yd): peel the common factor yd.
    lemma_mul_assoc2(det, xn, yd);
    lemma_mul_assoc2(x, xd, yd);
    lemma_mul_cancel(yd, det * xn, x * xd);
    // det * (yn * xd) == y * (xd * yd): peel the common factor xd.
    lemma_mul_assoc2(det, yn, xd);
    lemma_mul_assoc2(y, yd, xd);
    lemma_mul_comm(xd, yd);
    lemma_mul_cancel(xd, det * yn, y * yd);
}

/// Two fractions with the same Cramer proportion against a nonzero
/// determinant are equal as rationals.
proof fn lemma_same_ratio(det: int, x: int, pn: int, pd: int, qn: int, qd: int)
    requires
        det != 0,
        det * pn == x * pd,
        det * qn == x * qd,
    ensures
        pn * qd == qn * pd,
{
    lemma_mul_assoc2(det, pn, qd);
    lemma_mul_assoc2(x, pd, qd);
    lemma_mul_assoc2(det, qn, pd);
    lemma_mul_assoc2(x, qd, pd);
    lemma_mul_swap_right(x, pd, qd);
    lemma_mul_cancel_left(det, pn * qd, qn * pd);
}

/// Eliminating one unknown from the pair of cleared line equations.
proof fn lemma_eliminate(a1: int, b1: int, c1: int, a2: int, b2: int, c2: int, u: int, v: int, w: int)
    requires
        a1 * u + b1 * v == c1 * w,
        a2 * u + b2 * v == c2 * w,
    ensures
        (a1 * b2 - a2 * b1) * u == (b2 * c1 - b1 * c2) * w,
        (a1 * b2 - a2 * b1) * v == (a1 * c2 - a2 * c1) * w,
{
    // Multiply the first equation by b2 and the second by b1; subtracting
    // cancels v.
    lemma_mul_dist2(b2, a1 * u, b1 * v);
    lemma_mul_dist2(b1, a2 * u, b2 * v);
    lemma_mul_ac2(b2, a1, u);
    lemma_mul_ac2(b1, a2, u);
    lemma_mul_swap_mid(b2, b1, v);
    lemma_mul_ac2(b2, c1, w);
    lemma_mul_ac2(b1, c2, w);
    lemma_mul_dist_sub2(u, a1 * b2, a2 * b1);
    lemma_mul_dist_sub2(w, b2 * c1, b1 * c2);
    // Multiply the second equation by a1 and the first by a2; subtracting
    // cancels u.
    lemma_mul_dist2(a1, a2 * u, b2 * v);
    lemma_mul_dist2(a2, a1 * u, b1 * v);
    lemma_mul_swap_mid(a1, a2, u);
    lemma_mul_ac2(a1, b2, v);
    lemma_mul_ac2(a2, b1, v);
    lemma_mul_ac2(a1, c2, w);
    lemma_mul_ac2(a2, c1, w);
    lemma_mul_dist_sub2(v, a1 * b2, a2 * b1);
    lemma_mul_dist_sub2(w, a1 * c2, a2 * c1);
}

/// Distributivity of one factor over a two-term sum.
proof fn lemma_mul_dist2(x: int, a: int, b: int)
    ensures
        x * (a + b) == x * a + x * b,
{
    assert(x * (a + b) == x * a + x * b) by (nonlinear_arith);
}

/// Distributivity of a difference over a factor, from the right.
proof fn lemma_mul_dist_sub2(x: int, a: int, b: int)
    ensures
        (a - b) * x == a * x - b * x,
{
    assert((a - b) * x == a * x - b * x) by (nonlinear_arith);
}

/// Fusing a product of products: `x * (y * z) == (y * x) * z` read as
/// `(x * y) * z` after commuting.
proof fn lemma_mul_ac2(x: int, y: int, z: int)
    ensures
        x * (y * z) == (y * x) * z,
        x * (y * z) == (x * y) * z,
{
    assert(x * (y * z) == (y * x) * z) by (nonlinear_arith);
    assert(x * (y * z) == (x * y) * z) by (nonlinear_arith);
}

/// Commuting the outer factors of a nested product.
proof fn lemma_mul_swap_mid(x: int, y: int, z: int)
    ensures
        x * (y * z) == y * (x * z),
{
    assert(x * (y * z) == y * (x * z)) by (nonlinear_arith);
}

/// Associativity of multiplication.
proof fn lemma_mul_assoc2(x: int, y: int, z: int)
    ensures
        x * (y * z) == (x * y) * z,
{
    assert(x * (y * z) == (x * y) * z) by (nonlinear_arith);
}

/// Commutativity of multiplication.
proof fn lemma_mul_comm(x: int, y: int)
    ensures
        x * y == y * x,
{
    assert(x * y == y * x) by (nonlinear_arith);
}

/// Swapping the two right factors of a nested product.
proof fn lemma_mul_swap_right(x: int, a: int, b: int)
    ensures
        (x * a) * b == (x * b) * a,
{
    assert((x * a) * b == (x * b) * a) by (nonlinear_arith);
}

/// Cancelling a common nonzero right factor.
proof fn lemma_mul_cancel(x: int, a: int, b: int)
    requires
        x != 0,
        a * x == b * x,
    ensures
        a == b,
{
    assert(a == b) by (nonlinear_arith)
        requires
            x != 0,
            a * x == b * x,
    ;
}

/// Cancelling a common nonzero left factor.
proof fn lemma_mul_cancel_left(x: int, a: int, b: int)
    requires
        x != 0,
        x * a == x * b,
    ensures
        a == b,
{
    assert(a == b) by (nonlinear_arith)
        requires
            x != 0,
            x * a == x * b,
    ;
}

/// The coefficients `a`, `b`, `c` of a line through two `i32` points are
/// comfortably bounded: the differences by `2^32`, the constant by `2^64`.
proof fn lemma_line_coeff_bounds(px: int, py: int, qx: int, qy: int)
    requires
        i32::MIN <= px <= i32::MAX,
        i32::MIN <= py <= i32::MAX,
        i32::MIN <= qx <= i32::MAX,
        i32::MIN <= qy <= i32::MAX,
    ensures
        -0x10000000000000000 <= (qy - py) * px <= 0x10000000000000000,
        -0x10000000000000000 <= (px - qx) * py <= 0x10000000000000000,
{
    assert(-0x10000000000000000 <= (qy - py) * px <= 0x10000000000000000) by (nonlinear_arith)
        requires
            -0x80000000 <= px <= 0x7fffffff,
            -0x80000000 <= py <= 0x7fffffff,
            -0x80000000 <= qy <= 0x7fffffff,
    ;
    assert(-0x10000000000000000 <= (px - qx) * py <= 0x10000000000000000) by (nonlinear_arith)
        requires
            -0x80000000 <= px <= 0x7fffffff,
            -0x80000000 <= py <= 0x7fffffff,
            -0x80000000 <= qx <= 0x7fffffff,
    ;
}

/// Cramer's rule solves the system: the candidate numerators, over the
/// determinant, satisfy both line equations after clearing denominators.
proof fn lemma_cramer_solves(a1: int, b1: int, c1: int, a2: int, b2: int, c2: int)
    ensures
        a1 * ((b2 * c1 - b1 * c2) * (a1 * b2 - a2 * b1)) + b1 * ((a1 * c2 - a2 * c1) * (a1 * b2
            - a2 * b1)) == c1 * ((a1 * b2 - a2 * b1) * (a1 * b2 - a2 * b1)),
        a2 * ((b2 * c1 - b1 * c2) * (a1 * b2 - a2 * b1)) + b2 * ((a1 * c2 - a2 * c1) * (a1 * b2
            - a2 * b1)) == c2 * ((a1 * b2 - a2 * b1) * (a1 * b2 - a2 * b1)),
{
    let det = a1 * b2 - a2 * b1;
    let x = b2 * c1 - b1 * c2;
    let y = a1 * c2 - a2 * c1;
    assert(a1 * x + b1 * y == c1 * det) by (nonlinear_arith)
        requires
            det == a1 * b2 - a2 * b1,
            x == b2 * c1 - b1 * c2,
            y == a1 * c2 - a2 * c1,
    ;
    assert(a2 * x + b2 * y == c2 * det) by (nonlinear_arith)
        requires
            det == a1 * b2 - a2 * b1,
            x == b2 * c1 - b1 * c2,
            y == a1 * c2 - a2 * c1,
    ;
    assert(a1 * (x * det) + b1 * (y * det) == c1 * (det * det)) by (nonlinear_arith)
        requires
            a1 * x + b1 * y == c1 * det,
    ;
    assert(a2 * (x * det) + b2 * (y * det) == c2 * (det * det)) by (nonlinear_arith)
        requires
            a2 * x + b2 * y == c2 * det,
    ;
}

} // verus!
