//! The angular order around the hull anchor.
//!
//! Candidate points are compared by the polar angle they make with the
//! anchor, measured from the positive x-axis. The comparison is decided
//! exactly: first by half-plane (so that it is total over the whole plane),
//! then by the sign of a cross product, with exact ties broken
//! lexicographically by `(y, x)` — which, for two points on the same ray
//! from the anchor, orders them by distance. This module proves that the
//! resulting relation is a total ordering.
use vstd::prelude::*;
use vstd::relations::total_ordering;
use crate::data::pos2::Pos2;

verus! {

/// The z-coordinate of the cross product of the vectors `o -> a` and
/// `o -> b`: zero when the three points are collinear, positive when
/// `o -> a -> b` is a left turn, negative when it is a right turn.
pub open spec fn spec_orient(o: Pos2, a: Pos2, b: Pos2) -> int {
    (a.x - o.x) * (b.y - o.y) - (a.y - o.y) * (b.x - o.x)
}

/// Lexicographic order on `(y, x)`: the order in which the hull anchor is
/// the least point of its input.
pub open spec fn lex_le(a: Pos2, b: Pos2) -> bool {
    a.y < b.y || (a.y == b.y && a.x <= b.x)
}

/// Which half-plane around `o` the point `q` falls in: 0 for `o` itself,
/// 1 for the closed upper half-plane (angles in `[0, pi)`: above `o`, or
/// level with it and strictly to its right), 2 for the rest (angles in
/// `[pi, 2*pi)`).
pub open spec fn angle_class(o: Pos2, q: Pos2) -> int {
    if q.x == o.x && q.y == o.y {
        0
    } else if q.y > o.y || (q.y == o.y && q.x > o.x) {
        1
    } else {
        2
    }
}

/// `a`'s polar angle around `o` is at most `b`'s; exact angular ties are
/// broken lexicographically by `(y, x)`, which on a common ray from `o`
/// orders points by distance.
pub open spec fn pt_le(o: Pos2, a: Pos2, b: Pos2) -> bool {
    if angle_class(o, a) != angle_class(o, b) {
        angle_class(o, a) < angle_class(o, b)
    } else {
        spec_orient(o, a, b) > 0 || (spec_orient(o, a, b) == 0 && lex_le(a, b))
    }
}

/// The angular order around `o`, as a binary relation.
pub open spec fn pt_leq(o: Pos2) -> spec_fn(Pos2, Pos2) -> bool {
    |a: Pos2, b: Pos2| pt_le(o, a, b)
}

/// The cross product of the plane vectors `(xa, ya)` and `(xb, yb)`.
spec fn vcross(xa: int, ya: int, xb: int, yb: int) -> int {
    xa * yb - ya * xb
}

/// The vector `(x, y)` points into the closed upper half-plane: angle in
/// `[0, pi)`.
spec fn vupper(x: int, y: int) -> bool {
    y > 0 || (y == 0 && x > 0)
}

/// The two three-vector cross-product identities that drive transitivity of
/// the angular order.
proof fn lemma_vcross_identity(xa: int, ya: int, xb: int, yb: int, xc: int, yc: int)
    ensures
        yb * vcross(xa, ya, xc, yc) == yc * vcross(xa, ya, xb, yb) + ya * vcross(xb, yb, xc, yc),
        xb * vcross(xa, ya, xc, yc) == xc * vcross(xa, ya, xb, yb) + xa * vcross(xb, yb, xc, yc),
{
    assert(yb * (xa * yc - ya * xc) == yc * (xa * yb - ya * xb) + ya * (xb * yc - yb * xc))
        by (nonlinear_arith);
    assert(xb * (xa * yc - ya * xc) == xc * (xa * yb - ya * xb) + xa * (xb * yc - yb * xc))
        by (nonlinear_arith);
}

/// In the closed upper half-plane the cross-product comparison is
/// transitive, and strict on one side if strict on either.
proof fn lemma_vcross_trans_strict(xa: int, ya: int, xb: int, yb: int, xc: int, yc: int)
    requires
        vupper(xa, ya),
        vupper(xb, yb),
        vupper(xc, yc),
        vcross(xa, ya, xb, yb) >= 0,
        vcross(xb, yb, xc, yc) >= 0,
        vcross(xa, ya, xb, yb) > 0 || vcross(xb, yb, xc, yc) > 0,
    ensures
        vcross(xa, ya, xc, yc) > 0,
{
    lemma_vcross_identity(xa, ya, xb, yb, xc, yc);
    let cab = vcross(xa, ya, xb, yb);
    let cbc = vcross(xb, yb, xc, yc);
    let cac = vcross(xa, ya, xc, yc);
    if yb > 0 {
        if cab > 0 {
            if yc == 0 {
                // c lies on the positive x-axis, so b is clockwise of c.
                assert(cbc == xb * 0 - yb * xc);
                assert(yb * xc > 0) by (nonlinear_arith)
                    requires
                        yb > 0,
                        xc > 0,
                ;
                assert(false);
            }
            assert(yc * cab > 0) by (nonlinear_arith)
                requires
                    yc > 0,
                    cab > 0,
            ;
            assert(ya * cbc >= 0) by (nonlinear_arith)
                requires
                    ya >= 0,
                    cbc >= 0,
            ;
        } else {
            // cab == 0 and cbc > 0.
            if ya == 0 {
                assert(cab == xa * yb - 0 * xb);
                assert(xa * yb > 0) by (nonlinear_arith)
                    requires
                        xa > 0,
                        yb > 0,
                ;
                assert(false);
            }
            assert(ya * cbc > 0) by (nonlinear_arith)
                requires
                    ya > 0,
                    cbc > 0,
            ;
            assert(yc * cab == 0) by (nonlinear_arith)
                requires
                    cab == 0,
            ;
        }
        assert(yb * cac > 0);
        assert(cac > 0) by (nonlinear_arith)
            requires
                yb > 0,
                yb * cac > 0,
        ;
    } else {
        // yb == 0 and xb > 0: b lies on the positive x-axis, the least
        // possible angle, so a must as well.
        assert(cab == xa * yb - ya * xb);
        assert(ya == 0) by (nonlinear_arith)
            requires
                xa * yb - ya * xb >= 0,
                yb == 0,
                xb > 0,
                ya >= 0,
        ;
        assert(xa > 0);
        assert(xa * yb - ya * xb == 0) by (nonlinear_arith)
            requires
                yb == 0,
                ya == 0,
        ;
        assert(cbc == xb * yc - 0 * xc);
        assert(yc > 0) by (nonlinear_arith)
            requires
                xb * yc > 0,
                xb > 0,
        ;
        assert(cac == xa * yc - 0 * xc);
        assert(xa * yc > 0) by (nonlinear_arith)
            requires
                xa > 0,
                yc > 0,
        ;
    }
}

/// Collinearity with a common nonzero vector `b` is transitive.
proof fn lemma_vcross_trans_zero(xa: int, ya: int, xb: int, yb: int, xc: int, yc: int)
    requires
        xb != 0 || yb != 0,
        vcross(xa, ya, xb, yb) == 0,
        vcross(xb, yb, xc, yc) == 0,
    ensures
        vcross(xa, ya, xc, yc) == 0,
{
    lemma_vcross_identity(xa, ya, xb, yb, xc, yc);
    let cac = vcross(xa, ya, xc, yc);
    assert(yc * 0 + ya * 0 == 0) by (nonlinear_arith);
    assert(xc * 0 + xa * 0 == 0) by (nonlinear_arith);
    if yb != 0 {
        assert(cac == 0) by (nonlinear_arith)
            requires
                yb * cac == 0,
                yb != 0,
        ;
    } else {
        assert(cac == 0) by (nonlinear_arith)
            requires
                xb * cac == 0,
                xb != 0,
        ;
    }
}

/// The relative coordinates of `q` around `o`, for transporting facts
/// between [`spec_orient`] and [`vcross`].
spec fn rel_x(o: Pos2, q: Pos2) -> int {
    q.x - o.x
}

/// See [`rel_x`].
spec fn rel_y(o: Pos2, q: Pos2) -> int {
    q.y - o.y
}

/// A point is in angle class 1 around `o` exactly when its relative vector
/// points into the closed upper half-plane, and in class 2 exactly when its
/// negation does.
proof fn lemma_class_upper(o: Pos2, q: Pos2)
    ensures
        angle_class(o, q) == 1 <==> vupper(rel_x(o, q), rel_y(o, q)),
        angle_class(o, q) == 2 <==> vupper(-rel_x(o, q), -rel_y(o, q)),
{
}

/// Orientation is antisymmetric in its last two arguments.
pub proof fn lemma_orient_antisym(o: Pos2, a: Pos2, b: Pos2)
    ensures
        spec_orient(o, a, b) == -spec_orient(o, b, a),
{
    assert((a.x - o.x) * (b.y - o.y) - (a.y - o.y) * (b.x - o.x) == -((b.x - o.x) * (a.y - o.y)
        - (b.y - o.y) * (a.x - o.x))) by (nonlinear_arith);
}

/// Orientation of a repeated point is zero.
pub proof fn lemma_orient_self(o: Pos2, a: Pos2, b: Pos2)
    ensures
        spec_orient(o, a, a) == 0,
        a == b ==> spec_orient(o, a, b) == 0,
{
    assert((a.x - o.x) * (a.y - o.y) - (a.y - o.y) * (a.x - o.x) == 0) by (nonlinear_arith);
}

/// Transitivity of the angular order within one angle class.
proof fn lemma_pt_le_trans_same_class(o: Pos2, a: Pos2, b: Pos2, c: Pos2)
    requires
        angle_class(o, a) == angle_class(o, b),
        angle_class(o, b) == angle_class(o, c),
        pt_le(o, a, b),
        pt_le(o, b, c),
    ensures
        pt_le(o, a, c),
{
    let cls = angle_class(o, a);
    lemma_class_upper(o, a);
    lemma_class_upper(o, b);
    lemma_class_upper(o, c);
    if cls == 0 {
        // All three points equal the origin.
        lemma_orient_self(o, a, c);
    } else {
        let (xa, ya) = (rel_x(o, a), rel_y(o, a));
        let (xb, yb) = (rel_x(o, b), rel_y(o, b));
        let (xc, yc) = (rel_x(o, c), rel_y(o, c));
        let cab = spec_orient(o, a, b);
        let cbc = spec_orient(o, b, c);
        assert(cab == vcross(xa, ya, xb, yb));
        assert(cbc == vcross(xb, yb, xc, yc));
        assert(spec_orient(o, a, c) == vcross(xa, ya, xc, yc));
        if cab == 0 && cbc == 0 {
            assert(xb != 0 || yb != 0);
            lemma_vcross_trans_zero(xa, ya, xb, yb, xc, yc);
        } else if cls == 1 {
            lemma_vcross_trans_strict(xa, ya, xb, yb, xc, yc);
        } else {
            assert(vcross(-xa, -ya, -xb, -yb) == cab) by (nonlinear_arith)
                requires
                    cab == vcross(xa, ya, xb, yb),
            ;
            assert(vcross(-xb, -yb, -xc, -yc) == cbc) by (nonlinear_arith)
                requires
                    cbc == vcross(xb, yb, xc, yc),
            ;
            lemma_vcross_trans_strict(-xa, -ya, -xb, -yb, -xc, -yc);
            assert(vcross(-xa, -ya, -xc, -yc) == vcross(xa, ya, xc, yc)) by (nonlinear_arith);
        }
    }
}

/// Computes [`spec_orient`] exactly, in `i128`.
pub fn orient(o: Pos2, a: Pos2, b: Pos2) -> (r: i128)
    ensures
        r == spec_orient(o, a, b),
{
    let dax: i64 = (a.x as i64) - (o.x as i64);
    let day: i64 = (a.y as i64) - (o.y as i64);
    let dbx: i64 = (b.x as i64) - (o.x as i64);
    let dby: i64 = (b.y as i64) - (o.y as i64);
    proof {
        crate::data::vec2::lemma_diff_product_bounds(a.x as int, o.x as int, b.y as int,
            o.y as int);
        crate::data::vec2::lemma_diff_product_bounds(a.y as int, o.y as int, b.x as int,
            o.x as int);
    }
    (dax as i128) * (dby as i128) - (day as i128) * (dbx as i128)
}

/// Decides the angular order [`pt_le`] exactly.
pub fn pt_le_cmp(o: Pos2, a: Pos2, b: Pos2) -> (r: bool)
    ensures
        r == pt_le(o, a, b),
{
    let ca: u8 = angle_class_of(o, a);
    let cb: u8 = angle_class_of(o, b);
    if ca != cb {
        ca < cb
    } else {
        let t = orient(o, a, b);
        if t > 0 {
            true
        } else if t == 0 {
            a.y < b.y || (a.y == b.y && a.x <= b.x)
        } else {
            false
        }
    }
}

/// Computes [`angle_class`] exactly.
fn angle_class_of(o: Pos2, q: Pos2) -> (r: u8)
    ensures
        r as int == angle_class(o, q),
{
    if q.x == o.x && q.y == o.y {
        0
    } else if q.y > o.y || (q.y == o.y && q.x > o.x) {
        1
    } else {
        2
    }
}

/// The angular order is antisymmetric: mutually ordered points are equal.
pub proof fn lemma_pt_le_antisym(o: Pos2, a: Pos2, b: Pos2)
    requires
        pt_le(o, a, b),
        pt_le(o, b, a),
    ensures
        a == b,
{
    lemma_orient_antisym(o, a, b);
    assert(a.y == b.y && a.x == b.x);
}

/// The angular order is transitive.
pub proof fn lemma_pt_le_trans(o: Pos2, a: Pos2, b: Pos2, c: Pos2)
    requires
        pt_le(o, a, b),
        pt_le(o, b, c),
    ensures
        pt_le(o, a, c),
{
    let (ca, cb, cc) = (angle_class(o, a), angle_class(o, b), angle_class(o, c));
    if ca == cb && cb == cc {
        lemma_pt_le_trans_same_class(o, a, b, c);
    }
}

/// The angular order is strongly connected: any two points compare.
pub proof fn lemma_pt_le_connected(o: Pos2, a: Pos2, b: Pos2)
    ensures
        pt_le(o, a, b) || pt_le(o, b, a),
{
    lemma_orient_antisym(o, a, b);
}

/// The angular order around any origin is a total ordering: reflexive,
/// antisymmetric, transitive and strongly connected.
pub proof fn lemma_pt_le_total_ordering(o: Pos2)
    ensures
        total_ordering(pt_leq(o)),
{
    let r = pt_leq(o);
    assert forall|a: Pos2| #[trigger] r(a, a) by {
        lemma_orient_self(o, a, a);
    }
    assert forall|a: Pos2, b: Pos2| #[trigger] r(a, b) && #[trigger] r(b, a) implies a == b by {
        lemma_pt_le_antisym(o, a, b);
    }
    assert forall|a: Pos2, b: Pos2, c: Pos2| #[trigger] r(a, b) && #[trigger] r(b, c) implies r(
        a,
        c,
    ) by {
        lemma_pt_le_trans(o, a, b, c);
    }
    assert forall|a: Pos2, b: Pos2| #[trigger] r(a, b) || #[trigger] r(b, a) by {
        lemma_pt_le_connected(o, a, b);
    }
}

} // verus!
