//! A 2D vector with exact integer coordinates.
use vstd::prelude::*;

verus! {

/// A 2D vector (or point, depending on context) with exact integer
/// coordinates. Equality is componentwise.
#[derive(Debug, Clone, Copy, PartialEq, Eq, Structural)]
pub struct Vec2 {
    pub x: i32,
    pub y: i32,
}

/// Shorthand constructor, mirroring the struct literal.
pub fn vec2(x: i32, y: i32) -> (v: Vec2)
    ensures
        v == (Vec2 { x, y }),
{
    Vec2 { x, y }
}

/// The z-component of the 3D cross product of `a` and `b` (z-values taken
/// implicitly as 0), as a mathematical integer.
pub open spec fn spec_cross(a: Vec2, b: Vec2) -> int {
    a.x * b.y - a.y * b.x
}

/// The dot product of `a` and `b`, as a mathematical integer.
pub open spec fn spec_dot(a: Vec2, b: Vec2) -> int {
    a.x * b.x + a.y * b.y
}

impl Vec2 {
    /// Returns the magnitude of the vector that would result from a regular
    /// 3D cross product of the input vectors, taking their Z values
    /// implicitly as 0. Computed in `i128`, which is wide enough for any
    /// pair of `i32` vectors.
    pub fn cross(self, other: Self) -> (r: i128)
        ensures
            r == spec_cross(self, other),
    {
        proof {
            lemma_i32_product_bounds(self.x as int, other.y as int);
            lemma_i32_product_bounds(self.y as int, other.x as int);
        }
        let xy: i128 = (self.x as i128) * (other.y as i128);
        let yx: i128 = (self.y as i128) * (other.x as i128);
        xy - yx
    }

    /// The dot product of two vectors, computed in `i128`.
    pub fn dot(self, other: Self) -> (r: i128)
        ensures
            r == spec_dot(self, other),
    {
        proof {
            lemma_i32_product_bounds(self.x as int, other.x as int);
            lemma_i32_product_bounds(self.y as int, other.y as int);
        }
        let xx: i128 = (self.x as i128) * (other.x as i128);
        let yy: i128 = (self.y as i128) * (other.y as i128);
        xx + yy
    }

    /// The counterclockwise perpendicular of `self`.
    pub fn perpendicular(self) -> (r: Self)
        requires
            self.y != i32::MIN,
        ensures
            r.x == -self.y as int,
            r.y == self.x,
    {
        Self { x: -self.y, y: self.x }
    }

    /// Translates `self` relative to `other`, i.e. the displacement from
    /// `other` to `self`.
    pub fn translate(self, other: Self) -> (r: Self)
        requires
            i32::MIN <= self.x - other.x <= i32::MAX,
            i32::MIN <= self.y - other.y <= i32::MAX,
        ensures
            r.x == self.x - other.x,
            r.y == self.y - other.y,
    {
        Self { x: self.x - other.x, y: self.y - other.y }
    }

    /// Componentwise difference, the same displacement as
    /// [`Vec2::translate`].
    pub fn sub(self, rhs: Self) -> (r: Self)
        requires
            i32::MIN <= self.x - rhs.x <= i32::MAX,
            i32::MIN <= self.y - rhs.y <= i32::MAX,
        ensures
            r.x == self.x - rhs.x,
            r.y == self.y - rhs.y,
    {
        Self { x: self.x - rhs.x, y: self.y - rhs.y }
    }
}

/// The product of two values in `i32` range stays comfortably inside `i64`:
/// its magnitude is at most `2^62`.
pub proof fn lemma_i32_product_bounds(x: int, y: int)
    requires
        i32::MIN <= x <= i32::MAX,
        i32::MIN <= y <= i32::MAX,
    ensures
        -0x4000000000000000 <= x * y <= 0x4000000000000000,
{
    assert(-0x4000000000000000 <= x * y <= 0x4000000000000000) by (nonlinear_arith)
        requires
            -0x80000000 <= x <= 0x7fffffff,
            -0x80000000 <= y <= 0x7fffffff,
    ;
}

/// A product is bounded by the product of the factors' bounds.
pub proof fn lemma_abs_mul_bound(x: int, y: int, bx: int, by: int)
    requires
        0 <= bx,
        0 <= by,
        -bx <= x <= bx,
        -by <= y <= by,
    ensures
        -(bx * by) <= x * y <= bx * by,
{
    assert(-(bx * by) <= x * y <= bx * by) by (nonlinear_arith)
        requires
            0 <= bx,
            0 <= by,
            -bx <= x <= bx,
            -by <= y <= by,
    ;
}

/// The product of two differences of `i32` values stays comfortably inside
/// `i64`: each difference has magnitude below `2^32`, so the product has
/// magnitude below `2^64`.
pub proof fn lemma_diff_product_bounds(p: int, q: int, r: int, s: int)
    requires
        i32::MIN <= p <= i32::MAX,
        i32::MIN <= q <= i32::MAX,
        i32::MIN <= r <= i32::MAX,
        i32::MIN <= s <= i32::MAX,
    ensures
        -0x10000000000000000 <= (p - q) * (r - s) <= 0x10000000000000000,
{
    assert(-0x10000000000000000 <= (p - q) * (r - s) <= 0x10000000000000000)
        by (nonlinear_arith)
        requires
            -0x80000000 <= p <= 0x7fffffff,
            -0x80000000 <= q <= 0x7fffffff,
            -0x80000000 <= r <= 0x7fffffff,
            -0x80000000 <= s <= 0x7fffffff,
    ;
}

} // verus!
