//! The capability shared by every simplex.
use vstd::prelude::*;
use crate::data::simplex::point::Point;

verus! {

/// What every simplex of dimension `d` offers: its dimension, its
/// `(d-1)`-dimensional boundary faces, and its vertices. Measures
/// (length, area) and circumscribed spheres are offered by the concrete
/// types, since their exact form differs per dimension.
pub trait Simplex: Sized {
    /// The type of the simplex's boundary faces.
    type Face;

    /// The dimension of the simplex.
    spec fn spec_dimension() -> u32;

    /// The boundary faces, as a mathematical sequence.
    spec fn spec_faces(&self) -> Seq<Self::Face>;

    /// The vertices, as a mathematical sequence.
    spec fn spec_vertices(&self) -> Seq<Point>;

    /// The dimension of the simplex.
    fn dimension() -> (r: u32)
        ensures
            r == Self::spec_dimension(),
    ;

    /// The `(d-1)`-dimensional boundary faces of the simplex.
    fn faces(&self) -> (r: Vec<Self::Face>)
        ensures
            r@ == self.spec_faces(),
    ;

    /// The vertices of the simplex.
    fn vertices(&self) -> (r: Vec<Point>)
        ensures
            r@ == self.spec_vertices(),
    ;
}

} // verus!
