//! The 3-dimensional simplex: a tetrahedron.
//!
//! Only the boundary enumeration is provided: this design leaves the
//! tetrahedron's volume and circumsphere as open extension points.
use vstd::prelude::*;
use crate::data::simplex::point::Point;
use crate::data::simplex::simplex::Simplex;
use crate::data::simplex::triangle::Triangle;

verus! {

/// A tetrahedron with four vertices.
#[derive(Debug, Clone, Copy, PartialEq, Eq)]
pub struct Tetrahedron {
    pub vertices: [Point; 4],
}

impl Simplex for Tetrahedron {
    type Face = Triangle;

    open spec fn spec_dimension() -> u32 {
        3
    }

    open spec fn spec_faces(&self) -> Seq<Triangle> {
        seq![
            Triangle { vertices: [self.vertices[0], self.vertices[1], self.vertices[2]] },
            Triangle { vertices: [self.vertices[0], self.vertices[1], self.vertices[3]] },
            Triangle { vertices: [self.vertices[0], self.vertices[2], self.vertices[3]] },
            Triangle { vertices: [self.vertices[1], self.vertices[2], self.vertices[3]] },
        ]
    }

    open spec fn spec_vertices(&self) -> Seq<Point> {
        seq![self.vertices[0], self.vertices[1], self.vertices[2], self.vertices[3]]
    }

    fn dimension() -> (r: u32) {
        3
    }

    /// The four triangular faces: every choice of three of the four
    /// vertices, in vertex order.
    fn faces(&self) -> (r: Vec<Triangle>) {
        let mut v = Vec::new();
        v.push(Triangle { vertices: [self.vertices[0], self.vertices[1], self.vertices[2]] });
        v.push(Triangle { vertices: [self.vertices[0], self.vertices[1], self.vertices[3]] });
        v.push(Triangle { vertices: [self.vertices[0], self.vertices[2], self.vertices[3]] });
        v.push(Triangle { vertices: [self.vertices[1], self.vertices[2], self.vertices[3]] });
        proof {
            assert(v@ =~= self.spec_faces());
        }
        v
    }

    fn vertices(&self) -> (r: Vec<Point>) {
        let mut v = Vec::new();
        v.push(self.vertices[0]);
        v.push(self.vertices[1]);
        v.push(self.vertices[2]);
        v.push(self.vertices[3]);
        proof {
            assert(v@ =~= self.spec_vertices());
        }
        v
    }
}

} // verus!
