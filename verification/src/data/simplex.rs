//! The simplex family: point, line segment, triangle and tetrahedron, each
//! with its boundary faces, vertices and exact measure.
pub mod line_segment;
pub mod point;
pub mod simplex;
pub mod tetrahedron;
pub mod triangle;

pub use line_segment::LineSegment;
pub use point::Point;
pub use simplex::Simplex;
pub use tetrahedron::Tetrahedron;
pub use triangle::Triangle;
