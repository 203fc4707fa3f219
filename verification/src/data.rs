//! The kernel's value types: vectors, positions, orientation enums, cones,
//! rationals, simplices and spheres.
pub mod cone;
pub mod point2;
pub mod point3;
pub mod polar_direction;
pub mod pos2;
pub mod ratio;
pub mod simplex;
pub mod sphere;
pub mod vec2;

pub use cone::Cone;
pub use point2::{point2, Point2};
pub use point3::{point3, Point3};
pub use polar_direction::PolarDirection;
pub use pos2::{pos2, Pos2};
pub use ratio::{ratio, Ratio};
pub use vec2::{vec2, Vec2};
