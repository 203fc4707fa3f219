//! Spheres of each dimension, as produced by circumscription.
pub mod sphere1;
pub mod sphere2;

pub use sphere1::Sphere1;
pub use sphere2::Sphere2;
