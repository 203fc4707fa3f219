//! An exact-arithmetic 2D computational-geometry kernel: vector primitives,
//! the turn-direction (orientation) predicate, a Graham-scan convex hull, and
//! a dimension-indexed simplex family with circumscribing circles.
//!
//! Coordinates are integers, so every predicate (collinearity, turn
//! direction, the angular order used by the hull scan) is decided exactly;
//! derived points such as circumcenters and segment intersections are exact
//! rationals.
use vstd::prelude::*;

pub mod algorithms;
pub mod data;
