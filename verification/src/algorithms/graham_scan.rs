//! The Graham-scan convex-hull algorithm: anchor selection, angular sort,
//! and the hull-stack scan, each verified against a functional model.
pub mod algorithm;
pub mod helpers;
pub mod laws;
pub mod order;

pub use algorithm::{graham_scan, graham_sort};
