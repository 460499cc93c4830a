//! Point-in-convex-polygon test over exact arithmetic.
//!
//! An unordered set of grid points is canonicalized into a consistent
//! polygon winding around its centroid, each consecutive pair of vertices
//! is turned into a half-plane (line) descriptor, and a query point is
//! classified as inside or outside by comparing its per-edge sidedness
//! against the sidedness of the centroid, a known interior point.

pub mod laws;
pub mod lines;
pub mod point;
pub mod points;
pub mod polygon;
pub mod rat;
