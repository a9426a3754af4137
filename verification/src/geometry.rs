//! Geometry chunks: layers with their points, polygons and vertex maps, and trisurfs.

pub mod layer;
pub mod trisurf;
