//! The spatial index: a region quadtree over rectangles.

pub mod cell;
pub mod model;
pub mod laws;
pub mod quadtree;
