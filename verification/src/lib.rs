//! A region quadtree over an integer lattice, with the rotation-aware
//! point and rectangle geometry it is built on.
//!
//! Coordinates are signed integers in a unit of the caller's choice, angles
//! are whole degrees, and sines and cosines are held in parts per million.
//! Every rounding step is part of the stated contracts.
pub mod container;
pub mod entity;
pub mod geometry;
pub mod simulator;
pub mod world;

pub use container::quadtree::QuadTree;
pub use entity::Entity;
pub use geometry::point::Point;
pub use geometry::rectangle::{Geometry, Rectangle};
pub use geometry::rotation::Rotation;
pub use geometry::shape::Shape;
pub use simulator::state::Simulator;
pub use world::World;
