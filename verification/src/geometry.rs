//! Points, rotations and rectangles on the integer lattice.
pub mod arith;
pub mod point;
pub mod rectangle;
pub mod rotation;
pub mod shape;
pub mod trig;
