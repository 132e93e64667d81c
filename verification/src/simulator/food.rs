//! Food that lies in the world.
use vstd::prelude::*;
use crate::geometry::point::Point;

verus! {

/// A piece of food at a point.
#[derive(Clone, Copy, Debug, PartialEq, Eq, Structural)]
pub struct Food {
    pub position: Point,
}

} // verus!
