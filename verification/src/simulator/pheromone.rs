//! The marks that ants leave on their way.
use vstd::prelude::*;
use crate::geometry::point::Point;

verus! {

/// What a pheromone points to.
#[derive(Copy, Clone, Debug, PartialEq, Eq, Structural)]
pub enum PheromoneType {
    /// The way home.
    Home,
    /// The way to food.
    Food,
}

/// A mark of one kind at a point.
#[derive(Copy, Clone, Debug, PartialEq, Eq, Structural)]
pub struct Pheromone {
    pub position: Point,
    pub pheromone_type: PheromoneType,
}

} // verus!
