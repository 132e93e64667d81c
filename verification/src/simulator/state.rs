//! The state of a running simulation.
use vstd::prelude::*;
use crate::container::quadtree::QuadTree;
use crate::simulator::ant::Ant;
use crate::simulator::colony::Colony;
use crate::simulator::food::Food;
use crate::simulator::pheromone::Pheromone;

verus! {

/// The kinds of things that the index of a simulation holds.
#[derive(Clone, Copy, Debug)]
pub enum EntityType {
    Ant(Ant),
    Food(Food),
    Pheromone(Pheromone),
}

/// A simulation: the index of all that has a place, the colony, the food
/// and the pheromones.
pub struct Simulator {
    pub world: QuadTree<EntityType>,
    pub colony: Colony,
    pub food: Vec<Food>,
    pub pheromones: Vec<Pheromone>,
}

} // verus!
