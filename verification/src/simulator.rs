//! The simulation that lives on the engine: ants, their colony, and what
//! they leave behind.
pub mod ant;
pub mod colony;
pub mod food;
pub mod pheromone;
pub mod setup;
pub mod state;
