//! An ant: a position, a heading and what it carries.
use rand::Rng;
use vstd::prelude::*;
use crate::geometry::point::Point;
use crate::geometry::rotation::Rotation;
use crate::simulator::food::Food;

verus! {

/// A random whole number of `low..high`.
///
/// Calls `rand::thread_rng`, the generator of the running thread, and
/// `Rng::gen_range` on the half-open range, which panics on an empty range
/// and else returns a number of the range. The contract claims that the
/// number lies in the range and nothing of which one it is.
#[verifier::external_body]
fn random_in(low: i32, high: i32) -> (value: i32)
    requires
        low < high,
    ensures
        low <= value < high,
{
    rand::thread_rng().gen_range(low..high)
}

/// A random heading: an angle of `[0, 360)`.
pub fn generate_random_angle() -> (angle: Rotation)
    ensures
        angle.is_normalized(),
{
    Rotation::new(random_in(0, 360))
}

/// An ant.
#[derive(Clone, Copy, Debug, PartialEq, Eq)]
pub struct Ant {
    pub position: Point,
    pub rotation: Rotation,
    pub food: Option<Food>,
}

impl Ant {
    /// An ant at `starting_point` that looks a random way and carries
    /// nothing.
    pub fn new(starting_point: Point) -> (ant: Ant)
        ensures
            ant.position == starting_point,
            ant.rotation.is_normalized(),
            ant.food.is_none(),
    {
        Ant { position: starting_point, rotation: generate_random_angle(), food: None }
    }
}

} // verus!
