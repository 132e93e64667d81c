//! A colony and its ants.
use vstd::prelude::*;
use crate::geometry::point::Point;
use crate::simulator::ant::Ant;

verus! {

/// A colony: where it is, and its ants.
#[derive(Debug)]
pub struct Colony {
    pub position: Point,
    pub ants: Vec<Ant>,
}

impl Colony {
    /// A colony at `position` with `number` ants. The ants are copies of
    /// one ant made at the position: they all look the same way.
    pub fn new(position: Point, number: usize) -> (colony: Colony)
        ensures
            colony.position == position,
            colony.ants@.len() == number,
            forall|i: int, j: int|
                0 <= i < number && 0 <= j < number ==> colony.ants@[i] == colony.ants@[j],
            forall|i: int|
                0 <= i < number ==> {
                    &&& (#[trigger] colony.ants@[i]).position == position
                    &&& colony.ants@[i].rotation.is_normalized()
                    &&& colony.ants@[i].food.is_none()
                },
    {
        let ant = Ant::new(position);
        let mut ants: Vec<Ant> = Vec::new();
        let mut made: usize = 0;
        while made < number
            invariant
                made <= number,
                ants@.len() == made,
                forall|i: int| 0 <= i < made ==> ants@[i] == ant,
            decreases number - made,
        {
            ants.push(ant);
            made += 1;
        }
        Colony { position, ants }
    }
}

} // verus!
