//! An entity: an identity and a position.
use vstd::prelude::*;
use crate::geometry::point::Point;

verus! {

/// Whether `id` has the layout of a random identifier: the version field
/// holds four and the variant field the two bits one and zero.
pub open spec fn is_random_id(id: u128) -> bool {
    &&& (id >> 76) & 0xf == 4
    &&& (id >> 62) & 0x3 == 2
}

/// A fresh random identifier, as a number.
///
/// Calls `uuid::Uuid::new_v4`, which fills sixteen bytes from the operating
/// system's random source and then sets the variant and the version, and
/// `Uuid::as_u128`, which reads the bytes as one number, the first byte
/// first. The contract claims the two fields that `new_v4` sets and nothing
/// of the random bits. `new_v4` panics where the system has no random bytes
/// to give.
#[verifier::external_body]
fn random_id() -> (id: u128)
    ensures
        is_random_id(id),
{
    uuid::Uuid::new_v4().as_u128()
}

/// Something with an identity of its own that sits at a point.
#[derive(Debug, Copy, Clone, PartialEq, Eq, Structural)]
pub struct Entity {
    pub id: u128,
    pub position: Point,
}

impl Entity {
    /// An entity at `position` with a fresh random identity.
    pub fn new(position: Point) -> (entity: Entity)
        ensures
            entity.position == position,
            is_random_id(entity.id),
    {
        Entity { id: random_id(), position }
    }
}

} // verus!
