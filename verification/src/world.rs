//! The store of the simulation: an entity component system that holds, for
//! each entity, the components it was made with.
use vstd::prelude::*;
use vstd::multiset::Multiset;
use crate::geometry::point::Point;
use crate::geometry::rotation::Rotation;

verus! {

/// The components that an entity of the simulation is made with.
#[derive(Clone, Copy, Debug, PartialEq, Eq, Structural)]
pub enum Components {
    /// An ant: where it is and which way it looks.
    Ant { position: Point, rotation: Rotation },
    /// A colony: where it is and how many ants it has.
    Colony { position: Point, size: usize },
}

/// The world of a simulation: an entity component system with the entities
/// that were put into it.
#[verifier::external_body]
pub struct World(legion::World);

/// The handle that a world gives to an entity.
#[verifier::external_body]
pub struct Entity(legion::Entity);

/// The components of the entities that a world holds, one for each entity.
pub uninterp spec fn stored_components(world: World) -> Multiset<Components>;

/// An empty world.
///
/// Calls `legion::World::default`, which makes a world with the default
/// options. The contract claims that it holds no entity.
#[verifier::external_body]
fn empty_world() -> (world: World)
    ensures
        stored_components(world) == Multiset::<Components>::empty(),
{
    World(legion::World::default())
}

/// Adds an entity with the components of an ant.
///
/// Calls `legion::World::push` with the pair of the position and the
/// rotation. `push` allocates an identifier that no entity has yet, stores
/// the components under it and returns it. The contract claims that the
/// world then holds one entity more with these components, and the others
/// as before.
#[verifier::external_body]
fn push_ant(world: &mut World, position: Point, rotation: Rotation) -> (entity: Entity)
    ensures
        stored_components(*final(world)) == stored_components(*old(world)).insert(
            Components::Ant { position, rotation },
        ),
{
    Entity(world.0.push((position, rotation)))
}

/// Adds an entity with the components of a colony.
///
/// Calls `legion::World::push` with the pair of the position and the size.
/// The contract claims that the world then holds one entity more with these
/// components, and the others as before.
#[verifier::external_body]
fn push_colony(world: &mut World, position: Point, size: usize) -> (entity: Entity)
    ensures
        stored_components(*final(world)) == stored_components(*old(world)).insert(
            Components::Colony { position, size },
        ),
{
    Entity(world.0.push((position, size)))
}

/// The number of entities of a world.
///
/// Calls `legion::World::len`, which returns the number of entities in the
/// world. The contract claims that it counts the components held, one for
/// each entity.
#[verifier::external_body]
fn count_entities(world: &World) -> (count: usize)
    ensures
        count == stored_components(*world).len(),
{
    world.0.len()
}

impl World {
    /// The components of the entities of the world, one for each entity.
    pub open spec fn components(self) -> Multiset<Components> {
        stored_components(self)
    }

    /// A world without entities.
    pub fn new() -> (world: World)
        ensures
            world.components() == Multiset::<Components>::empty(),
    {
        empty_world()
    }

    /// The number of entities in the world.
    pub fn len(&self) -> (count: usize)
        ensures
            count == self.components().len(),
    {
        count_entities(self)
    }

    /// Puts a new entity with the given components into the world and
    /// returns its handle.
    pub fn insert(&mut self, components: Components) -> (entity: Entity)
        ensures
            final(self).components() == old(self).components().insert(components),
    {
        match components {
            Components::Ant { position, rotation } => push_ant(self, position, rotation),
            Components::Colony { position, size } => push_colony(self, position, size),
        }
    }
}

} // verus!
