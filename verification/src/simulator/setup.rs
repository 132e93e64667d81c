//! Setting up the world of a simulation: one colony and its ants.
use vstd::prelude::*;
use vstd::multiset::Multiset;
use crate::geometry::point::Point;
use crate::geometry::rotation::Rotation;
use crate::simulator::ant::generate_random_angle;
use crate::world::{Components, Entity, World};

verus! {

/// The number of ants of the colony that a simulation starts with.
pub const COLONY_SIZE: usize = 100;

/// The components of ants at `position`, one for each heading of
/// `headings`.
pub open spec fn ant_components(position: Point, headings: Seq<Rotation>) -> Multiset<Components>
    decreases headings.len(),
{
    if headings.len() == 0 {
        Multiset::empty()
    } else {
        ant_components(position, headings.drop_last()).insert(
            Components::Ant { position, rotation: headings.last() },
        )
    }
}

/// Whether every heading lies in `[0, 360)`.
pub open spec fn all_normalized(headings: Seq<Rotation>) -> bool {
    forall|i: int| 0 <= i < headings.len() ==> (#[trigger] headings[i]).is_normalized()
}

/// Whether `after` is `before` with a colony of `size` ants at `position`
/// added: the ants, each at the position with a heading of `[0, 360)`, and
/// the colony itself.
pub open spec fn colony_added(
    before: Multiset<Components>,
    after: Multiset<Components>,
    position: Point,
    size: usize,
) -> bool {
    exists|headings: Seq<Rotation>|
        {
            &&& headings.len() == size
            &&& all_normalized(headings)
            &&& after == before.add(#[trigger] ant_components(position, headings)).insert(
                Components::Colony { position, size },
            )
        }
}

/// Whether `after` is `before` with one ant at `position` added, with a
/// heading of `[0, 360)`.
pub open spec fn ant_added(
    before: Multiset<Components>,
    after: Multiset<Components>,
    position: Point,
) -> bool {
    exists|heading: Rotation|
        #[trigger] heading.is_normalized() && after == before.insert(
            Components::Ant { position, rotation: heading },
        )
}

/// A world with one colony of a hundred ants at the origin.
pub fn create_simulation() -> (world: World)
    ensures
        colony_added(
            Multiset::empty(),
            world.components(),
            Point { x: 0, y: 0 },
            COLONY_SIZE,
        ),
{
    let mut world = World::new();
    setup(&mut world);
    world
}

/// Puts what a simulation starts with into the world.
fn setup(world: &mut World)
    ensures
        colony_added(
            old(world).components(),
            final(world).components(),
            Point { x: 0, y: 0 },
            COLONY_SIZE,
        ),
{
    create_colony(world);
}

/// Puts a colony at the origin into the world: its hundred ants first, then
/// the colony itself, whose handle is returned.
fn create_colony(world: &mut World) -> (colony: Entity)
    ensures
        colony_added(
            old(world).components(),
            final(world).components(),
            Point { x: 0, y: 0 },
            COLONY_SIZE,
        ),
{
    let position = Point { x: 0, y: 0 };
    let size: usize = COLONY_SIZE;
    let ghost before = world.components();
    let ghost mut headings: Seq<Rotation> = Seq::empty();
    let mut made: usize = 0;
    while made < size
        invariant
            made <= size,
            headings.len() == made,
            all_normalized(headings),
            world.components() == before.add(ant_components(position, headings)),
        decreases size - made,
    {
        let ghost earlier = world.components();
        create_ant(world, position);
        proof {
            let heading = choose|heading: Rotation|
                #[trigger] heading.is_normalized() && world.components() == earlier.insert(
                    Components::Ant { position, rotation: heading },
                );
            let longer = headings.push(heading);
            assert(longer.drop_last() =~= headings);
            assert(before.add(ant_components(position, longer)) =~= earlier.insert(
                Components::Ant { position, rotation: heading },
            ));
            headings = longer;
        }
        made += 1;
    }
    let colony = world.insert(Components::Colony { position, size });
    proof {
        assert(colony_added(before, world.components(), position, size)) by {
            let witness = ant_components(position, headings);
        }
    }
    colony
}

/// Puts an ant at `starting_point` into the world, looking a random way.
fn create_ant(world: &mut World, starting_point: Point) -> (ant: Entity)
    ensures
        ant_added(old(world).components(), final(world).components(), starting_point),
{
    let random_rotation = generate_random_angle();
    let ant = world.insert(Components::Ant { position: starting_point, rotation: random_rotation });
    assert(random_rotation.is_normalized());
    ant
}

} // verus!
