use vstd::prelude::*;

use hecs::World;

verus! {

/// The entity world of the `hecs` crate, carried by the engine.
#[verifier::external_type_specification]
#[verifier::external_body]
pub struct ExWorld(hecs::World);

/// The entities that a world holds (those for which `World::contains` answers true, spawned
/// or reserved), each by its `hecs::Entity::to_bits` value.
pub uninterp spec fn world_entities(w: World) -> Set<u64>;

/// Calls `hecs::World::new`, which builds a world with no entity in it.
///
/// `World::new` also takes a process-wide identifier from a counter that it increments with a
/// checked addition; it would panic only after `u64::MAX - 1` worlds had been made in one
/// process, which no contract here mentions.
#[verifier::external_body]
fn new_world() -> (w: World)
    ensures
        world_entities(w) == Set::<u64>::empty(),
{
    World::new()
}

/// Calls `hecs::World::despawn` on the entity whose `Entity::to_bits` value is `bits`.
///
/// `Entity::from_bits` gives back the entity that `to_bits` made (or nothing, for bits with
/// a zero generation, which no live entity has); `World::despawn` removes a live entity and
/// its components and answers `Ok`, or answers `Err(NoSuchEntity)` and changes nothing.
#[verifier::external_body]
fn despawn_bits(world: &mut World, bits: u64) -> (removed: bool)
    ensures
        removed == world_entities(*old(world)).contains(bits),
        world_entities(*final(world)) == world_entities(*old(world)).remove(bits),
{
    match hecs::Entity::from_bits(bits) {
        Some(entity) => world.despawn(entity).is_ok(),
        None => false,
    }
}

/// Removes from `world` every entity listed in `ids` (by `Entity::to_bits` value); entities
/// that are not alive are skipped.
pub fn despawn_all(world: &mut World, ids: &Vec<u64>)
    ensures
        world_entities(*final(world)) == world_entities(*old(world)).difference(ids@.to_set()),
{
    let mut i: usize = 0;
    while i < ids.len()
        invariant
            i <= ids@.len(),
            world_entities(*world) == world_entities(*old(world)).difference(ids@.take(i as int).to_set()),
        decreases ids@.len() - i,
    {
        despawn_bits(world, ids[i]);
        assert(ids@.take(i + 1) =~= ids@.take(i as int).push(ids@[i as int]));
        proof { ids@.take(i as int).lemma_push_to_set_commute(ids@[i as int]); }
        assert(world_entities(*world) =~= world_entities(*old(world)).difference(ids@.take(i + 1).to_set()));
        i = i + 1;
    }
    assert(ids@.take(ids@.len() as int) =~= ids@);
}

/// A fixed-rate simulation engine over an entity world.
pub struct Engine {
    pub world: World,
    pub tick_rate: u32,
    running: bool,
}

impl Engine {
    /// Whether the engine's tick loop is to go on.
    pub closed spec fn running(&self) -> bool {
        self.running
    }

    /// The engine's tick rate, in ticks per second.
    pub closed spec fn rate(&self) -> u32 {
        self.tick_rate
    }

    /// The engine's entity world.
    pub closed spec fn entities(&self) -> World {
        self.world
    }

    /// A stopped engine over an empty world, ticking `tick_rate` times per second.
    pub fn new(tick_rate: u32) -> (e: Self)
        ensures
            e.rate() == tick_rate,
            !e.running(),
            world_entities(e.entities()) == Set::<u64>::empty(),
    {
        Engine { world: new_world(), tick_rate, running: false }
    }

    /// Marks the engine as running. The engine's driver runs the tick loop (simulate a tick,
    /// then wait as `sleep_after_tick` says) for as long as `is_running` answers true, that
    /// is, until `stop` is called.
    pub fn start(&mut self)
        ensures
            final(self).running(),
            final(self).rate() == old(self).rate(),
            final(self).entities() == old(self).entities(),
    {
        self.running = true;
    }

    /// Marks the engine as stopped: `is_running` answers false from now on, so the driver's
    /// tick loop ends after the current tick.
    pub fn stop(&mut self)
        ensures
            !final(self).running(),
            final(self).rate() == old(self).rate(),
            final(self).entities() == old(self).entities(),
    {
        self.running = false;
    }

    /// Whether the tick loop is to go on.
    pub fn is_running(&self) -> (r: bool)
        ensures
            r == self.running(),
    {
        self.running
    }

    /// How long to wait after a tick that took `elapsed_nanos` so that ticks start
    /// `tick_nanos` apart: the remainder when the tick was faster than its slot, else nothing.
    pub fn sleep_after_tick(tick_nanos: u128, elapsed_nanos: u128) -> (wait: Option<u128>)
        ensures
            elapsed_nanos < tick_nanos ==> wait == Some((tick_nanos - elapsed_nanos) as u128),
            elapsed_nanos >= tick_nanos ==> wait.is_none(),
    {
        if elapsed_nanos < tick_nanos {
            Some(tick_nanos - elapsed_nanos)
        } else {
            None
        }
    }
}

} // verus!
