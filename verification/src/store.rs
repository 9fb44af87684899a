//! The entity store: typed component arenas indexed by entity identity.
//!
//! An entity is nothing but an index; its meaning comes from which of the
//! four component arenas hold `Some` at that index.  Entities are allocated
//! monotonically and never removed, so an identity handed out stays valid for
//! the life of the world.

use vstd::prelude::*;

use crate::bee::Bee;
use crate::meadow::Flower;
use crate::prelude::{EntityId, Position, Velocity};

verus! {

/// Mathematical model of the store: one sequence per component kind, all of
/// the same length, `Some` where the entity carries the component.
#[verifier::ext_equal]
pub struct WorldView {
    pub positions: Seq<Option<Position>>,
    pub velocities: Seq<Option<Velocity>>,
    pub bees: Seq<Option<Bee>>,
    pub flowers: Seq<Option<Flower>>,
}

impl WorldView {
    pub open spec fn len(self) -> nat {
        self.positions.len()
    }

    pub open spec fn wf(self) -> bool {
        self.velocities.len() == self.positions.len() && self.bees.len() == self.positions.len()
            && self.flowers.len() == self.positions.len()
    }
}

/// The store itself: parallel typed arenas.
pub struct World {
    positions: Vec<Option<Position>>,
    velocities: Vec<Option<Velocity>>,
    bees: Vec<Option<Bee>>,
    flowers: Vec<Option<Flower>>,
}

impl View for World {
    type V = WorldView;

    closed spec fn view(&self) -> WorldView {
        WorldView {
            positions: self.positions@,
            velocities: self.velocities@,
            bees: self.bees@,
            flowers: self.flowers@,
        }
    }
}

impl World {
    pub open spec fn wf(self) -> bool {
        self@.wf()
    }

    pub fn new() -> (w: World)
        ensures
            w@.positions == Seq::<Option<Position>>::empty(),
            w@.velocities == Seq::<Option<Velocity>>::empty(),
            w@.bees == Seq::<Option<Bee>>::empty(),
            w@.flowers == Seq::<Option<Flower>>::empty(),
            w.wf(),
    {
        let w = World { positions: Vec::new(), velocities: Vec::new(), bees: Vec::new(), flowers: Vec::new() };
        proof {
            assert(w@.positions =~= Seq::<Option<Position>>::empty());
            assert(w@.velocities =~= Seq::<Option<Velocity>>::empty());
            assert(w@.bees =~= Seq::<Option<Bee>>::empty());
            assert(w@.flowers =~= Seq::<Option<Flower>>::empty());
        }
        w
    }

    pub fn len(&self) -> (n: usize)
        ensures
            n == self@.len(),
    {
        self.positions.len()
    }

    /// Allocate a fresh identity and attach the given initial components.
    /// Allocation cannot fail; the new identity is the previous length.
    pub fn create(
        &mut self,
        pos: Option<Position>,
        vel: Option<Velocity>,
        bee: Option<Bee>,
        flower: Option<Flower>,
    ) -> (id: EntityId)
        requires
            old(self).wf(),
            old(self)@.len() < usize::MAX,
        ensures
            id == old(self)@.len(),
            final(self)@.positions == old(self)@.positions.push(pos),
            final(self)@.velocities == old(self)@.velocities.push(vel),
            final(self)@.bees == old(self)@.bees.push(bee),
            final(self)@.flowers == old(self)@.flowers.push(flower),
            final(self).wf(),
    {
        let id = self.positions.len();
        self.positions.push(pos);
        self.velocities.push(vel);
        self.bees.push(bee);
        self.flowers.push(flower);
        id
    }

    /// Typed lookup: exactly the stored option for this (entity, kind) pair.
    pub fn get_position(&self, e: EntityId) -> (r: Option<Position>)
        requires
            e < self@.len(),
        ensures
            r == self@.positions[e as int],
    {
        self.positions[e]
    }

    pub fn get_velocity(&self, e: EntityId) -> (r: Option<Velocity>)
        requires
            self.wf(),
            e < self@.len(),
        ensures
            r == self@.velocities[e as int],
    {
        self.velocities[e]
    }

    pub fn get_bee(&self, e: EntityId) -> (r: Option<Bee>)
        requires
            self.wf(),
            e < self@.len(),
        ensures
            r == self@.bees[e as int],
    {
        self.bees[e]
    }

    pub fn get_flower(&self, e: EntityId) -> (r: Option<Flower>)
        requires
            self.wf(),
            e < self@.len(),
        ensures
            r == self@.flowers[e as int],
    {
        self.flowers[e]
    }

    /// Typed write: replaces this (entity, kind) slot and touches nothing
    /// else.
    pub fn set_position(&mut self, e: EntityId, v: Position)
        requires
            old(self).wf(),
            e < old(self)@.len(),
        ensures
            final(self)@.positions == old(self)@.positions.update(e as int, Some(v)),
            final(self)@.velocities == old(self)@.velocities,
            final(self)@.bees == old(self)@.bees,
            final(self)@.flowers == old(self)@.flowers,
            final(self).wf(),
    {
        self.positions[e] = Some(v);
    }

    pub fn set_velocity(&mut self, e: EntityId, v: Velocity)
        requires
            old(self).wf(),
            e < old(self)@.len(),
        ensures
            final(self)@.velocities == old(self)@.velocities.update(e as int, Some(v)),
            final(self)@.positions == old(self)@.positions,
            final(self)@.bees == old(self)@.bees,
            final(self)@.flowers == old(self)@.flowers,
            final(self).wf(),
    {
        self.velocities[e] = Some(v);
    }

    pub fn set_bee(&mut self, e: EntityId, v: Bee)
        requires
            old(self).wf(),
            e < old(self)@.len(),
        ensures
            final(self)@.bees == old(self)@.bees.update(e as int, Some(v)),
            final(self)@.positions == old(self)@.positions,
            final(self)@.velocities == old(self)@.velocities,
            final(self)@.flowers == old(self)@.flowers,
            final(self).wf(),
    {
        self.bees[e] = Some(v);
    }

    pub fn set_flower(&mut self, e: EntityId, v: Flower)
        requires
            old(self).wf(),
            e < old(self)@.len(),
        ensures
            final(self)@.flowers == old(self)@.flowers.update(e as int, Some(v)),
            final(self)@.positions == old(self)@.positions,
            final(self)@.velocities == old(self)@.velocities,
            final(self)@.bees == old(self)@.bees,
            final(self).wf(),
    {
        self.flowers[e] = Some(v);
    }

    /// Filtered iteration: every entity currently carrying both a flower and
    /// a position, in ascending identity order.
    pub fn query_flowers(&self) -> (r: Vec<(EntityId, Flower, Position)>)
        requires
            self.wf(),
        ensures
            r@ == flower_query_model(self@, self@.len() as int),
    {
        let n = self.positions.len();
        let mut r: Vec<(EntityId, Flower, Position)> = Vec::new();
        let mut e: usize = 0;
        while e < n
            invariant
                n == self@.len(),
                self.wf(),
                e <= n,
                r@ == flower_query_model(self@, e as int),
            decreases n - e,
        {
            match (self.flowers[e], self.positions[e]) {
                (Some(f), Some(p)) => {
                    r.push((e, f, p));
                }
                _ => {}
            }
            e = e + 1;
        }
        r
    }
}

/// The flower query's answer over the first `n` entities.
pub open spec fn flower_query_model(w: WorldView, n: int) -> Seq<(EntityId, Flower, Position)>
    decreases n,
{
    if n <= 0 {
        Seq::empty()
    } else {
        let prefix = flower_query_model(w, n - 1);
        match (w.flowers[n - 1], w.positions[n - 1]) {
            (Some(f), Some(p)) => prefix.push(((n - 1) as EntityId, f, p)),
            _ => prefix,
        }
    }
}

/// The store hands back the last value written: updating the slot of entity
/// `e` makes the typed lookup of `e` yield exactly that value, and leaves the
/// slot of every other entity untouched.  This holds for each component arena
/// (the writers' contracts all update the arena this way).
pub proof fn lemma_get_returns_last_write<T>(arena: Seq<Option<T>>, e: int, v: T)
    requires
        0 <= e < arena.len(),
    ensures
        arena.update(e, Some(v))[e] == Some(v),
        forall|j: int|
            0 <= j < arena.len() && j != e ==> arena.update(e, Some(v))[j] == arena[j],
{
}

} // verus!
