//! Bookkeeping rules of the energy economy: who dies, who divides, who eats.
//!
//! The energy values themselves are real numbers and are compared outside
//! this crate.  What is decided here is what follows from a comparison: the
//! flag that makes a division or a meal happen once, the mark in the despawn
//! queue, the event that announces it, and the population cap.

use crate::despawn::DelayedDespawnQueue;
use bevy::prelude::Entity;
use vstd::prelude::*;

verus! {

/// Population at or above which a dividing cell leaves one child instead of two.
pub const MAX_CELL_COUNT: usize = 2000;

/// Announces that a cell was marked for removal.
#[derive(Clone, Copy, Debug, PartialEq, Eq)]
pub struct CellDespawnEvent(pub Entity);

/// Announces that a food item was marked for removal.
#[derive(Clone, Copy, Debug, PartialEq, Eq)]
pub struct FoodDespawnEvent(pub Entity);

/// Set once an entity has been used up: a cell that has divided, a food item
/// that has been eaten.  Such an entity still exists until the despawn queue
/// flushes it, but takes no further part in dividing or being eaten.
#[derive(Clone, Copy, Debug, PartialEq, Eq, Structural)]
pub struct Dead(pub bool);

/// Number of cells alive, as the spawning and despawning code keeps it.
#[derive(Clone, Copy, Debug, PartialEq, Eq, Structural)]
pub struct CellCount(pub usize);

impl CellCount {
    /// Records one spawned cell.  The count stops at the largest machine value.
    pub fn spawned(&mut self)
        ensures
            final(self).0 == (if old(self).0 < usize::MAX { old(self).0 + 1 } else { usize::MAX as int }),
    {
        if self.0 < usize::MAX {
            self.0 = self.0 + 1;
        }
    }

    /// Records one despawned cell.  The count stops at zero.
    pub fn despawned(&mut self)
        ensures
            final(self).0 == (if old(self).0 > 0 { old(self).0 - 1 } else { 0 }),
    {
        if self.0 > 0 {
            self.0 = self.0 - 1;
        }
    }

    /// Whether the population cap is reached.
    pub fn at_capacity(&self) -> (reached: bool)
        ensures
            reached == (self.0 >= MAX_CELL_COUNT),
    {
        self.0 >= MAX_CELL_COUNT
    }
}

/// Marks a cell for removal and returns the event that announces it.
pub fn despawn_cell(despawn_queue: &mut DelayedDespawnQueue, cell_entity: Entity) -> (event:
    CellDespawnEvent)
    ensures
        final(despawn_queue)@ == old(despawn_queue)@.add(cell_entity),
        event.0 == cell_entity,
{
    despawn_queue.add(cell_entity);
    CellDespawnEvent(cell_entity)
}

/// Marks a food item for removal and returns the event that announces it.
pub fn despawn_food(despawn_queue: &mut DelayedDespawnQueue, food_entity: Entity) -> (event:
    FoodDespawnEvent)
    ensures
        final(despawn_queue)@ == old(despawn_queue)@.add(food_entity),
        event.0 == food_entity,
{
    despawn_queue.add(food_entity);
    FoodDespawnEvent(food_entity)
}

/// Whether a use-once action fires: its condition holds and the entity has
/// not been used up yet.
pub open spec fn fires(condition: bool, dead: Dead) -> bool {
    condition && !dead.0
}

/// A cell probes a food item it overlaps.
///
/// The first probe of an uneaten item by a cell that has not been used up
/// claims the item: it is flagged, marked for removal, and the returned event
/// entitles the cell to the reward.  A used-up cell eats nothing, and every
/// probe of an item that is already flagged changes nothing.
pub fn eat_food(
    eater: &Dead,
    eaten: &mut Dead,
    despawn_queue: &mut DelayedDespawnQueue,
    food_entity: Entity,
) -> (meal: Option<FoodDespawnEvent>)
    ensures
        meal is Some <==> fires(!eater.0, *old(eaten)),
        meal matches Some(event) ==> event.0 == food_entity,
        final(eaten).0 == (old(eaten).0 || !eater.0),
        final(despawn_queue)@ == (if fires(!eater.0, *old(eaten)) {
            old(despawn_queue)@.add(food_entity)
        } else {
            old(despawn_queue)@
        }),
{
    if eater.0 || eaten.0 {
        None
    } else {
        eaten.0 = true;
        Some(despawn_food(despawn_queue, food_entity))
    }
}

/// A cell whose energy was compared with its split threshold (`ripe` is the
/// outcome) is given the chance to divide.
///
/// A ripe cell that has not divided before is flagged and marked for removal;
/// the returned event tells the caller to spawn its offspring.  A cell that is
/// not ripe, or has divided already, is left as it is.
pub fn begin_split(
    dead: &mut Dead,
    ripe: bool,
    despawn_queue: &mut DelayedDespawnQueue,
    cell_entity: Entity,
) -> (parent: Option<CellDespawnEvent>)
    ensures
        parent is Some <==> fires(ripe, *old(dead)),
        parent matches Some(event) ==> event.0 == cell_entity,
        final(dead).0 == (old(dead).0 || ripe),
        final(despawn_queue)@ == (if fires(ripe, *old(dead)) {
            old(despawn_queue)@.add(cell_entity)
        } else {
            old(despawn_queue)@
        }),
{
    if ripe && !dead.0 {
        dead.0 = true;
        Some(despawn_cell(despawn_queue, cell_entity))
    } else {
        None
    }
}

/// How many children a dividing cell leaves.  The first child always spawns;
/// the second only while the population, counted after the first, is below
/// the cap.
pub open spec fn offspring(count_after_first: CellCount) -> nat {
    if count_after_first.0 >= MAX_CELL_COUNT {
        1
    } else {
        2
    }
}

/// Whether the second child of a division may spawn, given the population
/// count after the first child was recorded.
pub fn second_child_allowed(count_after_first: &CellCount) -> (allowed: bool)
    ensures
        allowed == (offspring(*count_after_first) == 2),
        allowed == (count_after_first.0 < MAX_CELL_COUNT),
{
    !count_after_first.at_capacity()
}

/// A use-once action fires at most once: after it has fired, the flag is set,
/// and with the flag set it cannot fire again, whatever the condition.
pub proof fn lemma_fires_at_most_once(first: bool, second: bool, dead: Dead)
    requires
        fires(first, dead),
    ensures
        !fires(second, Dead(dead.0 || first)),
{
}

} // verus!
