//! An observer's side of replication.
//!
//! The observer mirrors the host's world.  It keeps a table from the host's
//! identifiers to its own entities, reacts to each message of the host by
//! telling its world what to do, and protects every replicated cell against
//! state that arrives late or twice.

use crate::despawn::{DelayedDespawnQueue, DespawnQueueView};
use crate::lifecycle::{despawn_cell, despawn_food, CellDespawnEvent, FoodDespawnEvent};
use crate::messages::{CellParams, CellState, EntityId, ServerMessage, Tick, Vector};
use bevy::prelude::Entity;
use vstd::prelude::*;

verus! {

/// Table from the host's identifiers to the observer's own entities.
///
/// It holds a `bevy::utils::HashMap`, the engine's hash map, whose contents
/// Verus cannot see; everything known about it is what the functions below
/// that touch the map state about [`entity_map_entries`].
#[verifier::external_body]
pub struct EntityMap {
    map: bevy::utils::HashMap<EntityId, Entity>,
}

/// The key-value pairs that the table holds.
pub uninterp spec fn entity_map_entries(map: EntityMap) -> Map<EntityId, Entity>;

impl View for EntityMap {
    type V = Map<EntityId, Entity>;

    open spec fn view(&self) -> Map<EntityId, Entity> {
        entity_map_entries(*self)
    }
}

/// `HashMap::default`: a map without entries.
#[verifier::external_body]
fn map_default() -> (table: EntityMap)
    ensures
        forall|id: EntityId| !entity_map_entries(table).contains_key(id),
{
    EntityMap { map: bevy::utils::HashMap::default() }
}

/// `HashMap::get`: the value stored under `id`, if there is one.  The handle
/// is copied out of the map.
#[verifier::external_body]
fn map_get(map: &EntityMap, id: EntityId) -> (found: Option<Entity>)
    ensures
        found == (if entity_map_entries(*map).contains_key(id) {
            Some(entity_map_entries(*map)[id])
        } else {
            None
        }),
{
    map.map.get(&id).copied()
}

/// `HashMap::contains_key`: whether a value is stored under `id`.
#[verifier::external_body]
fn map_contains_key(map: &EntityMap, id: EntityId) -> (known: bool)
    ensures
        known == entity_map_entries(*map).contains_key(id),
{
    map.map.contains_key(&id)
}

/// `HashMap::insert`: stores `entity` under `id`, replacing what was stored
/// there, and returns the value that was replaced.
#[verifier::external_body]
fn map_insert(map: &mut EntityMap, id: EntityId, entity: Entity) -> (replaced: Option<Entity>)
    ensures
        entity_map_entries(*final(map)) == entity_map_entries(*old(map)).insert(id, entity),
        replaced == (if entity_map_entries(*old(map)).contains_key(id) {
            Some(entity_map_entries(*old(map))[id])
        } else {
            None
        }),
{
    map.map.insert(id, entity)
}

/// `HashMap::remove`: removes the entry under `id` and returns its value, if
/// there was one.
#[verifier::external_body]
fn map_remove(map: &mut EntityMap, id: EntityId) -> (removed: Option<Entity>)
    ensures
        entity_map_entries(*final(map)) == entity_map_entries(*old(map)).remove(id),
        removed == (if entity_map_entries(*old(map)).contains_key(id) {
            Some(entity_map_entries(*old(map))[id])
        } else {
            None
        }),
{
    map.map.remove(&id)
}

impl EntityMap {
    /// A table without entries.
    pub fn new() -> (map: Self)
        ensures
            map@ == Map::<EntityId, Entity>::empty(),
    {
        let map = map_default();
        assert(map@ =~= Map::<EntityId, Entity>::empty());
        map
    }

    /// The observer's entity that mirrors the host's `id`, if it is known.
    pub fn get(&self, id: EntityId) -> (found: Option<Entity>)
        ensures
            found == (if self@.contains_key(id) {
                Some(self@[id])
            } else {
                None
            }),
    {
        map_get(self, id)
    }

    /// Whether the host's `id` is mirrored here.
    pub fn contains_key(&self, id: EntityId) -> (known: bool)
        ensures
            known == self@.contains_key(id),
    {
        map_contains_key(self, id)
    }

    /// Records that `entity` mirrors the host's `id`, after the world has
    /// spawned it.  Returns the entity that mirrored `id` before, if any.
    pub fn insert(&mut self, id: EntityId, entity: Entity) -> (replaced: Option<Entity>)
        ensures
            final(self)@ == old(self)@.insert(id, entity),
            replaced == (if old(self)@.contains_key(id) {
                Some(old(self)@[id])
            } else {
                None
            }),
    {
        map_insert(self, id, entity)
    }
}

/// What the observer's world has to do in response to one message.
#[derive(Debug, PartialEq, Eq)]
pub enum Reaction {
    /// Nothing: the message was redundant or spoke of an unknown entity.
    Nothing,
    /// Spawn a cell, then record it in the table under `id`.
    SpawnCell { id: EntityId, params: CellParams, state: CellState },
    /// Spawn a food item, then record it in the table under `id`.
    SpawnFood { id: EntityId, position: Vector },
    /// Offer `state` to `entity`; it is applied if `tick` passes the
    /// entity's staleness guard.
    UpdateCell { entity: Entity, tick: Tick, state: CellState },
    /// A cell left the table and was marked for removal; announce it.
    CellDespawned(CellDespawnEvent),
    /// A food item left the table and was marked for removal; announce it.
    FoodDespawned(FoodDespawnEvent),
}

/// The observer's reaction to `message` when its table holds `map`.
pub open spec fn reaction_to(map: Map<EntityId, Entity>, message: ServerMessage) -> Reaction {
    match message {
        ServerMessage::CellUpdate(tick, id, state) => if map.contains_key(id) {
            Reaction::UpdateCell { entity: map[id], tick, state }
        } else {
            Reaction::Nothing
        },
        ServerMessage::CellSpawn(id, params, state) => if map.contains_key(id) {
            Reaction::Nothing
        } else {
            Reaction::SpawnCell { id, params, state }
        },
        ServerMessage::CellDespawn(id) => if map.contains_key(id) {
            Reaction::CellDespawned(CellDespawnEvent(map[id]))
        } else {
            Reaction::Nothing
        },
        ServerMessage::FoodSpawn(id, position) => if map.contains_key(id) {
            Reaction::Nothing
        } else {
            Reaction::SpawnFood { id, position }
        },
        ServerMessage::FoodDespawn(id) => if map.contains_key(id) {
            Reaction::FoodDespawned(FoodDespawnEvent(map[id]))
        } else {
            Reaction::Nothing
        },
    }
}

/// The table after `message` was handled: a despawn forgets its entity, every
/// other message leaves the table alone.
pub open spec fn table_after(map: Map<EntityId, Entity>, message: ServerMessage) -> Map<
    EntityId,
    Entity,
> {
    match message {
        ServerMessage::CellDespawn(id) => map.remove(id),
        ServerMessage::FoodDespawn(id) => map.remove(id),
        _ => map,
    }
}

/// The despawn queue after `message` was handled: a despawn of a known entity
/// marks the observer's mirror of it, every other message marks nothing.
pub open spec fn queue_after(
    queue: DespawnQueueView,
    map: Map<EntityId, Entity>,
    message: ServerMessage,
) -> DespawnQueueView {
    match message {
        ServerMessage::CellDespawn(id) => if map.contains_key(id) {
            queue.add(map[id])
        } else {
            queue
        },
        ServerMessage::FoodDespawn(id) => if map.contains_key(id) {
            queue.add(map[id])
        } else {
            queue
        },
        _ => queue,
    }
}

/// Handles the announcement of a cell: a cell that is already mirrored is
/// not spawned again.
pub fn cell_spawn_handler(
    entity_map: &EntityMap,
    entity: EntityId,
    cell_params: CellParams,
    cell_state: CellState,
) -> (reaction: Reaction)
    ensures
        reaction == reaction_to(entity_map@, ServerMessage::CellSpawn(entity, cell_params, cell_state)),
{
    if entity_map.contains_key(entity) {
        Reaction::Nothing
    } else {
        Reaction::SpawnCell { id: entity, params: cell_params, state: cell_state }
    }
}

/// Handles the removal of a cell: its mirror leaves the table and is marked
/// in the despawn queue.  An unknown identifier changes nothing.
pub fn cell_despawn_handler(
    despawn_queue: &mut DelayedDespawnQueue,
    entity_map: &mut EntityMap,
    entity: EntityId,
) -> (reaction: Reaction)
    ensures
        reaction == reaction_to(old(entity_map)@, ServerMessage::CellDespawn(entity)),
        final(entity_map)@ == old(entity_map)@.remove(entity),
        final(despawn_queue)@ == queue_after(
            old(despawn_queue)@,
            old(entity_map)@,
            ServerMessage::CellDespawn(entity),
        ),
{
    match map_remove(entity_map, entity) {
        Some(cell_entity) => Reaction::CellDespawned(despawn_cell(despawn_queue, cell_entity)),
        None => Reaction::Nothing,
    }
}

/// Handles the announcement of a food item: an item that is already mirrored
/// is not spawned again.
pub fn food_spawn_handler(entity_map: &EntityMap, entity: EntityId, position: Vector) -> (reaction:
    Reaction)
    ensures
        reaction == reaction_to(entity_map@, ServerMessage::FoodSpawn(entity, position)),
{
    if entity_map.contains_key(entity) {
        Reaction::Nothing
    } else {
        Reaction::SpawnFood { id: entity, position }
    }
}

/// Handles the removal of a food item: its mirror leaves the table and is
/// marked in the despawn queue.  An unknown identifier changes nothing.
pub fn food_despawn_handler(
    despawn_queue: &mut DelayedDespawnQueue,
    entity_map: &mut EntityMap,
    entity: EntityId,
) -> (reaction: Reaction)
    ensures
        reaction == reaction_to(old(entity_map)@, ServerMessage::FoodDespawn(entity)),
        final(entity_map)@ == old(entity_map)@.remove(entity),
        final(despawn_queue)@ == queue_after(
            old(despawn_queue)@,
            old(entity_map)@,
            ServerMessage::FoodDespawn(entity),
        ),
{
    match map_remove(entity_map, entity) {
        Some(food_entity) => Reaction::FoodDespawned(despawn_food(despawn_queue, food_entity)),
        None => Reaction::Nothing,
    }
}

/// Handles a state broadcast: finds the mirror of the cell it speaks of.  The
/// state is then offered to that entity's staleness guard.  An unknown
/// identifier changes nothing.
pub fn cell_update_handler(
    entity_map: &EntityMap,
    tick: Tick,
    entity: EntityId,
    cell_state: CellState,
) -> (reaction: Reaction)
    ensures
        reaction == reaction_to(entity_map@, ServerMessage::CellUpdate(tick, entity, cell_state)),
{
    match entity_map.get(entity) {
        Some(cell_entity) => Reaction::UpdateCell { entity: cell_entity, tick, state: cell_state },
        None => Reaction::Nothing,
    }
}

/// Handles one message received from the host.
pub fn read_message(
    despawn_queue: &mut DelayedDespawnQueue,
    entity_map: &mut EntityMap,
    message: ServerMessage,
) -> (reaction: Reaction)
    ensures
        reaction == reaction_to(old(entity_map)@, message),
        final(entity_map)@ == table_after(old(entity_map)@, message),
        final(despawn_queue)@ == queue_after(old(despawn_queue)@, old(entity_map)@, message),
{
    match message {
        ServerMessage::CellUpdate(tick, entity, cell_state) => cell_update_handler(
            entity_map,
            tick,
            entity,
            cell_state,
        ),
        ServerMessage::CellSpawn(entity, cell_params, cell_state) => cell_spawn_handler(
            entity_map,
            entity,
            cell_params,
            cell_state,
        ),
        ServerMessage::CellDespawn(entity) => cell_despawn_handler(despawn_queue, entity_map, entity),
        ServerMessage::FoodSpawn(entity, position) => food_spawn_handler(entity_map, entity, position),
        ServerMessage::FoodDespawn(entity) => food_despawn_handler(despawn_queue, entity_map, entity),
    }
}

/// Staleness guard of one replicated cell: the tick of the last state that
/// was applied to it.
#[derive(Clone, Copy, Debug, PartialEq, Eq, Structural)]
pub struct LastTickUpdated(pub u64);

/// Whether a state tagged `tick` is applied to a cell whose last applied
/// state was tagged `last`: only if it is strictly newer.
pub open spec fn is_fresh(last: u64, tick: u64) -> bool {
    tick > last
}

/// The tick a guard tracks after it was offered the ticks of `offered`, one
/// after the other, starting from `last`.
pub open spec fn tracked_after(last: u64, offered: Seq<u64>) -> u64
    decreases offered.len(),
{
    if offered.len() == 0 {
        last
    } else if is_fresh(last, offered[0]) {
        tracked_after(offered[0], offered.drop_first())
    } else {
        tracked_after(last, offered.drop_first())
    }
}

/// The ticks among `offered` whose state was applied, in the order of their
/// arrival, for a guard starting from `last`.
pub open spec fn applied_of(last: u64, offered: Seq<u64>) -> Seq<u64>
    decreases offered.len(),
{
    if offered.len() == 0 {
        Seq::empty()
    } else if is_fresh(last, offered[0]) {
        seq![offered[0]] + applied_of(offered[0], offered.drop_first())
    } else {
        applied_of(last, offered.drop_first())
    }
}

impl LastTickUpdated {
    /// The guard of a cell that has just been spawned: nothing applied yet.
    pub fn new() -> (guard: Self)
        ensures
            guard.0 == 0,
    {
        LastTickUpdated(0)
    }

    /// Offers a state tagged `tick`.  A strictly newer one is accepted and
    /// becomes the last applied; one that is as old as the last applied, or
    /// older, is discarded and leaves the guard as it was.
    pub fn accept(&mut self, tick: Tick) -> (fresh: bool)
        ensures
            fresh == is_fresh(old(self).0, tick.0),
            final(self).0 == tracked_after(old(self).0, seq![tick.0]),
            final(self).0 == (if fresh { tick.0 } else { old(self).0 }),
    {
        proof {
            let offered = seq![tick.0];
            assert(offered.drop_first().len() == 0);
            assert(tracked_after(self.0, offered) == if is_fresh(self.0, tick.0) {
                tracked_after(tick.0, offered.drop_first())
            } else {
                tracked_after(self.0, offered.drop_first())
            });
        }
        if tick.0 <= self.0 {
            false
        } else {
            self.0 = tick.0;
            true
        }
    }
}

/// Offering ticks one by one is offering them as one sequence.
pub proof fn lemma_tracked_after_push(last: u64, offered: Seq<u64>, tick: u64)
    ensures
        tracked_after(last, offered.push(tick)) == tracked_after(
            tracked_after(last, offered),
            seq![tick],
        ),
        applied_of(last, offered.push(tick)) == applied_of(last, offered) + applied_of(
            tracked_after(last, offered),
            seq![tick],
        ),
    decreases offered.len(),
{
    let single = seq![tick];
    assert(single.drop_first() == Seq::<u64>::empty());
    assert(single[0] == tick);
    if offered.len() == 0 {
        assert(offered.push(tick) == single);
        assert(Seq::<u64>::empty() + applied_of(last, single) == applied_of(last, single));
    } else {
        let next = if is_fresh(last, offered[0]) {
            offered[0]
        } else {
            last
        };
        assert(offered.push(tick).drop_first() == offered.drop_first().push(tick));
        assert(offered.push(tick)[0] == offered[0]);
        lemma_tracked_after_push(next, offered.drop_first(), tick);
        if is_fresh(last, offered[0]) {
            assert(seq![offered[0]] + (applied_of(next, offered.drop_first()) + applied_of(
                tracked_after(next, offered.drop_first()),
                single,
            )) == (seq![offered[0]] + applied_of(next, offered.drop_first())) + applied_of(
                tracked_after(next, offered.drop_first()),
                single,
            ));
        }
    }
}

/// The guard never moves backwards, and what it tracks in the end is the
/// newest tick it has ever seen: the largest of its starting tick and all
/// ticks offered, in whatever order and however often they arrived.
pub proof fn lemma_tracked_tick_is_newest(last: u64, offered: Seq<u64>)
    ensures
        tracked_after(last, offered) >= last,
        forall|i: int| 0 <= i < offered.len() ==> tracked_after(last, offered) >= offered[i],
        tracked_after(last, offered) == last || offered.contains(tracked_after(last, offered)),
    decreases offered.len(),
{
    if offered.len() > 0 {
        let next = if is_fresh(last, offered[0]) {
            offered[0]
        } else {
            last
        };
        let rest = offered.drop_first();
        lemma_tracked_tick_is_newest(next, rest);
        let end = tracked_after(last, offered);
        assert(end == tracked_after(next, rest));
        assert forall|i: int| 0 <= i < offered.len() implies end >= offered[i] by {
            if i > 0 {
                assert(offered[i] == rest[i - 1]);
            }
        }
        if end != last {
            if end == next {
                assert(offered[0] == end);
            } else {
                let j = choose|j: int| 0 <= j < rest.len() && rest[j] == end;
                assert(offered[j + 1] == end);
            }
        }
    }
}

/// The applied ticks are strictly increasing and all newer than the tick the
/// guard started from: no state is applied twice, none after a newer one.
pub proof fn lemma_applied_ticks_increase(last: u64, offered: Seq<u64>)
    ensures
        forall|i: int| 0 <= i < applied_of(last, offered).len() ==> applied_of(last, offered)[i] > last,
        forall|i: int, j: int|
            0 <= i < j < applied_of(last, offered).len() ==> applied_of(last, offered)[i]
                < applied_of(last, offered)[j],
        applied_of(last, offered).len() == 0 ==> tracked_after(last, offered) == last,
        applied_of(last, offered).len() > 0 ==> tracked_after(last, offered) == applied_of(
            last,
            offered,
        ).last(),
    decreases offered.len(),
{
    if offered.len() > 0 {
        let rest = offered.drop_first();
        if is_fresh(last, offered[0]) {
            lemma_applied_ticks_increase(offered[0], rest);
            let tail = applied_of(offered[0], rest);
            let all = applied_of(last, offered);
            assert(all == seq![offered[0]] + tail);
            assert forall|i: int| 0 <= i < all.len() implies all[i] > last by {
                if i > 0 {
                    assert(all[i] == tail[i - 1]);
                }
            }
            assert forall|i: int, j: int| 0 <= i < j < all.len() implies all[i] < all[j] by {
                assert(all[j] == tail[j - 1]);
                if i > 0 {
                    assert(all[i] == tail[i - 1]);
                }
            }
            if tail.len() > 0 {
                assert(all.last() == tail.last());
            }
        } else {
            lemma_applied_ticks_increase(last, rest);
        }
    }
}

/// A duplicate is discarded: offering a tick again right after it was
/// applied changes nothing.
pub proof fn lemma_duplicate_is_discarded(last: u64, tick: u64)
    requires
        is_fresh(last, tick),
    ensures
        !is_fresh(tracked_after(last, seq![tick]), tick),
        tracked_after(last, seq![tick, tick]) == tracked_after(last, seq![tick]),
{
    let once = seq![tick];
    let twice = seq![tick, tick];
    assert(once.drop_first() == Seq::<u64>::empty());
    assert(twice.drop_first() == once);
    assert(tracked_after(last, once) == tracked_after(tick, once.drop_first()));
    assert(tracked_after(tick, once) == tracked_after(tick, once.drop_first()));
}

/// Nothing fresh is lost to the guard: states that arrive in the order of
/// their ticks, each newer than the one before and the first newer than what
/// the guard tracks, are all applied.
pub proof fn lemma_in_order_updates_all_apply(last: u64, offered: Seq<u64>)
    requires
        offered.len() > 0 ==> offered[0] > last,
        forall|i: int, j: int| 0 <= i < j < offered.len() ==> offered[i] < offered[j],
    ensures
        applied_of(last, offered) == offered,
    decreases offered.len(),
{
    if offered.len() > 0 {
        let rest = offered.drop_first();
        assert forall|i: int, j: int| 0 <= i < j < rest.len() implies rest[i] < rest[j] by {
            assert(rest[i] == offered[i + 1]);
            assert(rest[j] == offered[j + 1]);
        }
        if rest.len() > 0 {
            assert(rest[0] == offered[1]);
        }
        lemma_in_order_updates_all_apply(offered[0], rest);
        assert(seq![offered[0]] + rest == offered);
    }
}

/// A redundant spawn is filtered: once the world has spawned the mirror of
/// an announced cell or food item and recorded it, the same announcement
/// again asks for nothing and changes nothing.
pub proof fn lemma_redundant_spawn_is_filtered(
    map: Map<EntityId, Entity>,
    message: ServerMessage,
    mirror: Entity,
)
    requires
        message is CellSpawn || message is FoodSpawn,
    ensures
        ({
            let id = match message {
                ServerMessage::CellSpawn(id, _, _) => id,
                ServerMessage::FoodSpawn(id, _) => id,
                _ => arbitrary(),
            };
            let recorded = table_after(map, message).insert(id, mirror);
            &&& reaction_to(recorded, message) == Reaction::Nothing
            &&& table_after(recorded, message) == recorded
        }),
{
}

/// A despawned entity is forgotten: after the despawn of an identifier was
/// handled, a state broadcast or a second despawn that speaks of the same
/// identifier asks for nothing, changes nothing and marks nothing.
pub proof fn lemma_despawned_entity_is_forgotten(
    map: Map<EntityId, Entity>,
    queue: DespawnQueueView,
    id: EntityId,
    late: ServerMessage,
)
    requires
        late matches ServerMessage::CellUpdate(_, late_id, _) ==> late_id == id,
        late matches ServerMessage::CellDespawn(late_id) ==> late_id == id,
        late matches ServerMessage::FoodDespawn(late_id) ==> late_id == id,
        late is CellUpdate || late is CellDespawn || late is FoodDespawn,
    ensures
        ({
            let after_cell = table_after(map, ServerMessage::CellDespawn(id));
            let after_food = table_after(map, ServerMessage::FoodDespawn(id));
            &&& reaction_to(after_cell, late) == Reaction::Nothing
            &&& reaction_to(after_food, late) == Reaction::Nothing
            &&& table_after(after_cell, late) == after_cell
            &&& queue_after(queue, after_cell, late) == queue
            &&& queue_after(queue, after_food, late) == queue
        }),
{
    let after_cell = table_after(map, ServerMessage::CellDespawn(id));
    assert(!after_cell.contains_key(id));
    assert(after_cell.remove(id) =~= after_cell);
}

} // verus!
