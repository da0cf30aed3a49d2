use bevy::prelude::Entity;
use cell_sim::despawn::DelayedDespawnQueue;
use cell_sim::host::{
    cell_spawn_handler, connect_event_handler, update_cells, CellRecord, FoodRecord, MessageQueue,
    Recipient, SendOutcome, TickCounter,
};
use cell_sim::lifecycle::despawn_cell;
use cell_sim::messages::{CellParams, CellState, EntityId, Scalar, ServerMessage, Vector};
use cell_sim::observer::{read_message, EntityMap, LastTickUpdated, Reaction};

fn state(energy: f32) -> CellState {
    CellState::new(
        Vector { x: Scalar(0), y: Scalar(0) },
        Vector { x: Scalar(0), y: Scalar(0) },
        Vector { x: Scalar(0), y: Scalar(0) },
        Scalar(0),
        Scalar(0),
        Scalar(0),
        Scalar(energy.to_bits()),
    )
}

fn cell(index: u32, energy: f32) -> CellRecord {
    CellRecord {
        entity: Entity::from_raw(index),
        params: CellParams::new(Vec::new(), Vec::new()),
        state: state(energy),
    }
}

/// An observer's world, reduced to what replication touches.
struct Mirror {
    map: EntityMap,
    queue: DelayedDespawnQueue,
    guards: Vec<(Entity, LastTickUpdated)>,
    energies: Vec<(Entity, f32)>,
    next_local: u32,
}

impl Mirror {
    fn new() -> Self {
        Mirror {
            map: EntityMap::new(),
            queue: DelayedDespawnQueue::new(),
            guards: Vec::new(),
            energies: Vec::new(),
            next_local: 1000,
        }
    }

    fn spawn(&mut self) -> Entity {
        self.next_local += 1;
        Entity::from_raw(self.next_local)
    }

    fn receive(&mut self, message: ServerMessage) {
        match read_message(&mut self.queue, &mut self.map, message) {
            Reaction::Nothing => {}
            Reaction::SpawnCell { id, state, .. } => {
                let entity = self.spawn();
                self.guards.push((entity, LastTickUpdated::new()));
                self.energies.push((entity, f32::from_bits(state.energy.0)));
                self.map.insert(id, entity);
            }
            Reaction::SpawnFood { id, .. } => {
                let entity = self.spawn();
                self.map.insert(id, entity);
            }
            Reaction::UpdateCell { entity, tick, state } => {
                let guard = self.guards.iter_mut().find(|(e, _)| *e == entity).unwrap();
                if guard.1.accept(tick) {
                    let energy = self.energies.iter_mut().find(|(e, _)| *e == entity).unwrap();
                    energy.1 = f32::from_bits(state.energy.0);
                }
            }
            Reaction::CellDespawned(_) | Reaction::FoodDespawned(_) => {}
        }
    }

    fn energy_of(&self, id: u32) -> Option<f32> {
        let entity = self.map.get(EntityId(id))?;
        self.energies.iter().find(|(e, _)| *e == entity).map(|(_, energy)| *energy)
    }
}

fn deliver_reliable(queue: &mut MessageQueue, client: u64, mirror: &mut Mirror) {
    while let Some((message, recipient)) = queue.front() {
        if *recipient == Recipient::Broadcast || *recipient == Recipient::User(client) {
            mirror.receive(message.clone());
        }
        queue.settle(SendOutcome::Sent);
    }
}

#[test]
fn observer_mirrors_the_host_through_connect_update_and_despawn() {
    let mut outbox = MessageQueue::new();
    let mut tick = TickCounter(0);
    let mut mirror = Mirror::new();

    // the observer connects to a world of two cells and one food item
    connect_event_handler(
        &mut outbox,
        7,
        vec![cell(1, 50.0), cell(2, 60.0)],
        vec![FoodRecord { entity: Entity::from_raw(3), position: Vector { x: Scalar(0), y: Scalar(0) } }],
    );
    // the cells are also announced to everybody as new: the observer gets them twice
    cell_spawn_handler(&mut outbox, vec![cell(1, 50.0), cell(2, 60.0)], Vec::new());
    deliver_reliable(&mut outbox, 7, &mut mirror);
    assert!(mirror.map.contains_key(EntityId(1)));
    assert!(mirror.map.contains_key(EntityId(2)));
    assert!(mirror.map.contains_key(EntityId(3)));
    assert_eq!(mirror.guards.len(), 2);
    assert_eq!(mirror.energy_of(1), Some(50.0));

    // three rounds of state, delivered out of order and one of them twice
    let mut rounds = Vec::new();
    for energy in [51.0f32, 52.0, 53.0] {
        rounds.push(update_cells(&mut tick, vec![(Entity::from_raw(1), state(energy))]));
    }
    assert_eq!(tick, TickCounter(3));
    for round in [1usize, 0, 2, 2, 1] {
        for message in rounds[round].clone() {
            mirror.receive(message);
        }
    }
    assert_eq!(mirror.energy_of(1), Some(53.0));
    assert_eq!(mirror.energy_of(2), Some(60.0));

    // the host marks cell 1 for removal and tells everybody
    let mut host_queue = DelayedDespawnQueue::new();
    let event = despawn_cell(&mut host_queue, Entity::from_raw(1));
    cell_spawn_handler(&mut outbox, Vec::new(), vec![event]);
    deliver_reliable(&mut outbox, 7, &mut mirror);
    assert!(!mirror.map.contains_key(EntityId(1)));
    assert!(mirror.map.contains_key(EntityId(2)));
    // a state broadcast that was still on its way is dropped
    for message in update_cells(&mut tick, vec![(Entity::from_raw(1), state(1.0))]) {
        mirror.receive(message);
    }
    assert_eq!(mirror.energy_of(1), None);
    // the mirror of the cell goes with the observer's second flush
    assert_eq!(mirror.queue.despawn(), Vec::<Entity>::new());
    assert_eq!(mirror.queue.despawn().len(), 1);
}

#[test]
fn tick_zero_state_is_never_applied_to_a_fresh_mirror() {
    // the first round of the host is tagged 0, the guard of a fresh cell
    // tracks 0: that round is stale by definition
    let mut tick = TickCounter(0);
    let mut mirror = Mirror::new();
    mirror.receive(ServerMessage::cell_spawn(
        Entity::from_raw(1),
        CellParams::new(Vec::new(), Vec::new()),
        state(5.0),
    ));
    for message in update_cells(&mut tick, vec![(Entity::from_raw(1), state(6.0))]) {
        mirror.receive(message);
    }
    assert_eq!(mirror.energy_of(1), Some(5.0));
    for message in update_cells(&mut tick, vec![(Entity::from_raw(1), state(7.0))]) {
        mirror.receive(message);
    }
    assert_eq!(mirror.energy_of(1), Some(7.0));
}
