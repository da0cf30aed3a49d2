//! Wire-level records exchanged between the authoritative host and its observers.

use crate::entity::entity_index;
use bevy::prelude::Entity;
use vstd::prelude::*;

verus! {

/// A real number carried by its IEEE-754 single-precision bit pattern.
///
/// The simulation's arithmetic happens outside this crate; here a scalar is
/// only stored, moved and handed back unchanged.
#[derive(Clone, Copy, Debug, PartialEq, Eq, Structural)]
pub struct Scalar(pub u32);

/// A pair of scalars: a point or a direction in the plane.
#[derive(Clone, Copy, Debug, PartialEq, Eq, Structural)]
pub struct Vector {
    pub x: Scalar,
    pub y: Scalar,
}

/// Identifier under which the host announces an entity to its observers.
#[derive(Clone, Copy, Debug, PartialEq, Eq, Hash, Structural)]
pub struct EntityId(pub u32);

impl EntityId {
    /// The network identifier of a host-side entity: its index.
    pub fn new(entity: Entity) -> (id: Self)
        ensures
            id.0 == entity_index(entity),
    {
        EntityId(entity.index())
    }
}

/// Position of a broadcast in the host's monotonically increasing tick sequence.
#[derive(Clone, Copy, Debug, PartialEq, Eq, Structural)]
pub struct Tick(pub u64);

impl Tick {
    /// Wraps a raw tick number.
    pub fn new(tick: u64) -> (result: Self)
        ensures
            result.0 == tick,
    {
        Tick(tick)
    }
}

/// Kinematic state and energy of one cell at one instant.
#[derive(Clone, Copy, Debug, PartialEq, Eq, Structural)]
pub struct CellState {
    pub position: Vector,
    pub velocity: Vector,
    pub force: Vector,
    pub rotation: Scalar,
    pub angular_velocity: Scalar,
    pub angular_force: Scalar,
    pub energy: Scalar,
}

impl CellState {
    /// Assembles a state record from its seven components.
    pub fn new(
        position: Vector,
        velocity: Vector,
        force: Vector,
        rotation: Scalar,
        angular_velocity: Scalar,
        angular_force: Scalar,
        energy: Scalar,
    ) -> (state: Self)
        ensures
            state == (CellState {
                position,
                velocity,
                force,
                rotation,
                angular_velocity,
                angular_force,
                energy,
            }),
    {
        CellState {
            position,
            velocity,
            force,
            rotation,
            angular_velocity,
            angular_force,
            energy,
        }
    }
}

/// Body geometry of a cell: where its flagella and eyes are mounted.
#[derive(Clone, Debug, PartialEq, Eq)]
pub struct CellParams {
    /// One `(mount angle, attach angle)` pair per flagellum.
    pub flagella_params: Vec<(Scalar, Scalar)>,
    /// One mount angle per eye.
    pub eye_params: Vec<Scalar>,
}

impl CellParams {
    /// Assembles the geometry record from the two mount lists.
    pub fn new(flagella_params: Vec<(Scalar, Scalar)>, eye_params: Vec<Scalar>) -> (params: Self)
        ensures
            params.flagella_params == flagella_params,
            params.eye_params == eye_params,
    {
        CellParams { flagella_params, eye_params }
    }
}

/// Everything the host ever tells an observer.
#[derive(Clone, Debug, PartialEq, Eq)]
pub enum ServerMessage {
    /// State of a known cell at a tick; sent unreliably, every tick.
    CellUpdate(Tick, EntityId, CellState),
    /// A cell came into being (or is part of the snapshot sent on connect).
    CellSpawn(EntityId, CellParams, CellState),
    /// A cell was removed.
    CellDespawn(EntityId),
    /// A food item appeared at a position.
    FoodSpawn(EntityId, Vector),
    /// A food item was removed.
    FoodDespawn(EntityId),
}

impl ServerMessage {
    /// The per-tick state broadcast for one cell.
    pub fn cell_update(tick: u64, entity: Entity, state: CellState) -> (message: Self)
        ensures
            message == ServerMessage::CellUpdate(Tick(tick), EntityId(entity_index(entity)), state),
    {
        ServerMessage::CellUpdate(Tick::new(tick), EntityId::new(entity), state)
    }

    /// The announcement of a cell with its geometry and current state.
    pub fn cell_spawn(entity: Entity, params: CellParams, state: CellState) -> (message: Self)
        ensures
            message == ServerMessage::CellSpawn(EntityId(entity_index(entity)), params, state),
    {
        ServerMessage::CellSpawn(EntityId::new(entity), params, state)
    }

    /// The announcement that a cell is gone.
    pub fn cell_despawn(entity: Entity) -> (message: Self)
        ensures
            message == ServerMessage::CellDespawn(EntityId(entity_index(entity))),
    {
        ServerMessage::CellDespawn(EntityId::new(entity))
    }

    /// The announcement of a food item at `position`.
    pub fn food_spawn(entity: Entity, position: Vector) -> (message: Self)
        ensures
            message == ServerMessage::FoodSpawn(EntityId(entity_index(entity)), position),
    {
        ServerMessage::FoodSpawn(EntityId::new(entity), position)
    }

    /// The announcement that a food item is gone.
    pub fn food_despawn(entity: Entity) -> (message: Self)
        ensures
            message == ServerMessage::FoodDespawn(EntityId(entity_index(entity))),
    {
        ServerMessage::FoodDespawn(EntityId::new(entity))
    }
}

} // verus!
