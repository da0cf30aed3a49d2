//! The engine's entity handle, as far as this crate needs to know it.

use bevy::prelude::Entity;
use vstd::prelude::*;

verus! {

/// `bevy::prelude::Entity`: an opaque handle to one entity of the engine's
/// world.  Values are carried through; nothing is known of their fields.
#[verifier::external_type_specification]
#[verifier::external_body]
pub struct ExEntity(Entity);

/// The index that `Entity::index` reports for a handle.
pub uninterp spec fn entity_index(entity: Entity) -> u32;

/// `Entity::index` reads the handle's index field.  The contract only names
/// that value: equal handles have equal indices.
pub assume_specification[ Entity::index ](entity: Entity) -> (index: u32)
    ensures
        index == entity_index(entity),
;

} // verus!
