//! Verified core of a real-time artificial-life simulation.
//!
//! Cells with evolvable controllers compete for food in a continuous world
//! whose authoritative state is replicated from one host to any number of
//! observers.  This crate holds the parts of that system whose behaviour is
//! decided by integers, flags and handles: the wire records, the two-phase
//! despawn queue, the host's reliable outbound queue and per-tick broadcast,
//! the observer's message handling with its staleness guard, and the
//! bookkeeping rules of the cell life cycle.  Every function carries a
//! contract that is proved against a mathematical model of its data.
//!
//! Real-valued quantities (positions, energies, angles, weights) are carried
//! through as IEEE-754 bit patterns and are never interpreted here.

pub mod entity;
pub mod brain;
pub mod despawn;
pub mod host;
pub mod lifecycle;
pub mod messages;
pub mod observer;
