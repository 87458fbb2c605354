//! Authoritative core of a client-server state-synchronization layer for a
//! simple 2D simulation.
//!
//! The transport (socket handling, handshake, snapshot delivery) and the
//! rendering host are external collaborators: they hand this core plain
//! connect/disconnect/intent events and mirror the replicated state back to
//! clients.  Everything the core decides -- which session owns which entity,
//! which intents are applied, and where each entity ends up -- lives here and
//! is verified.

use vstd::prelude::*;

pub mod numeric;
pub mod vector;
pub mod floatbits;
pub mod ownership;
pub mod world;
pub mod intent;
pub mod movement;
pub mod events;
pub mod replication;
pub mod laws;

verus! {

/// Opaque identifier the transport assigns to a connected session.
pub type SessionId = u64;

/// Stable arena key of an owned entity.
pub type EntityKey = usize;

/// Session identity of the locally hosted player: a process that runs the
/// server and a player in one treats its own input as coming from this
/// session, with no network delivery involved.
pub const LOCAL_SESSION: SessionId = 0;

/// Faults that indicate the ownership relation and the lifecycle handling
/// have diverged.  They are surfaced to the caller, never swallowed.
#[derive(Clone, Copy, Debug, PartialEq, Eq, Structural)]
pub enum OwnershipError {
    /// A bind was attempted for a session or an entity that already has a
    /// binding.
    AlreadyBound,
    /// An unbind was attempted for a session that has no binding.
    NotFound,
}

} // verus!
