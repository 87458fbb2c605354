//! Dispatch of transport events.
//!
//! The transport emits three kinds of notification; each has exactly one
//! handler, reached through `handle_event`.  Lifecycle defects -- a second
//! bind for one session, a disconnect with no prior connect -- are
//! surfaced to the caller; intent handling never fails.

use vstd::prelude::*;
use crate::{EntityKey, OwnershipError, SessionId};
use crate::intent::{apply_intent, intent_applied, Intent, IntentOutcome};
use crate::world::{connected_ok, despawn_player, disconnected_ok, spawn_player, unchanged, World};

verus! {

/// A notification or message the transport hands the core.
#[derive(Clone, Copy, Debug)]
pub enum ServerEvent {
    /// The transport accepted a new session.
    Connected { session: SessionId },
    /// A session was lost or closed.
    Disconnected { session: SessionId },
    /// A session sent a movement intent.
    Moved { intent: Intent },
}

/// What handling one event did.
#[derive(Clone, Copy, Debug)]
pub enum EventOutcome {
    /// A player entity was spawned for the connected session.
    Spawned { entity: EntityKey },
    /// The disconnected session's entity was destroyed.
    Despawned { entity: EntityKey },
    /// The intent was applied, or dropped as the intent channel demands.
    Handled { outcome: IntentOutcome },
}

/// Dispatches one transport event to its handler.
pub fn handle_event(w: &mut World, ev: ServerEvent) -> (r: Result<EventOutcome, OwnershipError>)
    requires
        old(w).wf(),
    ensures
        final(w).wf(),
        match ev {
            ServerEvent::Connected { session } => match r {
                Ok(EventOutcome::Spawned { entity }) => connected_ok(
                    *old(w),
                    *final(w),
                    session,
                    entity,
                ),
                Err(OwnershipError::AlreadyBound) => old(w).index.has_session(session)
                    && unchanged(*old(w), *final(w)),
                _ => false,
            },
            ServerEvent::Disconnected { session } => match r {
                Ok(EventOutcome::Despawned { entity }) => disconnected_ok(
                    *old(w),
                    *final(w),
                    session,
                    entity,
                ),
                Err(OwnershipError::NotFound) => !old(w).index.has_session(session) && unchanged(
                    *old(w),
                    *final(w),
                ),
                _ => false,
            },
            ServerEvent::Moved { intent } => match r {
                Ok(EventOutcome::Handled { outcome }) => match outcome {
                    IntentOutcome::RejectedInvalid => !intent.finite() && unchanged(
                        *old(w),
                        *final(w),
                    ),
                    IntentOutcome::DroppedUnbound => intent.finite() && !old(
                        w,
                    ).index.has_session(intent.session) && unchanged(*old(w), *final(w)),
                    IntentOutcome::Applied { entity } => intent_applied(
                        *old(w),
                        *final(w),
                        intent,
                        entity,
                    ),
                },
                _ => false,
            },
        },
{
    match ev {
        ServerEvent::Connected { session } => {
            let spawned = spawn_player(w, session);
            match spawned {
                Ok(k) => Ok(EventOutcome::Spawned { entity: k }),
                Err(e) => Err(e),
            }
        },
        ServerEvent::Disconnected { session } => {
            let despawned = despawn_player(w, session);
            match despawned {
                Ok(k) => Ok(EventOutcome::Despawned { entity: k }),
                Err(e) => Err(e),
            }
        },
        ServerEvent::Moved { intent } => {
            let outcome = apply_intent(w, intent);
            Ok(EventOutcome::Handled { outcome })
        },
    }
}

} // verus!
