//! The event dispatcher: each transport notification reaches its one
//! handler, and lifecycle defects are surfaced.

use replisim::events::{handle_event, EventOutcome, ServerEvent};
use replisim::intent::{Intent, IntentOutcome};
use replisim::world::World;
use replisim::OwnershipError;

fn moved(session: u64, x: f32, y: f32) -> ServerEvent {
    ServerEvent::Moved { intent: Intent { session, x_bits: x.to_bits(), y_bits: y.to_bits() } }
}

#[test]
fn dispatch_full_session() {
    let mut w = World::new();
    match handle_event(&mut w, ServerEvent::Connected { session: 3 }) {
        Ok(EventOutcome::Spawned { entity }) => assert_eq!(entity, 0),
        other => panic!("unexpected outcome: {:?}", other),
    }
    match handle_event(&mut w, moved(3, 0.0, 1.0)) {
        Ok(EventOutcome::Handled { outcome }) => {
            assert_eq!(outcome, IntentOutcome::Applied { entity: 0 })
        }
        other => panic!("unexpected outcome: {:?}", other),
    }
    match handle_event(&mut w, ServerEvent::Disconnected { session: 3 }) {
        Ok(EventOutcome::Despawned { entity }) => assert_eq!(entity, 0),
        other => panic!("unexpected outcome: {:?}", other),
    }
}

#[test]
fn dispatch_surfaces_defects() {
    let mut w = World::new();
    handle_event(&mut w, ServerEvent::Connected { session: 3 }).unwrap();
    match handle_event(&mut w, ServerEvent::Connected { session: 3 }) {
        Err(e) => assert_eq!(e, OwnershipError::AlreadyBound),
        other => panic!("unexpected outcome: {:?}", other),
    }
    match handle_event(&mut w, ServerEvent::Disconnected { session: 4 }) {
        Err(e) => assert_eq!(e, OwnershipError::NotFound),
        other => panic!("unexpected outcome: {:?}", other),
    }
}

#[test]
fn dispatch_never_fails_an_intent() {
    let mut w = World::new();
    // unbound sender and invalid direction are both non-fatal
    match handle_event(&mut w, moved(9, 1.0, 0.0)) {
        Ok(EventOutcome::Handled { outcome }) => {
            assert_eq!(outcome, IntentOutcome::DroppedUnbound)
        }
        other => panic!("unexpected outcome: {:?}", other),
    }
    handle_event(&mut w, ServerEvent::Connected { session: 9 }).unwrap();
    match handle_event(&mut w, moved(9, f32::NAN, 0.0)) {
        Ok(EventOutcome::Handled { outcome }) => {
            assert_eq!(outcome, IntentOutcome::RejectedInvalid)
        }
        other => panic!("unexpected outcome: {:?}", other),
    }
}
