//! Intent handling and movement integration: validation, the disconnect
//! race, ordering, and exact integrated positions.

use replisim::intent::{apply_intent, Intent, IntentOutcome};
use replisim::movement::tick;
use replisim::world::{despawn_player, spawn_player, World};

fn intent(session: u64, x: f32, y: f32) -> Intent {
    Intent { session, x_bits: x.to_bits(), y_bits: y.to_bits() }
}

fn position(w: &World, k: usize) -> (i64, i64) {
    let e = w.entities[k].as_ref().unwrap();
    (e.position.x, e.position.y)
}

#[test]
fn intent_for_unbound_session_is_dropped() {
    let mut w = World::new();
    let k = spawn_player(&mut w, 1).unwrap();
    let r = apply_intent(&mut w, intent(2, 1.0, 0.0));
    assert_eq!(r, IntentOutcome::DroppedUnbound);
    tick(&mut w, &vec![intent(2, 1.0, 0.0)], 100);
    // no entity moved
    assert_eq!(position(&w, k), (0, 0));
}

#[test]
fn intent_after_disconnect_is_dropped() {
    let mut w = World::new();
    spawn_player(&mut w, 1).unwrap();
    let k2 = spawn_player(&mut w, 2).unwrap();
    despawn_player(&mut w, 1).unwrap();
    // the in-flight intent of the dead session is skipped silently
    tick(&mut w, &vec![intent(1, 1.0, 0.0), intent(2, 0.0, 1.0)], 100);
    assert!(w.entities[0].is_none());
    assert_eq!(position(&w, k2), (0, 30_000));
}

#[test]
fn non_finite_intent_is_rejected_and_state_kept() {
    let mut w = World::new();
    let k = spawn_player(&mut w, 1).unwrap();
    assert_eq!(
        apply_intent(&mut w, intent(1, f32::NAN, 0.0)),
        IntentOutcome::RejectedInvalid
    );
    assert_eq!(
        apply_intent(&mut w, intent(1, 0.0, f32::INFINITY)),
        IntentOutcome::RejectedInvalid
    );
    assert_eq!(
        apply_intent(&mut w, intent(1, f32::NEG_INFINITY, f32::NAN)),
        IntentOutcome::RejectedInvalid
    );
    tick(&mut w, &vec![], 100);
    assert_eq!(position(&w, k), (0, 0));
    // a later valid intent from the same session still applies
    tick(&mut w, &vec![intent(1, 1.0, 0.0)], 100);
    assert_eq!(position(&w, k), (30_000, 0));
}

#[test]
fn rejected_intent_leaves_other_sessions_alone() {
    let mut w = World::new();
    let k1 = spawn_player(&mut w, 1).unwrap();
    let k2 = spawn_player(&mut w, 2).unwrap();
    tick(&mut w, &vec![intent(1, f32::NAN, 0.0), intent(2, 0.0, -1.0)], 50);
    assert_eq!(position(&w, k1), (0, 0));
    assert_eq!(position(&w, k2), (0, -15_000));
}

#[test]
fn intent_sequence_integrates_in_arrival_order() {
    // intents (1,0), (0,0), (0,1), each separated by 100 ms: the position
    // is the sum of each unit direction times speed times elapsed time,
    // with exact intermediate positions
    let mut w = World::new();
    let k = spawn_player(&mut w, 5).unwrap();
    tick(&mut w, &vec![intent(5, 1.0, 0.0)], 100);
    assert_eq!(position(&w, k), (30_000, 0));
    tick(&mut w, &vec![intent(5, 0.0, 0.0)], 100);
    assert_eq!(position(&w, k), (30_000, 0));
    tick(&mut w, &vec![intent(5, 0.0, 1.0)], 100);
    assert_eq!(position(&w, k), (30_000, 30_000));
}

#[test]
fn zero_intent_halts_until_a_new_direction_arrives() {
    let mut w = World::new();
    let k = spawn_player(&mut w, 5).unwrap();
    tick(&mut w, &vec![intent(5, 0.0, -1.0)], 200);
    assert_eq!(position(&w, k), (0, -60_000));
    tick(&mut w, &vec![intent(5, 0.0, 0.0)], 200);
    // halted: ticks without a new intent change nothing
    tick(&mut w, &vec![], 200);
    tick(&mut w, &vec![], 500);
    assert_eq!(position(&w, k), (0, -60_000));
    tick(&mut w, &vec![intent(5, 1.0, 0.0)], 100);
    assert_eq!(position(&w, k), (30_000, -60_000));
}

#[test]
fn direction_is_retained_between_ticks() {
    // the client sends only on change; the server keeps integrating the
    // last-known direction
    let mut w = World::new();
    let k = spawn_player(&mut w, 5).unwrap();
    tick(&mut w, &vec![intent(5, 1.0, 0.0)], 100);
    tick(&mut w, &vec![], 100);
    tick(&mut w, &vec![], 300);
    assert_eq!(position(&w, k), (150_000, 0));
}

#[test]
fn diagonal_direction_is_normalized() {
    let mut w = World::new();
    let k = spawn_player(&mut w, 5).unwrap();
    // (0.6, 0.8) is already unit length and survives exactly
    tick(&mut w, &vec![intent(5, 0.6, 0.8)], 1000);
    assert_eq!(position(&w, k), (180_000, 240_000));
}

#[test]
fn oversized_direction_is_normalized() {
    let mut w = World::new();
    let k = spawn_player(&mut w, 5).unwrap();
    // a hostile magnitude moves no faster than a unit direction
    tick(&mut w, &vec![intent(5, 1.0e30, 0.0)], 100);
    assert_eq!(position(&w, k), (30_000, 0));
}

#[test]
fn negative_direction_moves_backwards() {
    let mut w = World::new();
    let k = spawn_player(&mut w, 5).unwrap();
    tick(&mut w, &vec![intent(5, -1.0, 0.0)], 100);
    assert_eq!(position(&w, k), (-30_000, 0));
}

#[test]
fn latest_intent_in_a_tick_wins() {
    // intents of one session arrive in order; the last one decides the
    // direction the tick integrates
    let mut w = World::new();
    let k = spawn_player(&mut w, 5).unwrap();
    tick(&mut w, &vec![intent(5, -1.0, 0.0), intent(5, 1.0, 0.0)], 100);
    assert_eq!(position(&w, k), (30_000, 0));
}
