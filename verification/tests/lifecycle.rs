//! Session lifecycle: connect spawns and binds, disconnect unbinds and
//! destroys, defects are surfaced.

use replisim::replication::snapshot;
use replisim::world::{despawn_player, spawn_player, World};
use replisim::{OwnershipError, LOCAL_SESSION};

#[test]
fn connect_spawns_bound_entity() {
    let mut w = World::new();
    let k = spawn_player(&mut w, 7).unwrap();
    assert_eq!(k, 0);
    assert_eq!(w.index.lookup_by_session(7), Some(0));
    let snap = snapshot(&w);
    assert_eq!(snap.len(), 1);
    assert_eq!(snap[0].entity, 0);
    assert_eq!(snap[0].position.x, 0);
    assert_eq!(snap[0].position.y, 0);
    assert!(snap[0].ferris);
}

#[test]
fn connect_twice_is_already_bound() {
    let mut w = World::new();
    spawn_player(&mut w, 7).unwrap();
    assert_eq!(spawn_player(&mut w, 7), Err(OwnershipError::AlreadyBound));
    // the failed connect changed nothing
    assert_eq!(snapshot(&w).len(), 1);
    assert_eq!(w.index.lookup_by_session(7), Some(0));
}

#[test]
fn disconnect_destroys_entity() {
    let mut w = World::new();
    let k = spawn_player(&mut w, 7).unwrap();
    assert_eq!(despawn_player(&mut w, 7), Ok(k));
    assert_eq!(w.index.lookup_by_session(7), None);
    // the entity is absent from any later snapshot
    assert!(snapshot(&w).is_empty());
}

#[test]
fn disconnect_without_connect_is_not_found() {
    let mut w = World::new();
    assert_eq!(despawn_player(&mut w, 9), Err(OwnershipError::NotFound));
}

#[test]
fn two_sessions_get_distinct_entities() {
    let mut w = World::new();
    let k1 = spawn_player(&mut w, 1).unwrap();
    let k2 = spawn_player(&mut w, 2).unwrap();
    assert_ne!(k1, k2);
    assert_eq!(w.index.lookup_by_session(1), Some(k1));
    assert_eq!(w.index.lookup_by_session(2), Some(k2));
    assert_eq!(snapshot(&w).len(), 2);
}

#[test]
fn reconnect_gets_a_fresh_entity() {
    let mut w = World::new();
    let k1 = spawn_player(&mut w, 7).unwrap();
    despawn_player(&mut w, 7).unwrap();
    let k2 = spawn_player(&mut w, 7).unwrap();
    assert_ne!(k1, k2);
    let snap = snapshot(&w);
    assert_eq!(snap.len(), 1);
    assert_eq!(snap[0].entity, k2);
}

#[test]
fn local_session_is_a_session_like_any_other() {
    let mut w = World::new();
    let k = spawn_player(&mut w, LOCAL_SESSION).unwrap();
    assert_eq!(w.index.lookup_by_session(LOCAL_SESSION), Some(k));
    assert_eq!(despawn_player(&mut w, LOCAL_SESSION), Ok(k));
    assert!(snapshot(&w).is_empty());
}
