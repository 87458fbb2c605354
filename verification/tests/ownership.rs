//! The ownership index alone: bind, lookup, unbind, and their failures.

use replisim::ownership::OwnershipIndex;
use replisim::OwnershipError;

#[test]
fn bind_then_lookup() {
    let mut idx = OwnershipIndex::new();
    assert_eq!(idx.bind(1, 10), Ok(()));
    assert_eq!(idx.lookup_by_session(1), Some(10));
    assert_eq!(idx.lookup_by_session(2), None);
}

#[test]
fn bind_rejects_a_bound_session() {
    let mut idx = OwnershipIndex::new();
    idx.bind(1, 10).unwrap();
    assert_eq!(idx.bind(1, 11), Err(OwnershipError::AlreadyBound));
}

#[test]
fn bind_rejects_a_bound_entity() {
    let mut idx = OwnershipIndex::new();
    idx.bind(1, 10).unwrap();
    assert_eq!(idx.bind(2, 10), Err(OwnershipError::AlreadyBound));
}

#[test]
fn unbind_returns_the_freed_entity() {
    let mut idx = OwnershipIndex::new();
    idx.bind(1, 10).unwrap();
    idx.bind(2, 20).unwrap();
    assert_eq!(idx.unbind_by_session(1), Ok(10));
    assert_eq!(idx.lookup_by_session(1), None);
    // the other binding survives
    assert_eq!(idx.lookup_by_session(2), Some(20));
    // the freed pair can be bound again
    assert_eq!(idx.bind(1, 10), Ok(()));
}

#[test]
fn unbind_without_binding_is_not_found() {
    let mut idx = OwnershipIndex::new();
    assert_eq!(idx.unbind_by_session(1), Err(OwnershipError::NotFound));
    idx.bind(1, 10).unwrap();
    idx.unbind_by_session(1).unwrap();
    assert_eq!(idx.unbind_by_session(1), Err(OwnershipError::NotFound));
}
