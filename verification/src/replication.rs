//! The replication set.
//!
//! Every live entity's position and visual marker are mirrored to every
//! connected client, with no interest filtering; creating or destroying an
//! entity is itself replicated as an add or remove event.  The wire
//! encoding and delivery belong to the transport; this core declares what a
//! snapshot holds: `snapshot` produces exactly the live entities, each
//! once, with its current components.

use vstd::prelude::*;
use crate::EntityKey;
use crate::vector::Vec2Milli;
use crate::world::World;

verus! {

/// What the transport mirrors to every client for one live entity.
#[derive(Clone, Copy, Debug)]
pub struct ReplicatedEntity {
    /// The entity's arena key; destruction is replicated by the key
    /// disappearing from later snapshots.
    pub entity: EntityKey,
    /// The authoritative position, in millis.
    pub position: Vec2Milli,
    /// The entity carries the standard player visual marker.
    pub ferris: bool,
}

/// `snap` mirrors exactly the live entities of `w`: every entry is a live
/// entity with its current components, every live entity appears, and no
/// entity appears twice.
pub open spec fn snapshot_of(w: World, snap: Seq<ReplicatedEntity>) -> bool {
    &&& forall|j: int|
        0 <= j < snap.len() ==> {
            let r = #[trigger] snap[j];
            &&& (r.entity as int) < w.entities@.len()
            &&& w.entities@[r.entity as int] is Some
            &&& r.position == w.entities@[r.entity as int].unwrap().position
            &&& r.ferris == (w.entities@[r.entity as int].unwrap().ferris is Some)
        }
    &&& forall|k: int|
        0 <= k < w.entities@.len() && (#[trigger] w.entities@[k]) is Some ==> exists|j: int|
            0 <= j < snap.len() && (#[trigger] snap[j]).entity == k
    &&& forall|j1: int, j2: int|
        #![trigger snap[j1], snap[j2]]
        0 <= j1 < j2 < snap.len() ==> snap[j1].entity != snap[j2].entity
}

/// Produces the replicated view of the world: the live entities in arena
/// order, each with its position and visual marker.
pub fn snapshot(w: &World) -> (snap: Vec<ReplicatedEntity>)
    ensures
        snapshot_of(*w, snap@),
{
    let mut snap: Vec<ReplicatedEntity> = Vec::new();
    let mut k: usize = 0;
    let n = w.entities.len();
    while k < n
        invariant
            k <= n,
            n == w.entities@.len(),
            forall|j: int|
                0 <= j < snap@.len() ==> {
                    let r = #[trigger] snap@[j];
                    &&& (r.entity as int) < k
                    &&& w.entities@[r.entity as int] is Some
                    &&& r.position == w.entities@[r.entity as int].unwrap().position
                    &&& r.ferris == (w.entities@[r.entity as int].unwrap().ferris is Some)
                },
            forall|k2: int|
                0 <= k2 < k && (#[trigger] w.entities@[k2]) is Some ==> exists|j: int|
                    0 <= j < snap@.len() && (#[trigger] snap@[j]).entity == k2,
            forall|j1: int, j2: int|
                #![trigger snap@[j1], snap@[j2]]
                0 <= j1 < j2 < snap@.len() ==> snap@[j1].entity != snap@[j2].entity,
        decreases n - k,
    {
        let ent = w.entities[k];
        match ent {
            Some(e) => {
                let ghost prev = snap@;
                snap.push(
                    ReplicatedEntity {
                        entity: k,
                        position: e.position,
                        ferris: e.ferris.is_some(),
                    },
                );
                proof {
                    let last = snap@.len() - 1;
                    assert(snap@[last].entity == k);
                    assert forall|k2: int|
                        0 <= k2 < k + 1 && (#[trigger] w.entities@[k2]) is Some implies exists|
                        j: int,
                    |
                        0 <= j < snap@.len() && (#[trigger] snap@[j]).entity == k2 by {
                        if k2 < k {
                            let j = choose|j: int|
                                0 <= j < prev.len() && (#[trigger] prev[j]).entity == k2;
                            assert(snap@[j].entity == k2);
                        } else {
                            assert(snap@[last].entity == k2);
                        }
                    }
                }
            },
            None => {},
        }
        k += 1;
    }
    snap
}

} // verus!
