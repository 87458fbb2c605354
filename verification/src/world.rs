//! The authoritative simulation state and the session lifecycle.
//!
//! Entities live in an arena indexed by stable keys; destroyed slots stay
//! empty so keys are never reused.  A transport connect notification spawns
//! a player entity and binds it in the ownership index; a disconnect unbinds
//! the session and destroys the entity.  A disconnect with no prior connect
//! signals index corruption and is surfaced, never swallowed.

use vstd::prelude::*;
use crate::{EntityKey, OwnershipError, SessionId};
use crate::ownership::{NetOwner, OwnershipIndex};
use crate::vector::{Vec2Milli, SCALE};

verus! {

/// Replicated visual marker: an entity carrying it is rendered with the
/// standard player visual on every client.
#[derive(Clone, Copy, Debug, PartialEq, Eq, Structural)]
pub struct Ferris;

/// Bound on how far from the origin a position may drift, in millis.
pub const POS_LIMIT_MILLI: i64 = 0x80_0000_0000_0000;

/// A player-controlled simulation entity.
#[derive(Clone, Copy, Debug)]
pub struct OwnedEntity {
    /// Authoritative position, in millis.
    pub position: Vec2Milli,
    /// Direction the owning session most recently asked for; unit length or
    /// zero, retained until superseded.
    pub dir: Vec2Milli,
    /// Present when the entity is drawn with the standard player visual.
    pub ferris: Option<Ferris>,
}

/// The state a freshly spawned player entity starts in: the default spawn
/// position, no movement, the standard visual.
pub open spec fn spawn_entity_spec() -> OwnedEntity {
    OwnedEntity {
        position: Vec2Milli { x: 0, y: 0 },
        dir: Vec2Milli { x: 0, y: 0 },
        ferris: Some(Ferris),
    }
}

/// The authoritative server state: the entity arena and the ownership
/// index.  All mutation goes through the lifecycle, intent and movement
/// functions, which keep `wf`.
pub struct World {
    /// Arena of entities; destroyed slots stay `None` so keys are stable.
    pub entities: Vec<Option<OwnedEntity>>,
    /// The session-to-entity relation.
    pub index: OwnershipIndex,
}

impl World {
    /// Every indexed entity key points at a live arena slot.
    pub open spec fn index_targets_live(self) -> bool {
        forall|s: SessionId, e: EntityKey|
            #[trigger] self.index.bound_to(s, e) ==> e < self.entities@.len()
                && self.entities@[e as int] is Some
    }

    /// Every live entity has an owner in the index.
    pub open spec fn live_are_indexed(self) -> bool {
        forall|k: EntityKey|
            k < self.entities@.len() && (#[trigger] self.entities@[k as int]) is Some
                ==> self.index.has_entity(k)
    }

    /// Live entities carry a unit-or-zero direction and an in-bounds
    /// position.
    pub open spec fn entities_bounded(self) -> bool {
        forall|k: int|
            0 <= k < self.entities@.len() && (#[trigger] self.entities@[k]) is Some ==> {
                let en = self.entities@[k].unwrap();
                en.dir.in_range(SCALE as int) && en.position.in_range(POS_LIMIT_MILLI as int)
            }
    }

    /// The state invariant: a 1:1 ownership relation with no dangling entry
    /// on either side, and bounded entity components.
    pub open spec fn wf(self) -> bool {
        &&& self.index.wf()
        &&& self.index_targets_live()
        &&& self.live_are_indexed()
        &&& self.entities_bounded()
    }

    /// An empty world: no entities, no bindings.
    pub fn new() -> (r: World)
        ensures
            r.wf(),
            r.entities@ == Seq::<Option<OwnedEntity>>::empty(),
            r.index.pairs() == Seq::<NetOwner>::empty(),
    {
        let r = World { entities: Vec::new(), index: OwnershipIndex::new() };
        proof {
            assert(r.entities@ =~= Seq::<Option<OwnedEntity>>::empty());
        }
        r
    }
}

/// `post` carries exactly the state of `pre`.
pub open spec fn unchanged(pre: World, post: World) -> bool {
    &&& post.entities@ == pre.entities@
    &&& post.index.pairs() == pre.index.pairs()
}

/// `post` is `pre` after session `s` connected and received the fresh
/// entity `k`: the arena grew by one spawned entity and the index by its
/// binding; nothing else moved.
pub open spec fn connected_ok(pre: World, post: World, s: SessionId, k: EntityKey) -> bool {
    &&& !pre.index.has_session(s)
    &&& k == pre.entities@.len()
    &&& post.entities@ == pre.entities@.push(Some(spawn_entity_spec()))
    &&& post.index.pairs() == pre.index.pairs().push(NetOwner { session: s, entity: k })
}

/// `post` is `pre` after session `s` disconnected: its entity `k` was
/// destroyed and its binding removed; every other binding and every other
/// entity survives unchanged.
pub open spec fn disconnected_ok(pre: World, post: World, s: SessionId, k: EntityKey) -> bool {
    &&& pre.index.bound_to(s, k)
    &&& post.index.wf()
    &&& post.entities@ == pre.entities@.update(k as int, None)
    &&& !post.index.has_session(s)
    &&& !post.index.has_entity(k)
    &&& post.index.pairs().len() == pre.index.pairs().len() - 1
    &&& forall|s2: SessionId, e2: EntityKey|
        s2 != s ==> (post.index.bound_to(s2, e2) <==> pre.index.bound_to(s2, e2))
    &&& forall|s2: SessionId| s2 != s ==> (post.index.has_session(s2) <==> pre.index.has_session(s2))
    &&& forall|e2: EntityKey| e2 != k ==> (post.index.has_entity(e2) <==> pre.index.has_entity(e2))
}


/// A world whose state equals that of a well-formed world is well-formed.
pub proof fn lemma_wf_same_state(pre: World, post: World)
    requires
        pre.wf(),
        unchanged(pre, post),
    ensures
        post.wf(),
{
    let pp = post.index.pairs();
    let op = pre.index.pairs();
    assert forall|a: int, b: int|
        #![trigger pp[a], pp[b]]
        0 <= a < b < pp.len() implies pp[a].session != pp[b].session && pp[a].entity
        != pp[b].entity by {
        assert(pp[a] == op[a] && pp[b] == op[b]);
    }
    assert forall|s2: SessionId, e2: EntityKey|
        #[trigger] post.index.bound_to(s2, e2) implies e2 < post.entities@.len()
        && post.entities@[e2 as int] is Some by {
        let i = choose|i: int|
            0 <= i < pp.len() && (#[trigger] pp[i]).session == s2 && pp[i].entity == e2;
        assert(op[i] == pp[i]);
        assert(pre.index.bound_to(s2, e2));
    }
    assert forall|k2: EntityKey|
        k2 < post.entities@.len() && (#[trigger] post.entities@[k2 as int]) is Some implies post
        .index.has_entity(k2) by {
        assert(pre.entities@[k2 as int] is Some);
        let i = choose|i: int| 0 <= i < op.len() && (#[trigger] op[i]).entity == k2;
        assert(pp[i].entity == k2);
    }
}

/// A connect keeps the world well-formed.
pub proof fn lemma_connect_preserves_wf(pre: World, post: World, s: SessionId, k: EntityKey)
    requires
        pre.wf(),
        connected_ok(pre, post, s, k),
    ensures
        post.wf(),
{
    let pp = post.index.pairs();
    let op = pre.index.pairs();
    // the fresh key has no owner yet
    if pre.index.has_entity(k) {
        let i = choose|i: int| 0 <= i < op.len() && (#[trigger] op[i]).entity == k;
        assert(pre.index.bound_to(op[i].session, k));
        assert(false);
    }
    assert forall|a: int, b: int|
        #![trigger pp[a], pp[b]]
        0 <= a < b < pp.len() implies pp[a].session != pp[b].session && pp[a].entity
        != pp[b].entity by {
        if b == pp.len() - 1 {
            assert(pp[a] == op[a]);
            if pp[a].session == s {
                assert(pre.index.has_session(s));
            }
            if pp[a].entity == k {
                assert(pre.index.has_entity(k));
            }
        } else {
            assert(pp[a] == op[a] && pp[b] == op[b]);
        }
    }
    assert forall|s2: SessionId, e2: EntityKey|
        #[trigger] post.index.bound_to(s2, e2) implies e2 < post.entities@.len()
        && post.entities@[e2 as int] is Some by {
        let i = choose|i: int|
            0 <= i < pp.len() && (#[trigger] pp[i]).session == s2 && pp[i].entity == e2;
        if i < op.len() {
            assert(op[i] == pp[i]);
            assert(pre.index.bound_to(s2, e2));
            assert(post.entities@[e2 as int] == pre.entities@[e2 as int]);
        } else {
            assert(pp[i] == NetOwner { session: s, entity: k });
        }
    }
    assert forall|k2: EntityKey|
        k2 < post.entities@.len() && (#[trigger] post.entities@[k2 as int]) is Some implies post
        .index.has_entity(k2) by {
        if (k2 as int) < pre.entities@.len() {
            assert(pre.entities@[k2 as int] == post.entities@[k2 as int]);
            let i = choose|i: int| 0 <= i < op.len() && (#[trigger] op[i]).entity == k2;
            assert((pp[i]).entity == k2);
        } else {
            assert((pp[pp.len() - 1]).entity == k2);
        }
    }
    assert forall|k2: int|
        0 <= k2 < post.entities@.len() && (#[trigger] post.entities@[k2]) is Some implies {
        let en = post.entities@[k2].unwrap();
        en.dir.in_range(SCALE as int) && en.position.in_range(POS_LIMIT_MILLI as int)
    } by {
        if k2 < pre.entities@.len() {
            assert(pre.entities@[k2] == post.entities@[k2]);
        }
    }
}

/// A disconnect keeps the world well-formed.
pub proof fn lemma_disconnect_preserves_wf(pre: World, post: World, s: SessionId, k: EntityKey)
    requires
        pre.wf(),
        disconnected_ok(pre, post, s, k),
    ensures
        post.wf(),
{
    assert forall|s2: SessionId, e2: EntityKey|
        #[trigger] post.index.bound_to(s2, e2) implies e2 < post.entities@.len()
        && post.entities@[e2 as int] is Some by {
        if s2 == s {
            assert(post.index.has_session(s2));
            assert(false);
        } else {
            assert(pre.index.bound_to(s2, e2));
            if e2 == k {
                crate::ownership::lemma_ownership_one_to_one(pre.index, s2, e2, s, k);
                assert(false);
            }
            assert(post.entities@[e2 as int] == pre.entities@[e2 as int]);
        }
    }
    assert forall|k2: EntityKey|
        k2 < post.entities@.len() && (#[trigger] post.entities@[k2 as int]) is Some implies post
        .index.has_entity(k2) by {
        assert(k2 != k);
        assert(post.entities@[k2 as int] == pre.entities@[k2 as int]);
        assert(pre.index.has_entity(k2));
    }
    assert forall|k2: int|
        0 <= k2 < post.entities@.len() && (#[trigger] post.entities@[k2]) is Some implies {
        let en = post.entities@[k2].unwrap();
        en.dir.in_range(SCALE as int) && en.position.in_range(POS_LIMIT_MILLI as int)
    } by {
        assert(post.entities@[k2] == pre.entities@[k2]);
    }
}

/// Creates a player entity for `owner` at the default spawn state and binds
/// it.  Fails with `AlreadyBound`, changing nothing, exactly when `owner`
/// already owns an entity.
pub fn spawn_player(w: &mut World, owner: SessionId) -> (r: Result<EntityKey, OwnershipError>)
    requires
        old(w).wf(),
    ensures
        final(w).wf(),
        match r {
            Ok(k) => connected_ok(*old(w), *final(w), owner, k),
            Err(OwnershipError::AlreadyBound) => old(w).index.has_session(owner) && unchanged(
                *old(w),
                *final(w),
            ),
            Err(OwnershipError::NotFound) => false,
        },
{
    let k = w.entities.len();
    let bound = w.index.bind(owner, k);
    match bound {
        Ok(()) => {}
        Err(e) => {
            proof {
                if !old(w).index.has_session(owner) {
                    // bind can then only have failed on the entity side, but a
                    // fresh key has no owner
                    let i = choose|i: int|
                        0 <= i < old(w).index.pairs().len() && (#[trigger] old(
                            w,
                        ).index.pairs()[i]).entity == k;
                    assert(old(w).index.bound_to(old(w).index.pairs()[i].session, k));
                    assert(false);
                }
            }
            return Err(e);
        }
    }
    w.entities.push(Some(OwnedEntity {
        position: Vec2Milli::zero(),
        dir: Vec2Milli::zero(),
        ferris: Some(Ferris),
    }));
    proof {
        assert(w.entities@ == old(w).entities@.push(Some(spawn_entity_spec())));
        assert(connected_ok(*old(w), *w, owner, k));
        lemma_connect_preserves_wf(*old(w), *w, owner, k);
    }
    Ok(k)
}

/// Handles a transport disconnect: unbinds `session` and destroys the
/// entity it owned.  Fails with `NotFound`, changing nothing, exactly when
/// `session` owns nothing -- a disconnect with no prior connect, surfaced
/// as index corruption.
pub fn despawn_player(w: &mut World, session: SessionId) -> (r: Result<EntityKey, OwnershipError>)
    requires
        old(w).wf(),
    ensures
        final(w).wf(),
        match r {
            Ok(k) => disconnected_ok(*old(w), *final(w), session, k),
            Err(OwnershipError::NotFound) => !old(w).index.has_session(session) && unchanged(
                *old(w),
                *final(w),
            ),
            Err(OwnershipError::AlreadyBound) => false,
        },
{
    let unbound = w.index.unbind_by_session(session);
    let k = match unbound {
        Ok(k) => k,
        Err(e) => {
            return Err(e);
        },
    };
    proof {
        assert(old(w).index.bound_to(session, k));
    }
    w.entities[k] = None;
    proof {
        assert(w.entities@ == old(w).entities@.update(k as int, None));
        assert(disconnected_ok(*old(w), *w, session, k));
        lemma_disconnect_preserves_wf(*old(w), *w, session, k);
    }
    Ok(k)
}

} // verus!
