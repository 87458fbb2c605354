//! The ownership index: the authoritative 1:1 relation between connected
//! sessions and the entities they own.
//!
//! Only the session lifecycle mutates the index; every other component
//! performs lookups.  The well-formedness predicate `wf` says the relation
//! is one-to-one: no session owns two entities and no entity has two owning
//! sessions.

use vstd::prelude::*;
use crate::{EntityKey, OwnershipError, SessionId};

verus! {

/// One entry of the ownership relation: the session that controls an
/// entity, and the entity's arena key.
#[derive(Clone, Copy, Debug, PartialEq, Eq, Structural)]
pub struct NetOwner {
    pub session: SessionId,
    pub entity: EntityKey,
}

/// The bidirectional session-to-entity map.
pub struct OwnershipIndex {
    entries: Vec<NetOwner>,
}

impl OwnershipIndex {
    /// The entries of the relation, in insertion order.
    pub closed spec fn pairs(self) -> Seq<NetOwner> {
        self.entries@
    }

    /// Session `s` owns entity `e`.
    pub open spec fn bound_to(self, s: SessionId, e: EntityKey) -> bool {
        exists|i: int|
            0 <= i < self.pairs().len() && (#[trigger] self.pairs()[i]).session == s
                && self.pairs()[i].entity == e
    }

    /// Some entity is bound to session `s`.
    pub open spec fn has_session(self, s: SessionId) -> bool {
        exists|i: int| 0 <= i < self.pairs().len() && (#[trigger] self.pairs()[i]).session == s
    }

    /// Some session is bound to entity `e`.
    pub open spec fn has_entity(self, e: EntityKey) -> bool {
        exists|i: int| 0 <= i < self.pairs().len() && (#[trigger] self.pairs()[i]).entity == e
    }

    /// The entity bound to `s`; meaningful only when `has_session(s)`
    /// holds and the relation is one-to-one.
    pub open spec fn session_entity(self, s: SessionId) -> EntityKey {
        choose|e: EntityKey| self.bound_to(s, e)
    }

    /// The relation is one-to-one: no session appears twice, no entity
    /// appears twice.
    pub open spec fn wf(self) -> bool {
        forall|i: int, j: int|
            #![trigger self.pairs()[i], self.pairs()[j]]
            0 <= i < j < self.pairs().len() ==> self.pairs()[i].session != self.pairs()[j].session
                && self.pairs()[i].entity != self.pairs()[j].entity
    }

    /// An empty index.
    pub fn new() -> (r: OwnershipIndex)
        ensures
            r.wf(),
            r.pairs() == Seq::<NetOwner>::empty(),
    {
        let r = OwnershipIndex { entries: Vec::new() };
        proof {
            assert(r.pairs() =~= Seq::<NetOwner>::empty());
        }
        r
    }

    /// Pure read: the entity bound to `s`, if any.
    pub fn lookup_by_session(&self, s: SessionId) -> (r: Option<EntityKey>)
        ensures
            match r {
                Some(e) => self.bound_to(s, e),
                None => !self.has_session(s),
            },
    {
        let mut i: usize = 0;
        while i < self.entries.len()
            invariant
                i <= self.entries.len(),
                forall|j: int| 0 <= j < i ==> (#[trigger] self.entries@[j]).session != s,
            decreases self.entries.len() - i,
        {
            let en = self.entries[i];
            if en.session == s {
                proof {
                    assert(self.pairs()[i as int].session == s && self.pairs()[i as int].entity
                        == en.entity);
                }
                return Some(en.entity);
            }
            i += 1;
        }
        None
    }

    /// Records that `s` owns `e`.  Fails, and changes nothing, when `s`
    /// already owns an entity or `e` already has an owner.
    pub fn bind(&mut self, s: SessionId, e: EntityKey) -> (r: Result<(), OwnershipError>)
        requires
            old(self).wf(),
        ensures
            final(self).wf(),
            match r {
                Ok(()) => !old(self).has_session(s) && !old(self).has_entity(e)
                    && final(self).pairs() == old(self).pairs().push(
                    NetOwner { session: s, entity: e },
                ),
                Err(OwnershipError::AlreadyBound) => (old(self).has_session(s)
                    || old(self).has_entity(e)) && *final(self) == *old(self),
                Err(OwnershipError::NotFound) => false,
            },
    {
        let mut i: usize = 0;
        while i < self.entries.len()
            invariant
                i <= self.entries.len(),
                *self == *old(self),
                old(self).wf(),
                forall|j: int|
                    0 <= j < i ==> (#[trigger] self.entries@[j]).session != s
                        && self.entries@[j].entity != e,
            decreases self.entries.len() - i,
        {
            let en = self.entries[i];
            if en.session == s || en.entity == e {
                proof {
                    if en.session == s {
                        assert(self.pairs()[i as int].session == s);
                    } else {
                        assert(self.pairs()[i as int].entity == e);
                    }
                }
                return Err(OwnershipError::AlreadyBound);
            }
            i += 1;
        }
        self.entries.push(NetOwner { session: s, entity: e });
        proof {
            let ps = self.pairs();
            let olds = old(self).pairs();
            assert forall|a: int, b: int|
                #![trigger ps[a], ps[b]]
                0 <= a < b < ps.len() implies ps[a].session != ps[b].session && ps[a].entity
                != ps[b].entity by {
                if b == ps.len() - 1 {
                    assert(ps[a] == olds[a]);
                } else {
                    assert(ps[a] == olds[a] && ps[b] == olds[b]);
                }
            }
        }
        Ok(())
    }

    /// Removes the binding of `s` and returns the freed entity.  Fails, and
    /// changes nothing, when no binding exists.
    pub fn unbind_by_session(&mut self, s: SessionId) -> (r: Result<EntityKey, OwnershipError>)
        requires
            old(self).wf(),
        ensures
            final(self).wf(),
            match r {
                Ok(e) => old(self).bound_to(s, e) && !final(self).has_session(s)
                    && !final(self).has_entity(e)
                    && final(self).pairs().len() == old(self).pairs().len() - 1
                    && (forall|s2: SessionId, e2: EntityKey|
                    s2 != s ==> (final(self).bound_to(s2, e2) <==> old(self).bound_to(s2, e2)))
                    && (forall|s2: SessionId|
                    s2 != s ==> (final(self).has_session(s2) <==> old(self).has_session(s2)))
                    && (forall|e2: EntityKey|
                    e2 != e ==> (final(self).has_entity(e2) <==> old(self).has_entity(e2))),
                Err(OwnershipError::NotFound) => !old(self).has_session(s) && *final(self)
                    == *old(self),
                Err(OwnershipError::AlreadyBound) => false,
            },
    {
        let mut i: usize = 0;
        while i < self.entries.len()
            invariant
                i <= self.entries.len(),
                *self == *old(self),
                old(self).wf(),
                forall|j: int| 0 <= j < i ==> (#[trigger] self.entries@[j]).session != s,
            decreases self.entries.len() - i,
        {
            let en = self.entries[i];
            if en.session == s {
                let ghost olds = old(self).pairs();
                let ghost ii = i as int;
                proof {
                    assert(old(self).pairs()[i as int].session == s);
                }
                let removed = self.entries.remove(i);
                proof {
                    assert(olds[ii].session == s && olds[ii].entity == removed.entity);
                    let ps = self.pairs();
                    assert forall|j: int| 0 <= j < ps.len() implies #[trigger] ps[j] == (if j < ii {
                        olds[j]
                    } else {
                        olds[j + 1]
                    }) by {}
                    assert forall|a: int, b: int|
                        #![trigger ps[a], ps[b]]
                        0 <= a < b < ps.len() implies ps[a].session != ps[b].session
                        && ps[a].entity != ps[b].entity by {
                        let a2: int = if a < ii { a } else { a + 1 };
                        let b2: int = if b < ii { b } else { b + 1 };
                        assert(ps[a] == olds[a2] && ps[b] == olds[b2] && a2 < b2);
                    }
                    // no remaining entry carries `s` or the freed entity
                    assert forall|j: int| 0 <= j < ps.len() implies (#[trigger] ps[j]).session != s
                        && ps[j].entity != removed.entity by {
                        let j2: int = if j < ii { j } else { j + 1 };
                        assert(ps[j] == olds[j2] && j2 != ii);
                    }
                    // bindings of every other session survive unchanged
                    assert forall|s2: SessionId, e2: EntityKey|
                        s2 != s implies (self.bound_to(s2, e2) <==> old(self).bound_to(
                        s2,
                        e2,
                    )) by {
                        if self.bound_to(s2, e2) {
                            let j = choose|j: int|
                                0 <= j < ps.len() && (#[trigger] ps[j]).session == s2 && ps[j].entity
                                    == e2;
                            let j2: int = if j < ii { j } else { j + 1 };
                            assert(olds[j2] == ps[j]);
                        }
                        if old(self).bound_to(s2, e2) {
                            let j2 = choose|j2: int|
                                0 <= j2 < olds.len() && (#[trigger] olds[j2]).session == s2
                                    && olds[j2].entity == e2;
                            let j: int = if j2 < ii { j2 } else { j2 - 1 };
                            assert(j2 != ii);
                            assert(ps[j] == olds[j2]);
                        }
                    }
                    assert forall|s2: SessionId|
                        s2 != s implies (self.has_session(s2) <==> old(self).has_session(s2)) by {
                        if self.has_session(s2) {
                            let j = choose|j: int|
                                0 <= j < ps.len() && (#[trigger] ps[j]).session == s2;
                            assert(self.bound_to(s2, ps[j].entity));
                        }
                        if old(self).has_session(s2) {
                            let j2 = choose|j2: int|
                                0 <= j2 < olds.len() && (#[trigger] olds[j2]).session == s2;
                            assert(old(self).bound_to(s2, olds[j2].entity));
                        }
                    }
                    assert forall|e2: EntityKey|
                        e2 != removed.entity implies (self.has_entity(e2) <==> old(self).has_entity(
                        e2,
                    )) by {
                        if self.has_entity(e2) {
                            let j = choose|j: int|
                                0 <= j < ps.len() && (#[trigger] ps[j]).entity == e2;
                            let j2: int = if j < ii { j } else { j + 1 };
                            assert(olds[j2] == ps[j]);
                        }
                        if old(self).has_entity(e2) {
                            let j2 = choose|j2: int|
                                0 <= j2 < olds.len() && (#[trigger] olds[j2]).entity == e2;
                            let j: int = if j2 < ii { j2 } else { j2 - 1 };
                            assert(j2 != ii);
                            assert(ps[j] == olds[j2]);
                        }
                    }
                }
                return Ok(removed.entity);
            }
            i += 1;
        }
        Err(OwnershipError::NotFound)
    }
}

/// The ownership relation is one-to-one: two bindings share their session
/// exactly when they share their entity.
pub proof fn lemma_ownership_one_to_one(
    idx: OwnershipIndex,
    s1: SessionId,
    e1: EntityKey,
    s2: SessionId,
    e2: EntityKey,
)
    requires
        idx.wf(),
        idx.bound_to(s1, e1),
        idx.bound_to(s2, e2),
    ensures
        (s1 == s2) <==> (e1 == e2),
{
    let i1 = choose|i: int|
        0 <= i < idx.pairs().len() && (#[trigger] idx.pairs()[i]).session == s1 && idx.pairs()[i].entity
            == e1;
    let i2 = choose|i: int|
        0 <= i < idx.pairs().len() && (#[trigger] idx.pairs()[i]).session == s2 && idx.pairs()[i].entity
            == e2;
    if i1 != i2 {
        assert(idx.pairs()[i1].session != idx.pairs()[i2].session && idx.pairs()[i1].entity
            != idx.pairs()[i2].entity);
    }
}

} // verus!
