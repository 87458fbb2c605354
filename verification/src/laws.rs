//! Laws relating the lifecycle, the intent channel, the integrator and the
//! replication set across calls.  Each is stated over the transition
//! predicates the executable functions ensure.

use vstd::prelude::*;
use crate::{EntityKey, SessionId};
use crate::intent::{intent_applied, Intent};
use crate::movement::{integrated, move_delta, clamp_pos};
use crate::ownership::lemma_ownership_one_to_one;
use crate::replication::{snapshot_of, ReplicatedEntity};
use crate::vector::Vec2Milli;
use crate::world::{connected_ok, disconnected_ok, lemma_connect_preserves_wf, lemma_disconnect_preserves_wf, lemma_wf_same_state, unchanged, World, POS_LIMIT_MILLI};

verus! {

/// One step of the session lifecycle: some session connected, some session
/// disconnected, or the state was left untouched (a failed lifecycle call,
/// a dropped intent).
pub open spec fn lifecycle_step(pre: World, post: World) -> bool {
    ||| exists|s: SessionId, k: EntityKey| connected_ok(pre, post, s, k)
    ||| exists|s: SessionId, k: EntityKey| disconnected_ok(pre, post, s, k)
    ||| unchanged(pre, post)
}

/// For every sequence of connect/disconnect events the ownership relation
/// stays a valid 1:1 mapping with no dangling entry on either side: each
/// state of a trace of lifecycle steps out of a well-formed world is
/// well-formed.
pub proof fn lemma_lifecycle_preserves_wf(trace: Seq<World>)
    requires
        trace.len() > 0,
        trace[0].wf(),
        forall|i: int|
            #![trigger trace[i]]
            0 <= i < trace.len() - 1 ==> lifecycle_step(trace[i], trace[i + 1]),
    ensures
        forall|i: int| 0 <= i < trace.len() ==> (#[trigger] trace[i]).wf(),
    decreases trace.len(),
{
    if trace.len() > 1 {
        assert(lifecycle_step(trace[0int], trace[0int + 1]));
        if exists|s: SessionId, k: EntityKey| connected_ok(trace[0], trace[1], s, k) {
            let (s, k) = choose|s: SessionId, k: EntityKey| connected_ok(trace[0], trace[1], s, k);
            lemma_connect_preserves_wf(trace[0], trace[1], s, k);
        } else if exists|s: SessionId, k: EntityKey| disconnected_ok(trace[0], trace[1], s, k) {
            let (s, k) = choose|s: SessionId, k: EntityKey|
                disconnected_ok(trace[0], trace[1], s, k);
            lemma_disconnect_preserves_wf(trace[0], trace[1], s, k);
        } else {
            lemma_wf_same_state(trace[0], trace[1]);
        }
        let rest = trace.subrange(1, trace.len() as int);
        assert forall|i: int|
            #![trigger rest[i]]
            0 <= i < rest.len() - 1 implies lifecycle_step(rest[i], rest[i + 1]) by {
            assert(rest[i] == trace[i + 1] && rest[i + 1] == trace[i + 1 + 1]);
            assert(lifecycle_step(trace[i + 1], trace[i + 1 + 1]));
        }
        lemma_lifecycle_preserves_wf(rest);
        assert forall|i: int| 0 <= i < trace.len() implies (#[trigger] trace[i]).wf() by {
            if i > 0 {
                assert(rest[i - 1] == trace[i]);
                assert(rest[i - 1].wf());
            }
        }
    }
}

/// Connecting a session and then disconnecting it destroys exactly the
/// entity it received: the slot is empty afterwards and no replication
/// snapshot of the later state carries the key.
pub proof fn lemma_connect_then_disconnect_destroys(
    pre: World,
    mid: World,
    post: World,
    s: SessionId,
    k: EntityKey,
    k2: EntityKey,
)
    requires
        pre.wf(),
        mid.wf(),
        connected_ok(pre, mid, s, k),
        disconnected_ok(mid, post, s, k2),
    ensures
        k2 == k,
        post.entities@.len() == mid.entities@.len(),
        post.entities@[k as int] is None,
        forall|snap: Seq<ReplicatedEntity>|
            #[trigger] snapshot_of(post, snap) ==> forall|j: int|
                0 <= j < snap.len() ==> (#[trigger] snap[j]).entity != k,
{
    let mp = mid.index.pairs();
    assert(mp[mp.len() - 1].session == s && mp[mp.len() - 1].entity == k);
    assert(mid.index.bound_to(s, k));
    lemma_ownership_one_to_one(mid.index, s, k, s, k2);
    assert forall|snap: Seq<ReplicatedEntity>|
        #[trigger] snapshot_of(post, snap) implies forall|j: int|
        0 <= j < snap.len() ==> (#[trigger] snap[j]).entity != k by {
        assert forall|j: int| 0 <= j < snap.len() implies (#[trigger] snap[j]).entity != k by {
            if snap[j].entity == k {
                assert(post.entities@[k as int] is Some);
            }
        }
    }
}

/// Two sessions connecting one after the other receive distinct entities
/// and never collide: the sessions are necessarily distinct, both bindings
/// stand afterwards, and the later connect cannot have failed on a session
/// the earlier one bound.
pub proof fn lemma_distinct_connects(
    pre: World,
    mid: World,
    post: World,
    s1: SessionId,
    s2: SessionId,
    k1: EntityKey,
    k2: EntityKey,
)
    requires
        connected_ok(pre, mid, s1, k1),
        connected_ok(mid, post, s2, k2),
    ensures
        s1 != s2,
        k1 != k2,
        post.index.bound_to(s1, k1),
        post.index.bound_to(s2, k2),
{
    let mp = mid.index.pairs();
    let pp = post.index.pairs();
    assert(mp[mp.len() - 1].session == s1 && mp[mp.len() - 1].entity == k1);
    assert(mid.index.has_session(s1));
    assert(pp[pp.len() - 2] == mp[mp.len() - 1]);
    assert(pp[pp.len() - 1].session == s2 && pp[pp.len() - 1].entity == k2);
}

/// A zero retained direction halts movement: integration leaves such an
/// entity entirely unchanged, whatever time elapses.
pub proof fn lemma_zero_dir_halts(e: crate::world::OwnedEntity, dt_ms: int)
    requires
        e.dir == (Vec2Milli { x: 0, y: 0 }),
        e.position.in_range(POS_LIMIT_MILLI as int),
    ensures
        integrated(Some(e), dt_ms) == Some(e),
{
    assert(0 * (crate::movement::MOVE_SPEED as int) * dt_ms == 0) by (nonlinear_arith);
    assert(move_delta(0, dt_ms) == 0);
    assert(clamp_pos(e.position.x as int) == e.position.x as int);
    assert(clamp_pos(e.position.y as int) == e.position.y as int);
}

/// A zero-vector intent halts the sender's entity: once applied, every
/// following integration leaves the entity unchanged -- its retained
/// direction stays zero -- until some new intent supersedes it.
pub proof fn lemma_zero_intent_halts(
    pre: World,
    post: World,
    it: Intent,
    k: EntityKey,
    dt_ms: int,
)
    requires
        pre.wf(),
        intent_applied(pre, post, it, k),
        it.dir_milli() == (Vec2Milli { x: 0, y: 0 }),
    ensures
        post.entities@[k as int] is Some,
        post.entities@[k as int].unwrap().dir == (Vec2Milli { x: 0, y: 0 }),
        integrated(post.entities@[k as int], dt_ms) == post.entities@[k as int],
{
    let e = post.entities@[k as int].unwrap();
    assert(e.position == pre.entities@[k as int].unwrap().position);
    lemma_zero_dir_halts(e, dt_ms);
}

} // verus!
