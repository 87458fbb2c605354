//! The movement integrator and the simulation tick.
//!
//! Each tick the pending intents are applied in arrival order, then every
//! live entity advances by its retained direction: `position +=
//! normalize_or_zero(direction) * MOVE_SPEED * elapsed`.  The server's
//! resulting positions are authoritative; clients never predict.

use vstd::prelude::*;
use crate::{EntityKey, SessionId};
use crate::intent::{apply_intent, with_dir, Intent, IntentOutcome};
use crate::ownership::{lemma_ownership_one_to_one, OwnershipIndex};
use crate::vector::{normalize_spec, Vec2Milli, SCALE};
use crate::world::{OwnedEntity, World, POS_LIMIT_MILLI};

verus! {

/// Movement speed, in simulation units per second.
pub const MOVE_SPEED: i64 = 300;

/// Largest elapsed time one tick may cover, in milliseconds.
pub const MAX_TICK_MS: u64 = 60_000;

/// `p` clamped to the playfield bound.
pub open spec fn clamp_pos(p: int) -> int {
    if p < -POS_LIMIT_MILLI {
        -POS_LIMIT_MILLI as int
    } else if p > POS_LIMIT_MILLI {
        POS_LIMIT_MILLI as int
    } else {
        p
    }
}

/// Millis travelled along one axis in `dt_ms` milliseconds by a retained
/// direction component of `d` millis, the magnitude rounded toward zero:
/// `d * MOVE_SPEED * dt_ms / 1000`.
pub open spec fn move_delta(d: int, dt_ms: int) -> int {
    if d >= 0 {
        d * (MOVE_SPEED as int) * dt_ms / 1000
    } else {
        -((-d) * (MOVE_SPEED as int) * dt_ms / 1000)
    }
}

/// One arena slot after `dt_ms` milliseconds of movement: a live entity
/// advances by its retained direction, an empty slot stays empty.
pub open spec fn integrated(e: Option<OwnedEntity>, dt_ms: int) -> Option<OwnedEntity> {
    match e {
        None => None,
        Some(p) => Some(
            OwnedEntity {
                position: Vec2Milli {
                    x: clamp_pos(p.position.x + move_delta(p.dir.x as int, dt_ms)) as i64,
                    y: clamp_pos(p.position.y + move_delta(p.dir.y as int, dt_ms)) as i64,
                },
                dir: p.dir,
                ferris: p.ferris,
            },
        ),
    }
}

/// The arena after one intent: nothing moves for a rejected or unbound
/// message; otherwise the sender's entity retains the normalized direction.
pub open spec fn intent_step(
    ents: Seq<Option<OwnedEntity>>,
    idx: OwnershipIndex,
    it: Intent,
) -> Seq<Option<OwnedEntity>> {
    if !it.finite() || !idx.has_session(it.session) {
        ents
    } else {
        let k = idx.session_entity(it.session);
        if k < ents.len() && ents[k as int] is Some {
            ents.update(
                k as int,
                Some(with_dir(ents[k as int].unwrap(), normalize_spec(it.dir_milli()))),
            )
        } else {
            ents
        }
    }
}

/// The arena after the pending intents are applied in arrival order.
pub open spec fn applied_all(
    ents: Seq<Option<OwnedEntity>>,
    idx: OwnershipIndex,
    intents: Seq<Intent>,
) -> Seq<Option<OwnedEntity>>
    decreases intents.len(),
{
    if intents.len() == 0 {
        ents
    } else {
        intent_step(applied_all(ents, idx, intents.drop_last()), idx, intents.last())
    }
}

/// Applying intents never grows or shrinks the arena.
pub proof fn lemma_applied_all_len(
    ents: Seq<Option<OwnedEntity>>,
    idx: OwnershipIndex,
    intents: Seq<Intent>,
)
    ensures
        applied_all(ents, idx, intents).len() == ents.len(),
    decreases intents.len(),
{
    if intents.len() > 0 {
        lemma_applied_all_len(ents, idx, intents.drop_last());
    }
}

/// The travelled distance along one axis, computed in machine arithmetic.
fn move_delta_exec(d: i64, dt_ms: u64) -> (r: i64)
    requires
        -SCALE <= d <= SCALE,
        dt_ms <= MAX_TICK_MS,
    ensures
        r as int == move_delta(d as int, dt_ms as int),
        -18_000_000_000 <= r <= 18_000_000_000,
{
    let mag: i64 = if d < 0 { -d } else { d };
    proof {
        assert(0 <= (mag as int) * 300 * (dt_ms as int) <= 18_000_000_000_000)
            by (nonlinear_arith)
            requires
                0 <= mag <= 1000,
                0 <= dt_ms <= 60_000,
        ;
        assert((mag as int) * (MOVE_SPEED as int) == (mag as int) * 300);
    }
    let q: i64 = mag * MOVE_SPEED * (dt_ms as i64) / 1000;
    if d < 0 {
        -q
    } else {
        q
    }
}

/// Advances every live entity by its retained direction over `dt_ms`
/// milliseconds, clamping positions to the playfield.  The index and the
/// set of live entities are untouched.
pub fn integrate(w: &mut World, dt_ms: u64)
    requires
        old(w).wf(),
        dt_ms <= MAX_TICK_MS,
    ensures
        final(w).wf(),
        final(w).index == old(w).index,
        final(w).entities@.len() == old(w).entities@.len(),
        forall|k: int|
            0 <= k < old(w).entities@.len() ==> final(w).entities@[k] == integrated(
                old(w).entities@[k],
                dt_ms as int,
            ),
{
    let mut k: usize = 0;
    let n = w.entities.len();
    while k < n
        invariant
            old(w).wf(),
            dt_ms <= MAX_TICK_MS,
            k <= n,
            n == w.entities@.len(),
            w.index == old(w).index,
            w.entities@.len() == old(w).entities@.len(),
            forall|j: int|
                0 <= j < k ==> w.entities@[j] == integrated(old(w).entities@[j], dt_ms as int),
            forall|j: int| k <= j < n ==> w.entities@[j] == old(w).entities@[j],
        decreases n - k,
    {
        let ent = w.entities[k];
        match ent {
            Some(e) => {
                proof {
                    assert(old(w).entities@[k as int] is Some);
                }
                let mdx = move_delta_exec(e.dir.x, dt_ms);
                let mdy = move_delta_exec(e.dir.y, dt_ms);
                let px = clamp_pos_exec(e.position.x + mdx);
                let py = clamp_pos_exec(e.position.y + mdy);
                w.entities[k] = Some(
                    OwnedEntity {
                        position: Vec2Milli { x: px, y: py },
                        dir: e.dir,
                        ferris: e.ferris,
                    },
                );
            },
            None => {},
        }
        k += 1;
    }
    proof {
        let pre = *old(w);
        let post = *w;
        assert forall|s2: SessionId, e2: EntityKey|
            #[trigger] post.index.bound_to(s2, e2) implies e2 < post.entities@.len()
            && post.entities@[e2 as int] is Some by {
            assert(pre.entities@[e2 as int] is Some);
            assert(post.entities@[e2 as int] == integrated(pre.entities@[e2 as int], dt_ms as int));
        }
        assert forall|k2: EntityKey|
            k2 < post.entities@.len() && (#[trigger] post.entities@[k2 as int]) is Some implies post
            .index.has_entity(k2) by {
            assert(post.entities@[k2 as int] == integrated(pre.entities@[k2 as int], dt_ms as int));
            assert(pre.entities@[k2 as int] is Some);
        }
        assert forall|k2: int|
            0 <= k2 < post.entities@.len() && (#[trigger] post.entities@[k2]) is Some implies {
            let en = post.entities@[k2].unwrap();
            en.dir.in_range(SCALE as int) && en.position.in_range(POS_LIMIT_MILLI as int)
        } by {
            assert(post.entities@[k2] == integrated(pre.entities@[k2], dt_ms as int));
            assert(pre.entities@[k2] is Some);
        }
    }
}

/// `p` clamped to the playfield bound.
fn clamp_pos_exec(p: i64) -> (r: i64)
    ensures
        r as int == clamp_pos(p as int),
{
    if p < -POS_LIMIT_MILLI {
        -POS_LIMIT_MILLI
    } else if p > POS_LIMIT_MILLI {
        POS_LIMIT_MILLI
    } else {
        p
    }
}

/// One simulation tick: applies the pending intents in arrival order, then
/// integrates every live entity over the elapsed time.  Connect and
/// disconnect notifications are handled between ticks, so a lookup during
/// integration never observes a half-applied binding.
pub fn tick(w: &mut World, intents: &Vec<Intent>, dt_ms: u64)
    requires
        old(w).wf(),
        dt_ms <= MAX_TICK_MS,
    ensures
        final(w).wf(),
        final(w).index == old(w).index,
        final(w).entities@.len() == old(w).entities@.len(),
        forall|k: int|
            0 <= k < old(w).entities@.len() ==> final(w).entities@[k] == integrated(
                applied_all(old(w).entities@, old(w).index, intents@)[k],
                dt_ms as int,
            ),
        applied_all(old(w).entities@, old(w).index, intents@).len() == old(w).entities@.len(),
{
    let mut i: usize = 0;
    let n = intents.len();
    while i < n
        invariant
            old(w).wf(),
            w.wf(),
            dt_ms <= MAX_TICK_MS,
            i <= n,
            n == intents@.len(),
            w.index == old(w).index,
            w.entities@ == applied_all(old(w).entities@, old(w).index, intents@.take(i as int)),
        decreases n - i,
    {
        let it = intents[i];
        let ghost prev = w.entities@;
        let outcome = apply_intent(w, it);
        proof {
            let idx = old(w).index;
            match outcome {
                IntentOutcome::RejectedInvalid => {
                    assert(w.entities@ == intent_step(prev, idx, it));
                },
                IntentOutcome::DroppedUnbound => {
                    assert(w.entities@ == intent_step(prev, idx, it));
                },
                IntentOutcome::Applied { entity } => {
                    assert(idx.has_session(it.session));
                    let k = idx.session_entity(it.session);
                    assert(idx.bound_to(it.session, k));
                    lemma_ownership_one_to_one(idx, it.session, k, it.session, entity);
                    assert(k == entity);
                    assert(w.entities@ == intent_step(prev, idx, it));
                },
            }
            assert(intents@.take(i + 1).drop_last() =~= intents@.take(i as int));
            assert(intents@.take(i + 1).last() == it);
            assert(w.entities@ == applied_all(old(w).entities@, idx, intents@.take(i + 1)));
        }
        i += 1;
    }
    proof {
        assert(intents@.take(n as int) =~= intents@);
        lemma_applied_all_len(old(w).entities@, old(w).index, intents@);
    }
    integrate(w, dt_ms);
}

} // verus!
