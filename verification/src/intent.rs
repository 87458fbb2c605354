//! The intent channel: ordered, per-session movement messages.
//!
//! Each message carries the sending session and a requested direction, two
//! single-precision components as raw bit patterns.  A message with a
//! non-finite component is rejected and dropped without touching any state;
//! a message from a session that owns nothing -- the race of an intent
//! overtaking its own disconnect -- is dropped silently; any other message
//! replaces the retained direction of the sender's entity, which the
//! movement integrator consumes each tick until a new intent supersedes it.

use vstd::prelude::*;
use crate::{EntityKey, SessionId};
use crate::floatbits::{decode_component, finite_bits, is_finite_bits, milli_of_bits};
use crate::vector::{normalize_or_zero, normalize_spec, Vec2Milli, SCALE};
use crate::world::{unchanged, OwnedEntity, World, POS_LIMIT_MILLI};

verus! {

/// An ephemeral movement message from a client.
#[derive(Clone, Copy, Debug)]
pub struct Intent {
    /// The sending session.
    pub session: SessionId,
    /// Bit pattern of the direction's first component.
    pub x_bits: u32,
    /// Bit pattern of the direction's second component.
    pub y_bits: u32,
}

impl Intent {
    /// Both components encode finite numbers.
    pub open spec fn finite(self) -> bool {
        is_finite_bits(self.x_bits) && is_finite_bits(self.y_bits)
    }

    /// The requested direction in millis, before normalization.
    pub open spec fn dir_milli(self) -> Vec2Milli {
        Vec2Milli { x: milli_of_bits(self.x_bits) as i64, y: milli_of_bits(self.y_bits) as i64 }
    }
}

/// How one intent was handled.
#[derive(Clone, Copy, Debug, PartialEq, Eq, Structural)]
pub enum IntentOutcome {
    /// The direction was stored on the sender's entity.
    Applied { entity: EntityKey },
    /// The sender owns nothing: an intent that overtook its disconnect.
    /// Dropped silently.
    DroppedUnbound,
    /// A component is not finite: the message alone is rejected.
    RejectedInvalid,
}

/// `e` with its retained direction replaced by `d`.
pub open spec fn with_dir(e: OwnedEntity, d: Vec2Milli) -> OwnedEntity {
    OwnedEntity { position: e.position, dir: d, ferris: e.ferris }
}

/// `post` is `pre` with the retained direction of entity `k` -- bound to
/// the sender of `it` -- replaced by the normalized requested direction.
/// Positions, every other entity, and the index are untouched.
pub open spec fn intent_applied(pre: World, post: World, it: Intent, k: EntityKey) -> bool {
    &&& it.finite()
    &&& pre.index.bound_to(it.session, k)
    &&& k < pre.entities@.len()
    &&& pre.entities@[k as int] is Some
    &&& post.entities@ == pre.entities@.update(
        k as int,
        Some(with_dir(pre.entities@[k as int].unwrap(), normalize_spec(it.dir_milli()))),
    )
    &&& post.index == pre.index
}

/// Ingests one intent: validates it, finds the sender's entity, and stores
/// the normalized direction on it.
pub fn apply_intent(w: &mut World, it: Intent) -> (r: IntentOutcome)
    requires
        old(w).wf(),
    ensures
        final(w).wf(),
        final(w).index == old(w).index,
        match r {
            IntentOutcome::RejectedInvalid => !it.finite() && unchanged(*old(w), *final(w)),
            IntentOutcome::DroppedUnbound => it.finite() && !old(w).index.has_session(it.session)
                && unchanged(*old(w), *final(w)),
            IntentOutcome::Applied { entity } => intent_applied(*old(w), *final(w), it, entity),
        },
{
    if !finite_bits(it.x_bits) || !finite_bits(it.y_bits) {
        return IntentOutcome::RejectedInvalid;
    }
    let found = w.index.lookup_by_session(it.session);
    let k = match found {
        Some(k) => k,
        None => {
            return IntentOutcome::DroppedUnbound;
        },
    };
    let dx = decode_component(it.x_bits);
    let dy = decode_component(it.y_bits);
    let nd = normalize_or_zero(Vec2Milli { x: dx, y: dy });
    let ent = w.entities[k];
    match ent {
        Some(e) => {
            w.entities[k] = Some(OwnedEntity { position: e.position, dir: nd, ferris: e.ferris });
            proof {
                let pre = *old(w);
                let post = *w;
                assert(post.entities@ == pre.entities@.update(
                    k as int,
                    Some(with_dir(pre.entities@[k as int].unwrap(), normalize_spec(it.dir_milli()))),
                ));
                assert forall|s2: SessionId, e2: EntityKey|
                    #[trigger] post.index.bound_to(s2, e2) implies e2 < post.entities@.len()
                    && post.entities@[e2 as int] is Some by {
                    if e2 != k {
                        assert(post.entities@[e2 as int] == pre.entities@[e2 as int]);
                    }
                }
                assert forall|k2: EntityKey|
                    k2 < post.entities@.len() && (#[trigger] post.entities@[k2 as int]) is Some
                    implies post.index.has_entity(k2) by {
                    if k2 != k {
                        assert(post.entities@[k2 as int] == pre.entities@[k2 as int]);
                    } else {
                        assert(pre.entities@[k2 as int] is Some);
                    }
                }
                assert forall|k2: int|
                    0 <= k2 < post.entities@.len() && (#[trigger] post.entities@[k2]) is Some
                    implies {
                    let en = post.entities@[k2].unwrap();
                    en.dir.in_range(SCALE as int) && en.position.in_range(POS_LIMIT_MILLI as int)
                } by {
                    if k2 != k as int {
                        assert(post.entities@[k2] == pre.entities@[k2]);
                    }
                }
            }
            IntentOutcome::Applied { entity: k }
        },
        None => {
            // the index only holds live entities
            proof {
                assert(false);
            }
            vstd::pervasive::unreached()
        },
    }
}

} // verus!
