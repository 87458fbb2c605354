//! Fixed-point 2D vectors.
//!
//! Positions and directions are held in milli-units: one simulation unit is
//! `SCALE` millis.  Directions are brought to unit length (or left zero) by
//! `normalize_or_zero`, the fixed-point counterpart of the usual
//! floating-point normalization.

use vstd::prelude::*;
use crate::numeric::{isqrt, isqrt_spec};
use vstd::arithmetic::div_mod::{lemma_div_is_ordered, lemma_div_multiples_vanish};

verus! {

/// Fixed-point scale: one simulation unit is this many millis.
pub const SCALE: i64 = 1000;

/// Largest magnitude (in millis) a direction component can carry.  Incoming
/// components are clamped to this before normalization, which leaves the
/// normalized result unchanged for every direction a well-behaved client
/// sends.
pub const DIR_LIMIT_MILLI: i64 = 0x40_0000;

/// A 2D vector in fixed-point milli-units.
#[derive(Clone, Copy, Debug, PartialEq, Eq, Structural)]
pub struct Vec2Milli {
    pub x: i64,
    pub y: i64,
}

impl Vec2Milli {
    /// The zero vector.
    pub open spec fn zero_spec() -> Vec2Milli {
        Vec2Milli { x: 0, y: 0 }
    }

    /// The zero vector.
    pub fn zero() -> (r: Vec2Milli)
        ensures
            r == Vec2Milli::zero_spec(),
    {
        Vec2Milli { x: 0, y: 0 }
    }

    /// Both components lie within `bound` millis of zero.
    pub open spec fn in_range(self, bound: int) -> bool {
        -bound <= self.x <= bound && -bound <= self.y <= bound
    }
}

/// `a * SCALE / len`, the magnitude rounded toward zero.
pub open spec fn scale_div(a: int, len: int) -> int {
    if a >= 0 {
        a * (SCALE as int) / len
    } else {
        -((-a) * (SCALE as int) / len)
    }
}

/// What normalization returns: the zero vector stays zero, any other vector
/// is scaled by `SCALE / |v|` with the magnitude of each component rounded
/// toward zero.
pub open spec fn normalize_spec(v: Vec2Milli) -> Vec2Milli {
    if v.x == 0 && v.y == 0 {
        v
    } else {
        let len = isqrt_spec(v.x * v.x + v.y * v.y);
        Vec2Milli { x: scale_div(v.x as int, len) as i64, y: scale_div(v.y as int, len) as i64 }
    }
}

/// Maps the zero vector to itself and any other vector to (fixed-point) unit
/// length.
pub fn normalize_or_zero(v: Vec2Milli) -> (r: Vec2Milli)
    requires
        v.in_range(DIR_LIMIT_MILLI as int),
    ensures
        r == normalize_spec(v),
        r.in_range(SCALE as int),
{
    if v.x == 0 && v.y == 0 {
        return v;
    }
    let ax: i64 = if v.x < 0 { -v.x } else { v.x };
    let ay: i64 = if v.y < 0 { -v.y } else { v.y };
    proof {
        assert(ax * ax == v.x * v.x && ay * ay == v.y * v.y) by (nonlinear_arith)
            requires
                ax == if v.x < 0 { -v.x as int } else { v.x as int },
                ay == if v.y < 0 { -v.y as int } else { v.y as int },
        ;
        assert(0 <= ax * ax <= 0x1000_0000_0000 && 0 <= ay * ay <= 0x1000_0000_0000
            && (ax != 0 ==> 1 <= ax * ax) && (ay != 0 ==> 1 <= ay * ay)) by (nonlinear_arith)
            requires
                0 <= ax <= 0x40_0000,
                0 <= ay <= 0x40_0000,
        ;
    }
    let n: u64 = ((ax * ax) as u64) + ((ay * ay) as u64);
    let len: u64 = isqrt(n);
    proof {
        assert(n >= 1);
        assert(1 <= len) by (nonlinear_arith)
            requires
                0 <= len,
                (n as int) < (len as int + 1) * (len as int + 1),
                1 <= n as int,
        ;
        assert(ax <= len && ay <= len) by (nonlinear_arith)
            requires
                0 <= ax,
                0 <= ay,
                0 <= len,
                ax * ax <= n as int,
                ay * ay <= n as int,
                (n as int) < (len as int + 1) * (len as int + 1),
        ;
        lemma_div_is_ordered((ax as int) * 1000, (len as int) * 1000, len as int);
        lemma_div_is_ordered((ay as int) * 1000, (len as int) * 1000, len as int);
        lemma_div_multiples_vanish(1000, len as int);
        assert((ax as int) * 1000 <= (len as int) * 1000);
        assert((ay as int) * 1000 <= (len as int) * 1000);
    }
    let ux: i64 = (((ax as u64) * 1000) / len) as i64;
    let uy: i64 = (((ay as u64) * 1000) / len) as i64;
    let rx: i64 = if v.x < 0 { -ux } else { ux };
    let ry: i64 = if v.y < 0 { -uy } else { uy };
    Vec2Milli { x: rx, y: ry }
}

} // verus!
