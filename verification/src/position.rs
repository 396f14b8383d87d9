//! Three-dimensional positions and the distance between them.
//!
//! Coordinates are kept as plain integers so that the arithmetic can be
//! reasoned about exactly; the distance is reported as the integer floor of
//! the Euclidean distance.

use vstd::prelude::*;

verus! {

/// Largest coordinate magnitude accepted by the distance computation; it
/// keeps every intermediate square sum inside `u128`.
pub const MAX_COORD: i64 = 0x4000_0000_0000_0000;

/// A point in the game world.
#[derive(Clone, Copy, Debug, PartialEq, Eq, Structural)]
pub struct Position {
    pub x: i64,
    pub y: i64,
    pub z: i64,
}

/// Whether a position's coordinates are small enough for exact distance
/// arithmetic.
pub open spec fn pos_in_range(p: Position) -> bool {
    -MAX_COORD <= p.x <= MAX_COORD && -MAX_COORD <= p.y <= MAX_COORD && -MAX_COORD <= p.z
        <= MAX_COORD
}

/// The squared Euclidean distance between two positions, as an unbounded
/// integer.
pub open spec fn dist_sq(p1: Position, p2: Position) -> int {
    (p1.x - p2.x) * (p1.x - p2.x) + (p1.y - p2.y) * (p1.y - p2.y) + (p1.z - p2.z) * (p1.z - p2.z)
}

/// Whether `r` is the floor of the square root of `n`.
pub open spec fn is_floor_sqrt(r: int, n: int) -> bool {
    r * r <= n < (r + 1) * (r + 1)
}

/// The squared distance does not depend on the order of its arguments, and
/// vanishes exactly on equal positions.
pub proof fn lemma_dist_sq_symmetric(p1: Position, p2: Position)
    ensures
        dist_sq(p1, p2) == dist_sq(p2, p1),
        dist_sq(p1, p2) >= 0,
        dist_sq(p1, p2) == 0 <==> p1 == p2,
{
    assert(dist_sq(p1, p2) == dist_sq(p2, p1)) by (nonlinear_arith);
    assert(dist_sq(p1, p2) >= 0) by (nonlinear_arith);
    assert(dist_sq(p1, p2) == 0 ==> p1.x == p2.x && p1.y == p2.y && p1.z == p2.z)
        by (nonlinear_arith);
    assert(p1 == p2 ==> dist_sq(p1, p2) == 0) by (nonlinear_arith);
}

/// A number has at most one floor square root: the distance is therefore a
/// function of the squared distance alone.
pub proof fn lemma_floor_sqrt_unique(r1: int, r2: int, n: int)
    requires
        r1 >= 0,
        r2 >= 0,
        is_floor_sqrt(r1, n),
        is_floor_sqrt(r2, n),
    ensures
        r1 == r2,
{
    if r1 < r2 {
        assert((r1 + 1) * (r1 + 1) <= r2 * r2) by (nonlinear_arith)
            requires
                0 <= r1 + 1 <= r2,
        ;
    }
    if r2 < r1 {
        assert((r2 + 1) * (r2 + 1) <= r1 * r1) by (nonlinear_arith)
            requires
                0 <= r2 + 1 <= r1,
        ;
    }
}

/// The distance between two positions is the same in either order.
pub proof fn lemma_distance_symmetric(p1: Position, p2: Position, r1: int, r2: int)
    requires
        r1 >= 0,
        r2 >= 0,
        is_floor_sqrt(r1, dist_sq(p1, p2)),
        is_floor_sqrt(r2, dist_sq(p2, p1)),
    ensures
        r1 == r2,
{
    lemma_dist_sq_symmetric(p1, p2);
    lemma_floor_sqrt_unique(r1, r2, dist_sq(p1, p2));
}

/// The distance from a position to itself is zero.
pub proof fn lemma_distance_self_zero(p: Position, r: int)
    requires
        r >= 0,
        is_floor_sqrt(r, dist_sq(p, p)),
    ensures
        r == 0,
{
    lemma_dist_sq_symmetric(p, p);
    lemma_floor_sqrt_unique(r, 0, 0);
}

/// The floor of the square root of `n`, found by binary search.
fn floor_sqrt_u128(n: u128) -> (r: u64)
    requires
        n < (u64::MAX as int) * (u64::MAX as int),
    ensures
        is_floor_sqrt(r as int, n as int),
{
    if n == 0 {
        return 0;
    }
    let mut lo: u64 = 0;
    let mut hi: u64 = u64::MAX;
    proof {
        assert((hi as int) * (hi as int) == (u64::MAX as int) * (u64::MAX as int));
    }
    while hi - lo > 1
        invariant
            lo < hi,
            (lo as int) * (lo as int) <= n as int,
            (n as int) < (hi as int) * (hi as int),
        decreases hi - lo,
    {
        let mid: u64 = lo + (hi - lo) / 2;
        proof {
            assert((mid as int) * (mid as int) <= (u64::MAX as int) * (u64::MAX as int))
                by (nonlinear_arith)
                requires
                    0 <= mid as int <= u64::MAX as int,
            {
            }
            assert((u64::MAX as int) * (u64::MAX as int) <= u128::MAX as int);
        }
        let sq: u128 = (mid as u128) * (mid as u128);
        if sq <= n {
            lo = mid;
        } else {
            hi = mid;
        }
    }
    proof {
        assert(hi == lo + 1);
    }
    lo
}

/// The integer floor of the Euclidean distance between two positions.
pub fn distance_between(pos1: &Position, pos2: &Position) -> (r: u64)
    requires
        pos_in_range(*pos1),
        pos_in_range(*pos2),
    ensures
        is_floor_sqrt(r as int, dist_sq(*pos1, *pos2)),
{
    let dx: i128 = pos1.x as i128 - pos2.x as i128;
    let dy: i128 = pos1.y as i128 - pos2.y as i128;
    let dz: i128 = pos1.z as i128 - pos2.z as i128;
    proof {
        assert(dx * dx >= 0 && dx * dx <= (4 * MAX_COORD as int) * MAX_COORD as int)
            by (nonlinear_arith)
            requires
                -2 * MAX_COORD as int <= dx <= 2 * MAX_COORD as int,
        {
        }
        assert(dy * dy >= 0 && dy * dy <= (4 * MAX_COORD as int) * MAX_COORD as int)
            by (nonlinear_arith)
            requires
                -2 * MAX_COORD as int <= dy <= 2 * MAX_COORD as int,
        {
        }
        assert(dz * dz >= 0 && dz * dz <= (4 * MAX_COORD as int) * MAX_COORD as int)
            by (nonlinear_arith)
            requires
                -2 * MAX_COORD as int <= dz <= 2 * MAX_COORD as int,
        {
        }
        assert(3 * ((4 * MAX_COORD as int) * MAX_COORD as int) < (u64::MAX as int) * (
        u64::MAX as int));
    }
    let sx: u128 = (dx * dx) as u128;
    let sy: u128 = (dy * dy) as u128;
    let sz: u128 = (dz * dz) as u128;
    let d2: u128 = sx + sy + sz;
    floor_sqrt_u128(d2)
}

} // verus!
