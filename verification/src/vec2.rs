//! Integer 2D vectors and the coordinate ranges the library works in.

use vstd::prelude::*;

verus! {

/// Largest coordinate magnitude a tracked position may have.  Keeping
/// positions in this range ensures that squared distances, velocities and
/// offset vertices all fit comfortably in `i64` arithmetic.
pub const COORD_LIMIT: i64 = 1048576;

/// Largest velocity component magnitude: a velocity is the difference of two
/// in-range coordinates, so it is bounded by twice `COORD_LIMIT`.
pub const VEL_LIMIT: i64 = 2097152;

/// A 2D point or vector with integer coordinates.
#[derive(Clone, Copy, Debug, PartialEq, Eq, Structural)]
pub struct Vec2I {
    pub x: i64,
    pub y: i64,
}

impl Vec2I {
    /// The zero vector.
    pub open spec fn zero_spec() -> Vec2I {
        Vec2I { x: 0, y: 0 }
    }

    pub fn new(x: i64, y: i64) -> (v: Vec2I)
        ensures
            v.x == x,
            v.y == y,
    {
        Vec2I { x, y }
    }

    pub fn zero() -> (v: Vec2I)
        ensures
            v == Vec2I::zero_spec(),
    {
        Vec2I { x: 0, y: 0 }
    }
}

/// Both coordinates lie within the position range.
pub open spec fn in_coord_range(v: Vec2I) -> bool {
    &&& -COORD_LIMIT <= v.x <= COORD_LIMIT
    &&& -COORD_LIMIT <= v.y <= COORD_LIMIT
}

/// Both coordinates lie within the velocity range.
pub open spec fn in_vel_range(v: Vec2I) -> bool {
    &&& -VEL_LIMIT <= v.x <= VEL_LIMIT
    &&& -VEL_LIMIT <= v.y <= VEL_LIMIT
}

/// Componentwise difference `a - b`.
pub open spec fn sub_spec(a: Vec2I, b: Vec2I) -> Vec2I {
    Vec2I { x: (a.x - b.x) as i64, y: (a.y - b.y) as i64 }
}

/// Squared Euclidean distance between `a` and `b`, as a mathematical integer.
pub open spec fn dist_sq_spec(a: Vec2I, b: Vec2I) -> int {
    (a.x - b.x) * (a.x - b.x) + (a.y - b.y) * (a.y - b.y)
}

/// Componentwise difference of two in-range positions.
pub fn vec2_sub(a: Vec2I, b: Vec2I) -> (d: Vec2I)
    requires
        in_coord_range(a),
        in_coord_range(b),
    ensures
        d == sub_spec(a, b),
        in_vel_range(d),
{
    Vec2I { x: a.x - b.x, y: a.y - b.y }
}

/// Squared Euclidean distance between two in-range positions.
pub fn dist_sq(a: Vec2I, b: Vec2I) -> (d: i64)
    requires
        in_coord_range(a),
        in_coord_range(b),
    ensures
        d == dist_sq_spec(a, b),
        d >= 0,
{
    let dx = a.x - b.x;
    let dy = a.y - b.y;
    proof {
        assert(dx * dx <= 2 * VEL_LIMIT * VEL_LIMIT && dx * dx >= 0) by (nonlinear_arith)
            requires
                -VEL_LIMIT <= dx <= VEL_LIMIT,
        ;
        assert(dy * dy <= 2 * VEL_LIMIT * VEL_LIMIT && dy * dy >= 0) by (nonlinear_arith)
            requires
                -VEL_LIMIT <= dy <= VEL_LIMIT,
        ;
    }
    dx * dx + dy * dy
}

} // verus!
