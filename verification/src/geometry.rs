//! Geometry primitives: fixed-point scalars, 2-d vectors and axis-aligned
//! bounding boxes.
//!
//! A coordinate is an `i64` counting micro-units (`globals::SCALE` per world
//! unit).  Everything the simulation touches stays within
//! `globals::COORD_LIMIT`; the helpers here carry the bounds that keep all
//! products inside `i64`.

use vstd::prelude::*;

use crate::globals::{COORD_LIMIT, MAX_DELTA, SCALE, TILE_SIZE};

verus! {

/// A 2-d vector of fixed-point coordinates.
#[derive(Clone, Copy, Debug, PartialEq, Eq, Structural)]
pub struct Vec2 {
    pub x: i64,
    pub y: i64,
}

/// An axis-aligned box: `a` is the min corner, `b` the max corner.
#[derive(Clone, Copy, Debug, PartialEq, Eq, Structural)]
pub struct Aabb {
    pub a: Vec2,
    pub b: Vec2,
}

/// Coordinates the simulation works with stay within this bound.
pub open spec fn in_range(x: int) -> bool {
    -COORD_LIMIT <= x <= COORD_LIMIT
}

/// Slightly wider bound met by collider corners and centres, which add a few
/// tiles of offset to an in-range position.  Squared distances of two such
/// coordinates still fit in `i64`.
pub open spec fn in_wide_range(x: int) -> bool {
    -(COORD_LIMIT + 4 * TILE_SIZE) <= x <= COORD_LIMIT + 4 * TILE_SIZE
}

pub open spec fn vec_in_range(v: Vec2) -> bool {
    in_range(v.x as int) && in_range(v.y as int)
}

pub open spec fn vec_in_wide_range(v: Vec2) -> bool {
    in_wide_range(v.x as int) && in_wide_range(v.y as int)
}

/// A well-formed box has its min corner at or below its max corner, and both
/// within the wide coordinate range.
pub open spec fn aabb_wf(bb: Aabb) -> bool {
    &&& bb.a.x <= bb.b.x
    &&& bb.a.y <= bb.b.y
    &&& vec_in_wide_range(bb.a)
    &&& vec_in_wide_range(bb.b)
}

/// Closed-interval overlap on both axes: boxes that merely touch along an
/// edge count as intersecting.
pub open spec fn aabb_intersects(s: Aabb, o: Aabb) -> bool {
    &&& s.a.x <= o.b.x
    &&& o.a.x <= s.b.x
    &&& s.a.y <= o.b.y
    &&& o.a.y <= s.b.y
}

/// Strict overlap on one axis: the interiors of the two projections meet.
/// A box resting exactly on a face does not strictly overlap it.
pub open spec fn strict_overlap(lo1: int, hi1: int, lo2: int, hi2: int) -> bool {
    lo1 < hi2 && lo2 < hi1
}

impl Vec2 {
    pub fn new(x: i64, y: i64) -> (v: Vec2)
        ensures
            v == (Vec2 { x, y }),
    {
        Vec2 { x, y }
    }

    pub open spec fn spec_zero() -> Vec2 {
        Vec2 { x: 0, y: 0 }
    }

    pub fn zero() -> (v: Vec2)
        ensures
            v == Vec2::spec_zero(),
    {
        Vec2 { x: 0, y: 0 }
    }
}

impl Aabb {
    pub fn new(a: Vec2, b: Vec2) -> (bb: Aabb)
        ensures
            bb == (Aabb { a, b }),
    {
        Aabb { a, b }
    }

    /// Closed-interval intersection test on both axes.
    pub fn intersects(&self, other: &Aabb) -> (r: bool)
        ensures
            r == aabb_intersects(*self, *other),
    {
        self.a.x <= other.b.x && other.a.x <= self.b.x && self.a.y <= other.b.y
            && other.a.y <= self.b.y
    }
}

/// Truncating division of a micro-unit product by `SCALE`.
pub open spec fn scale_down(x: int) -> int {
    if x >= 0 {
        x / (SCALE as int)
    } else {
        -((-x) / (SCALE as int))
    }
}

/// `x` clamped into `[-COORD_LIMIT, COORD_LIMIT]`.
pub open spec fn clamp_coord_spec(x: int) -> int {
    if x < -COORD_LIMIT {
        -COORD_LIMIT as int
    } else if x > COORD_LIMIT {
        COORD_LIMIT as int
    } else {
        x
    }
}

pub fn clamp_coord(x: i64) -> (r: i64)
    ensures
        r == clamp_coord_spec(x as int),
        in_range(r as int),
{
    if x < -COORD_LIMIT {
        -COORD_LIMIT
    } else if x > COORD_LIMIT {
        COORD_LIMIT
    } else {
        x
    }
}

pub open spec fn abs_spec(x: int) -> int {
    if x < 0 {
        -x
    } else {
        x
    }
}

pub fn abs_i64(x: i64) -> (r: i64)
    requires
        x > i64::MIN,
    ensures
        r == abs_spec(x as int),
{
    if x < 0 {
        -x
    } else {
        x
    }
}

/// Scales a rate `a` by a duration `b`: truncated `a * b / SCALE`.
pub fn mul_scale(a: i64, b: i64) -> (r: i64)
    requires
        -2 * COORD_LIMIT <= a <= 2 * COORD_LIMIT,
        0 <= b <= MAX_DELTA,
    ensures
        r == scale_down(a * b),
        abs_spec(r as int) <= abs_spec(a as int),
{
    proof {
        lemma_abs_mul_bound(a as int, b as int, 2 * COORD_LIMIT as int, MAX_DELTA as int);
        lemma_scale_down_shrinks(a as int, b as int);
    }
    let p: i64 = a * b;
    if p >= 0 {
        ((p as u64) / (SCALE as u64)) as i64
    } else {
        let q: u64 = ((-p) as u64) / (SCALE as u64);
        -(q as i64)
    }
}

/// Squared Euclidean distance of two points.
pub open spec fn dist_sq(a: Vec2, b: Vec2) -> int {
    (a.x - b.x) * (a.x - b.x) + (a.y - b.y) * (a.y - b.y)
}

/// Whether `a` and `b` lie within distance `d` of each other.
pub fn dist_within(a: Vec2, b: Vec2, d: i64) -> (r: bool)
    requires
        vec_in_wide_range(a),
        vec_in_wide_range(b),
        0 <= d <= 2 * COORD_LIMIT,
    ensures
        r == (dist_sq(a, b) <= d * d),
{
    let dx: i64 = a.x - b.x;
    let dy: i64 = a.y - b.y;
    proof {
        lemma_abs_mul_bound(dx as int, dx as int, 2_008_000_000, 2_008_000_000);
        lemma_abs_mul_bound(dy as int, dy as int, 2_008_000_000, 2_008_000_000);
        lemma_abs_mul_bound(d as int, d as int, 2_000_000_000, 2_000_000_000);
        lemma_square_nonneg(dx as int);
        lemma_square_nonneg(dy as int);
        lemma_square_nonneg(d as int);
    }
    let sq: i64 = dx * dx + dy * dy;
    let dd: i64 = d * d;
    sq <= dd
}

/// Whether `a` and `b` lie strictly within distance `d` of each other.
pub fn dist_below(a: Vec2, b: Vec2, d: i64) -> (r: bool)
    requires
        vec_in_wide_range(a),
        vec_in_wide_range(b),
        0 <= d <= 2 * COORD_LIMIT,
    ensures
        r == (dist_sq(a, b) < d * d),
{
    let dx: i64 = a.x - b.x;
    let dy: i64 = a.y - b.y;
    proof {
        lemma_abs_mul_bound(dx as int, dx as int, 2_008_000_000, 2_008_000_000);
        lemma_abs_mul_bound(dy as int, dy as int, 2_008_000_000, 2_008_000_000);
        lemma_abs_mul_bound(d as int, d as int, 2_000_000_000, 2_000_000_000);
        lemma_square_nonneg(dx as int);
        lemma_square_nonneg(dy as int);
        lemma_square_nonneg(d as int);
    }
    let sq: i64 = dx * dx + dy * dy;
    let dd: i64 = d * d;
    sq < dd
}

/// `|a| <= bound_a` and `|b| <= bound_b` bound `|a * b|` by their product.
proof fn lemma_abs_mul_bound(a: int, b: int, bound_a: int, bound_b: int)
    by (nonlinear_arith)
    requires
        abs_spec(a) <= bound_a,
        abs_spec(b) <= bound_b,
    ensures
        abs_spec(a * b) <= bound_a * bound_b,
{
}

proof fn lemma_square_nonneg(a: int)
    by (nonlinear_arith)
    ensures
        a * a >= 0,
{
}

/// Truncating a product of a rate and a sub-second duration by `SCALE`
/// cannot exceed the rate's own magnitude.
proof fn lemma_scale_down_shrinks(a: int, b: int)
    by (nonlinear_arith)
    requires
        0 <= b <= SCALE,
    ensures
        abs_spec(scale_down(a * b)) <= abs_spec(a),
        a * b >= 0 ==> scale_down(a * b) == (a * b) / (SCALE as int),
        a * b < 0 ==> scale_down(a * b) == -((-(a * b)) / (SCALE as int)),
{
}

} // verus!
