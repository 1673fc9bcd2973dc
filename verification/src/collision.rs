//! Axis-separated collision resolution.
//!
//! A move is resolved one axis at a time: the moving box is translated by the
//! displacement along a single axis, every obstacle the translated box
//! intersects (closed-interval test) blocks the move, and the box is snapped
//! to the nearest blocking face in the direction of travel.  A zero
//! displacement is never blocked.

use vstd::prelude::*;

use crate::geometry::{aabb_intersects, aabb_wf, strict_overlap, Aabb, Vec2};
use crate::globals::COORD_LIMIT;

verus! {

/// The axis a single resolution step works along.
#[derive(Clone, Copy, Debug, PartialEq, Eq, Structural)]
pub enum Axis {
    Horizontal,
    Vertical,
}

/// Lower edge of the box's projection on the given axis.
pub open spec fn axis_lo(bb: Aabb, axis: Axis) -> int {
    match axis {
        Axis::Horizontal => bb.a.x as int,
        Axis::Vertical => bb.a.y as int,
    }
}

/// Upper edge of the box's projection on the given axis.
pub open spec fn axis_hi(bb: Aabb, axis: Axis) -> int {
    match axis {
        Axis::Horizontal => bb.b.x as int,
        Axis::Vertical => bb.b.y as int,
    }
}

/// Extent of the box along the given axis.
pub open spec fn axis_extent(bb: Aabb, axis: Axis) -> int {
    axis_hi(bb, axis) - axis_lo(bb, axis)
}

/// The box shifted by `delta` along `axis`.
pub open spec fn translate_spec(bb: Aabb, delta: int, axis: Axis) -> Aabb {
    match axis {
        Axis::Horizontal => Aabb {
            a: Vec2 { x: (bb.a.x + delta) as i64, y: bb.a.y },
            b: Vec2 { x: (bb.b.x + delta) as i64, y: bb.b.y },
        },
        Axis::Vertical => Aabb {
            a: Vec2 { x: bb.a.x, y: (bb.a.y + delta) as i64 },
            b: Vec2 { x: bb.b.x, y: (bb.b.y + delta) as i64 },
        },
    }
}

/// Whether some obstacle blocks the box translated by `delta` along `axis`.
pub open spec fn move_blocked(bb: Aabb, delta: int, axis: Axis, obstacles: Seq<Aabb>) -> bool {
    delta != 0 && exists|i: int|
        0 <= i < obstacles.len() && aabb_intersects(translate_spec(bb, delta, axis), obstacles[i])
}

fn translate(bb: Aabb, delta: i64, axis: Axis) -> (t: Aabb)
    requires
        aabb_wf(bb),
        -COORD_LIMIT <= delta <= COORD_LIMIT,
    ensures
        t == translate_spec(bb, delta as int, axis),
{
    match axis {
        Axis::Horizontal => Aabb {
            a: Vec2 { x: bb.a.x + delta, y: bb.a.y },
            b: Vec2 { x: bb.b.x + delta, y: bb.b.y },
        },
        Axis::Vertical => Aabb {
            a: Vec2 { x: bb.a.x, y: bb.a.y + delta },
            b: Vec2 { x: bb.b.x, y: bb.b.y + delta },
        },
    }
}

fn axis_lo_of(bb: &Aabb, axis: Axis) -> (r: i64)
    ensures
        r == axis_lo(*bb, axis),
{
    match axis {
        Axis::Horizontal => bb.a.x,
        Axis::Vertical => bb.a.y,
    }
}

fn axis_hi_of(bb: &Aabb, axis: Axis) -> (r: i64)
    ensures
        r == axis_hi(*bb, axis),
{
    match axis {
        Axis::Horizontal => bb.b.x,
        Axis::Vertical => bb.b.y,
    }
}

/// Resolves a move of `moving` by `delta` along `axis` against `obstacles`.
///
/// Returns the new lower edge of the box on that axis and whether the move
/// was blocked.  A free move lands exactly at `lo + delta`.  A blocked
/// negative move snaps the lower edge to the greatest far edge among the
/// blocking obstacles; a blocked positive move snaps the upper edge to the
/// least near edge among them.  Either way the resolved box no longer
/// strictly overlaps any blocking obstacle on the resolved axis.
pub fn resolve_axis(moving: Aabb, delta: i64, axis: Axis, obstacles: &Vec<Aabb>) -> (r: (
    i64,
    bool,
))
    requires
        aabb_wf(moving),
        -COORD_LIMIT <= delta <= COORD_LIMIT,
        forall|i: int| 0 <= i < obstacles@.len() ==> aabb_wf(#[trigger] obstacles@[i]),
    ensures
        r.1 == move_blocked(moving, delta as int, axis, obstacles@),
        !r.1 ==> r.0 == axis_lo(moving, axis) + delta,
        r.1 && delta < 0 ==> {
            let t = translate_spec(moving, delta as int, axis);
            &&& exists|i: int|
                0 <= i < obstacles@.len() && aabb_intersects(t, #[trigger] obstacles@[i])
                    && r.0 == axis_hi(obstacles@[i], axis)
            &&& forall|i: int|
                0 <= i < obstacles@.len() && aabb_intersects(t, #[trigger] obstacles@[i])
                    ==> axis_hi(obstacles@[i], axis) <= r.0
        },
        r.1 && delta > 0 ==> {
            let t = translate_spec(moving, delta as int, axis);
            &&& exists|i: int|
                0 <= i < obstacles@.len() && aabb_intersects(t, #[trigger] obstacles@[i])
                    && r.0 == axis_lo(obstacles@[i], axis) - axis_extent(moving, axis)
            &&& forall|i: int|
                0 <= i < obstacles@.len() && aabb_intersects(t, #[trigger] obstacles@[i])
                    ==> axis_lo(obstacles@[i], axis) >= r.0 + axis_extent(moving, axis)
        },
        forall|i: int|
            0 <= i < obstacles@.len() && aabb_intersects(
                translate_spec(moving, delta as int, axis),
                #[trigger] obstacles@[i],
            ) && delta != 0 ==> !strict_overlap(
                r.0 as int,
                r.0 + axis_extent(moving, axis),
                axis_lo(obstacles@[i], axis),
                axis_hi(obstacles@[i], axis),
            ),
{
    let lo = axis_lo_of(&moving, axis);
    if delta == 0 {
        return (lo, false);
    }
    let t = translate(moving, delta, axis);
    let ghost tg = translate_spec(moving, delta as int, axis);
    let mut best: Option<i64> = None;
    let n = obstacles.len();
    let mut i: usize = 0;
    while i < n
        invariant
            n == obstacles@.len(),
            0 <= i <= n,
            delta != 0,
            forall|j: int| 0 <= j < obstacles@.len() ==> aabb_wf(#[trigger] obstacles@[j]),
            t == tg,
            best is None <==> forall|j: int|
                0 <= j < i ==> !aabb_intersects(tg, #[trigger] obstacles@[j]),
            best matches Some(m) ==> {
                &&& delta < 0 ==> {
                    &&& exists|j: int|
                        0 <= j < i && aabb_intersects(tg, #[trigger] obstacles@[j]) && m == axis_hi(
                            obstacles@[j],
                            axis,
                        )
                    &&& forall|j: int|
                        0 <= j < i && aabb_intersects(tg, #[trigger] obstacles@[j]) ==> axis_hi(
                            obstacles@[j],
                            axis,
                        ) <= m
                }
                &&& delta > 0 ==> {
                    &&& exists|j: int|
                        0 <= j < i && aabb_intersects(tg, #[trigger] obstacles@[j]) && m == axis_lo(
                            obstacles@[j],
                            axis,
                        )
                    &&& forall|j: int|
                        0 <= j < i && aabb_intersects(tg, #[trigger] obstacles@[j]) ==> axis_lo(
                            obstacles@[j],
                            axis,
                        ) >= m
                }
            },
        decreases n - i,
    {
        if t.intersects(&obstacles[i]) {
            let edge = if delta < 0 {
                axis_hi_of(&obstacles[i], axis)
            } else {
                axis_lo_of(&obstacles[i], axis)
            };
            best = match best {
                None => Some(edge),
                Some(m) => if delta < 0 {
                    Some(if edge > m {
                        edge
                    } else {
                        m
                    })
                } else {
                    Some(if edge < m {
                        edge
                    } else {
                        m
                    })
                },
            };
        }
        i += 1;
    }
    match best {
        None => (lo + delta, false),
        Some(m) => {
            if delta < 0 {
                (m, true)
            } else {
                let hi = axis_hi_of(&moving, axis);
                let extent = hi - lo;
                (m - extent, true)
            }
        },
    }
}

} // verus!
