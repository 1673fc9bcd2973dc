//! The moving-entity body: a position with an attached collider box.
//!
//! The collider is recomputed from the position on every query, so it can
//! never go stale.  `flip_x` records which way the entity faces; it is the
//! only purely visual attribute the simulation itself decides.

use vstd::prelude::*;

use crate::geometry::{aabb_wf, vec_in_range, vec_in_wide_range, Aabb, Vec2};
use crate::globals::TILE_SIZE;

verus! {

#[derive(Clone, Copy, Debug, PartialEq, Eq, Structural)]
pub struct DynamicSprite {
    pub position: Vec2,
    pub collider_size: Vec2,
    pub collider_offset: Vec2,
    pub flip_x: bool,
}

/// A body's position stays in range; its collider is at most two tiles on a
/// side and offset by at most a tile from the position.
pub open spec fn sprite_wf(s: DynamicSprite) -> bool {
    &&& vec_in_range(s.position)
    &&& 0 <= s.collider_size.x <= 2 * TILE_SIZE
    &&& 0 <= s.collider_size.y <= 2 * TILE_SIZE
    &&& -TILE_SIZE <= s.collider_offset.x <= TILE_SIZE
    &&& -TILE_SIZE <= s.collider_offset.y <= TILE_SIZE
}

/// The collider box: position plus offset spans the min corner.
pub open spec fn spec_aabb(s: DynamicSprite) -> Aabb {
    Aabb {
        a: Vec2 {
            x: (s.position.x + s.collider_offset.x) as i64,
            y: (s.position.y + s.collider_offset.y) as i64,
        },
        b: Vec2 {
            x: (s.position.x + s.collider_offset.x + s.collider_size.x) as i64,
            y: (s.position.y + s.collider_offset.y + s.collider_size.y) as i64,
        },
    }
}

/// The collider's centre point.
pub open spec fn spec_centre(s: DynamicSprite) -> Vec2 {
    Vec2 {
        x: (s.position.x + s.collider_offset.x + s.collider_size.x / 2) as i64,
        y: (s.position.y + s.collider_offset.y + s.collider_size.y / 2) as i64,
    }
}

impl DynamicSprite {
    pub fn new(position: Vec2, collider_size: Vec2, collider_offset: Vec2) -> (s: DynamicSprite)
        ensures
            s == (DynamicSprite { position, collider_size, collider_offset, flip_x: false }),
    {
        DynamicSprite { position, collider_size, collider_offset, flip_x: false }
    }

    /// The collider box at the current position.
    pub fn aabb(&self) -> (bb: Aabb)
        requires
            sprite_wf(*self),
        ensures
            bb == spec_aabb(*self),
            aabb_wf(bb),
    {
        let corner = Vec2 {
            x: self.position.x + self.collider_offset.x,
            y: self.position.y + self.collider_offset.y,
        };
        Aabb {
            a: corner,
            b: Vec2 { x: corner.x + self.collider_size.x, y: corner.y + self.collider_size.y },
        }
    }

    /// The collider box the body would have after moving by `offset`.
    pub fn aabb_moved(&self, offset: Vec2) -> (bb: Aabb)
        requires
            sprite_wf(*self),
            vec_in_range(offset),
        ensures
            bb == (Aabb {
                a: Vec2 {
                    x: (spec_aabb(*self).a.x + offset.x) as i64,
                    y: (spec_aabb(*self).a.y + offset.y) as i64,
                },
                b: Vec2 {
                    x: (spec_aabb(*self).b.x + offset.x) as i64,
                    y: (spec_aabb(*self).b.y + offset.y) as i64,
                },
            }),
    {
        let bb = self.aabb();
        Aabb {
            a: Vec2 { x: bb.a.x + offset.x, y: bb.a.y + offset.y },
            b: Vec2 { x: bb.b.x + offset.x, y: bb.b.y + offset.y },
        }
    }

    /// The collider's centre point.
    pub fn centre(&self) -> (c: Vec2)
        requires
            sprite_wf(*self),
        ensures
            c == spec_centre(*self),
            vec_in_wide_range(c),
    {
        let half_x = ((self.collider_size.x as u64) / 2) as i64;
        let half_y = ((self.collider_size.y as u64) / 2) as i64;
        Vec2 {
            x: self.position.x + self.collider_offset.x + half_x,
            y: self.position.y + self.collider_offset.y + half_y,
        }
    }
}

} // verus!
