//! Player physics: stamina-gated lift, drag, gravity, axis-separated
//! collision resolution, hit immunity and reputation.

use vstd::prelude::*;

use crate::board::obstacle_wf;
use crate::collision::{
    axis_hi, axis_lo, move_blocked, resolve_axis, translate_spec, Axis,
};
use crate::geometry::{
    aabb_intersects, abs_i64, abs_spec, clamp_coord, clamp_coord_spec, mul_scale, scale_down,
    vec_in_range, Aabb, Vec2,
};
use crate::globals::{
    DAMAGE_SPEED, FLY_MAX_SPEED, GRAVITY_ACC, HIT_IMMUNITY, HOR_DRAG, LIFT_ACC, LIFT_MAX_SPEED,
    MAX_DELTA, SCALE, TOLERANCE,
};
use crate::passenger::{passenger_wf, Passenger};
use crate::sim::{state_wf, State};
use crate::sprite::{spec_aabb, sprite_wf, DynamicSprite};
use crate::utils::almost_eq_spec;

verus! {

#[derive(Clone, Copy, Debug, PartialEq, Eq, Structural)]
pub struct Stats {
    /// Fraction of full stamina, scaled: the unit interval is `[0, SCALE]`.
    pub stamina: i64,
    pub stamina_use: i64,
    pub stamina_recovery: i64,
    pub score: u32,
    pub reputation: u32,
}

/// Stamina and the two rates stay within the scaled unit interval.
pub open spec fn stats_wf(s: Stats) -> bool {
    &&& 0 <= s.stamina <= SCALE
    &&& 0 <= s.stamina_use <= SCALE
    &&& 0 <= s.stamina_recovery <= SCALE
}

impl Default for Stats {
    fn default() -> (s: Stats)
        ensures
            s == (Stats {
                stamina: 0,
                stamina_use: 0,
                stamina_recovery: 0,
                score: 0,
                reputation: 0,
            }),
    {
        Stats { stamina: 0, stamina_use: 0, stamina_recovery: 0, score: 0, reputation: 0 }
    }
}

/// One reputation point lost, saturating at zero.
pub open spec fn spec_take_reputation(r: u32) -> u32 {
    if r > 0 {
        (r - 1) as u32
    } else {
        0u32
    }
}

/// `k` reputation points lost, saturating at zero.
pub open spec fn spec_take_reputation_n(r: u32, k: nat) -> u32 {
    if k >= r {
        0u32
    } else {
        (r - k) as u32
    }
}

/// One score point gained, saturating at the machine limit.
pub open spec fn spec_incr_score(s: u32) -> u32 {
    if s < u32::MAX {
        (s + 1) as u32
    } else {
        s
    }
}

impl Stats {
    pub fn take_reputation(&mut self)
        ensures
            *final(self) == (Stats {
                reputation: spec_take_reputation(old(self).reputation),
                ..*old(self)
            }),
    {
        self.reputation = self.reputation.saturating_sub(1);
    }
}

#[derive(Clone, Copy, Debug)]
pub struct Player {
    pub sprite: DynamicSprite,
    pub v: Vec2,
    pub a: Vec2,
    pub grounded: bool,
    /// Hit-immunity time left, in micro-seconds.
    pub immunity: i64,
    /// The passenger in transit; while carried it lives here, not in the
    /// world list.
    pub passenger: Option<Passenger>,
    pub stats: Stats,
}

pub open spec fn player_wf(p: Player) -> bool {
    &&& sprite_wf(p.sprite)
    &&& vec_in_range(p.v)
    &&& vec_in_range(p.a)
    &&& 0 <= p.immunity <= HIT_IMMUNITY
    &&& stats_wf(p.stats)
    &&& p.passenger matches Some(q) ==> passenger_wf(q)
}

impl Player {
    pub fn new(position: Vec2, collider_size: Vec2) -> (p: Player)
        ensures
            p == (Player {
                sprite: DynamicSprite {
                    position,
                    collider_size,
                    collider_offset: (Vec2 { x: 0, y: 0 }),
                    flip_x: false,
                },
                v: (Vec2 { x: 0, y: 0 }),
                a: (Vec2 { x: 0, y: 0 }),
                grounded: false,
                immunity: 0,
                passenger: None,
                stats: (Stats {
                    stamina: 0,
                    stamina_use: 0,
                    stamina_recovery: 0,
                    score: 0,
                    reputation: 0,
                }),
            }),
    {
        let sprite = DynamicSprite::new(position, collider_size, Vec2 { x: 0, y: 0 });
        Player {
            sprite,
            v: Vec2 { x: 0, y: 0 },
            a: Vec2 { x: 0, y: 0 },
            grounded: false,
            passenger: None,
            immunity: 0,
            stats: Stats::default(),
        }
    }

    /// Whether the blink animation hides the sprite this frame; derived
    /// from the immunity timer, toggling every tenth of a second.
    pub fn blink(&self) -> (r: bool)
        requires
            0 <= self.immunity,
        ensures
            r == ((self.immunity as int / 100_000) % 2 == 1),
    {
        (self.immunity / 100_000) % 2 == 1
    }
}

/// What a successful hit does: full immunity window, one reputation lost.
pub open spec fn spec_try_hit(p: Player) -> (Player, bool) {
    if p.immunity > TOLERANCE {
        (p, false)
    } else {
        (
            Player {
                immunity: HIT_IMMUNITY,
                stats: (Stats { reputation: spec_take_reputation(p.stats.reputation), ..p.stats }),
                ..p
            },
            true,
        )
    }
}

/// Tries to register a hit on the player.  Fails without effect while the
/// immunity window is still open; otherwise grants immunity and costs one
/// reputation point.
pub fn try_hit(player: &mut Player) -> (hit: bool)
    ensures
        (*final(player), hit) == spec_try_hit(*old(player)),
{
    if player.immunity > TOLERANCE {
        return false;
    }
    player.immunity = HIT_IMMUNITY;
    player.stats.take_reputation();
    true
}

/// One stamina step: lifting with stamina left drains it and applies lift
/// acceleration; not lifting recovers it.  Both directions clamp to the
/// scaled unit interval, and an exhausted player gets no lift (and no
/// recovery) while still holding the lift key.
pub open spec fn spec_handle_lift(p: Player, delta: int, working: bool) -> Player {
    if !working {
        let s = p.stats.stamina + scale_down(p.stats.stamina_recovery * delta);
        Player {
            stats: (Stats {
                stamina: (if s > SCALE {
                    SCALE as int
                } else {
                    s
                }) as i64,
                ..p.stats
            }),
            ..p
        }
    } else if p.stats.stamina > 0 {
        let s = p.stats.stamina - scale_down(p.stats.stamina_use * delta);
        Player {
            a: (Vec2 { x: p.a.x, y: LIFT_ACC }),
            stats: (Stats {
                stamina: (if s < 0 {
                    0int
                } else {
                    s
                }) as i64,
                ..p.stats
            }),
            ..p
        }
    } else {
        p
    }
}

/// Stamina stays clamped to the scaled unit interval through any lift
/// step, and a reputation decrement saturates instead of underflowing:
/// the two invariant-guarded mutations of the player's stats.
pub proof fn lemma_stats_clamped(p: Player, delta: int, working: bool, r: u32)
    requires
        stats_wf(p.stats),
        0 <= delta <= MAX_DELTA,
    ensures
        stats_wf(spec_handle_lift(p, delta, working).stats),
        0 <= spec_handle_lift(p, delta, working).stats.stamina <= SCALE,
        r > 0 ==> spec_take_reputation(r) == r - 1,
        r == 0 ==> spec_take_reputation(r) == 0,
{
}

pub fn handle_lift(player: &mut Player, delta: i64, working: bool)
    requires
        player_wf(*old(player)),
        0 <= delta <= MAX_DELTA,
    ensures
        *final(player) == spec_handle_lift(*old(player), delta as int, working),
        player_wf(*final(player)),
{
    if !working {
        let gain = mul_scale(player.stats.stamina_recovery, delta);
        let s = player.stats.stamina + gain;
        player.stats.stamina = if s > SCALE {
            SCALE
        } else {
            s
        };
        return ;
    }
    if player.stats.stamina > 0 {
        player.a.y = LIFT_ACC;
        let cost = mul_scale(player.stats.stamina_use, delta);
        let s = player.stats.stamina - cost;
        player.stats.stamina = if s < 0 {
            0
        } else {
            s
        };
    }
}

/// Exact description of one vertical resolution step: gravity is re-armed,
/// upward speed is capped, the displacement is resolved against the
/// obstacles, a blocked move zeroes vertical speed, a blocked downward move
/// grounds the player, and a blocked move at more than `DAMAGE_SPEED`
/// signals a hard landing.
pub open spec fn move_y_post(
    pre: Player,
    obstacles: Seq<Aabb>,
    delta: int,
    post: Player,
    damage: bool,
) -> bool {
    let vy = if pre.v.y > LIFT_MAX_SPEED {
        LIFT_MAX_SPEED as int
    } else {
        pre.v.y as int
    };
    let dy = scale_down(vy * delta);
    let bb = spec_aabb(pre.sprite);
    let t = translate_spec(bb, dy, Axis::Vertical);
    let blocked = move_blocked(bb, dy, Axis::Vertical, obstacles);
    &&& post.sprite.collider_size == pre.sprite.collider_size
    &&& post.sprite.collider_offset == pre.sprite.collider_offset
    &&& post.sprite.flip_x == pre.sprite.flip_x
    &&& post.sprite.position.x == pre.sprite.position.x
    &&& post.v.x == pre.v.x
    &&& post.a == (Vec2 { x: pre.a.x, y: (-GRAVITY_ACC) as i64 })
    &&& post.immunity == pre.immunity
    &&& post.passenger == pre.passenger
    &&& post.stats == pre.stats
    &&& post.grounded == (blocked && dy < 0)
    &&& damage == (blocked && abs_spec(vy) > DAMAGE_SPEED)
    &&& post.v.y == (if blocked {
        0int
    } else {
        vy
    })
    &&& !blocked ==> post.sprite.position.y == clamp_coord_spec(pre.sprite.position.y + dy)
    &&& blocked && dy < 0 ==> {
        &&& exists|i: int|
            0 <= i < obstacles.len() && aabb_intersects(t, #[trigger] obstacles[i])
                && post.sprite.position.y == axis_hi(obstacles[i], Axis::Vertical)
                - pre.sprite.collider_offset.y
        &&& forall|i: int|
            0 <= i < obstacles.len() && aabb_intersects(t, #[trigger] obstacles[i]) ==> axis_hi(
                obstacles[i],
                Axis::Vertical,
            ) <= post.sprite.position.y + pre.sprite.collider_offset.y
    }
    &&& blocked && dy > 0 ==> {
        &&& exists|i: int|
            0 <= i < obstacles.len() && aabb_intersects(t, #[trigger] obstacles[i])
                && post.sprite.position.y == axis_lo(obstacles[i], Axis::Vertical) - (
            pre.sprite.collider_size.y + pre.sprite.collider_offset.y)
        &&& forall|i: int|
            0 <= i < obstacles.len() && aabb_intersects(t, #[trigger] obstacles[i]) ==> axis_lo(
                obstacles[i],
                Axis::Vertical,
            ) >= post.sprite.position.y + pre.sprite.collider_offset.y
                + pre.sprite.collider_size.y
    }
}

fn move_y(player: &mut Player, obstacles: &Vec<Aabb>, delta: i64) -> (damage: bool)
    requires
        player_wf(*old(player)),
        forall|i: int| 0 <= i < obstacles@.len() ==> obstacle_wf(#[trigger] obstacles@[i]),
        0 <= delta <= MAX_DELTA,
    ensures
        move_y_post(*old(player), obstacles@, delta as int, *final(player), damage),
        player_wf(*final(player)),
{
    player.grounded = false;
    if player.v.y > LIFT_MAX_SPEED {
        player.v.y = LIFT_MAX_SPEED;
    }
    player.a.y = -GRAVITY_ACC;
    let dy = mul_scale(player.v.y, delta);
    let bb = player.sprite.aabb();
    let (snap, blocked) = resolve_axis(bb, dy, Axis::Vertical, obstacles);
    if !blocked {
        player.sprite.position.y = clamp_coord(player.sprite.position.y + dy);
        return false;
    }
    let mut damage = false;
    if abs_i64(player.v.y) > DAMAGE_SPEED {
        damage = true;
    }
    if dy < 0 {
        player.grounded = true;
    }
    proof {
        let t = translate_spec(spec_aabb(old(player).sprite), dy as int, Axis::Vertical);
        let i = choose|i: int|
            0 <= i < obstacles@.len() && aabb_intersects(t, #[trigger] obstacles@[i]) && (if dy < 0 {
                snap == axis_hi(obstacles@[i], Axis::Vertical)
            } else {
                snap == axis_lo(obstacles@[i], Axis::Vertical) - (spec_aabb(
                    old(player).sprite,
                ).b.y - spec_aabb(old(player).sprite).a.y)
            });
        assert(obstacle_wf(obstacles@[i]));
    }
    player.sprite.position.y = snap - player.sprite.collider_offset.y;
    player.v.y = 0;
    damage
}

/// Exact description of one horizontal resolution step: drag opposes the
/// current speed (zero within tolerance), speed is clamped to the flight
/// maximum and snapped to zero near rest, and the displacement is resolved
/// against the obstacles.  A blocked move clamps position only; speed is
/// left for drag to wear down.
pub open spec fn move_x_post(pre: Player, obstacles: Seq<Aabb>, delta: int, post: Player) -> bool {
    let ax: int = if pre.v.x < -TOLERANCE {
        HOR_DRAG as int
    } else if pre.v.x > TOLERANCE {
        -HOR_DRAG as int
    } else {
        0
    };
    let vclamped: int = if pre.v.x < -FLY_MAX_SPEED {
        -FLY_MAX_SPEED as int
    } else if pre.v.x > FLY_MAX_SPEED {
        FLY_MAX_SPEED as int
    } else {
        pre.v.x as int
    };
    let vx: int = if almost_eq_spec(vclamped, 0) {
        0
    } else {
        vclamped
    };
    let dx = scale_down(vx * delta);
    let bb = spec_aabb(Player { v: (Vec2 { x: vx as i64, y: pre.v.y }), ..pre }.sprite);
    let t = translate_spec(bb, dx, Axis::Horizontal);
    let blocked = move_blocked(bb, dx, Axis::Horizontal, obstacles);
    &&& post.sprite.collider_size == pre.sprite.collider_size
    &&& post.sprite.collider_offset == pre.sprite.collider_offset
    &&& post.sprite.flip_x == pre.sprite.flip_x
    &&& post.sprite.position.y == pre.sprite.position.y
    &&& post.v == (Vec2 { x: vx as i64, y: pre.v.y })
    &&& post.a == (Vec2 { x: ax as i64, y: pre.a.y })
    &&& post.grounded == pre.grounded
    &&& post.immunity == pre.immunity
    &&& post.passenger == pre.passenger
    &&& post.stats == pre.stats
    &&& !blocked ==> post.sprite.position.x == clamp_coord_spec(pre.sprite.position.x + dx)
    &&& blocked && dx < 0 ==> {
        &&& exists|i: int|
            0 <= i < obstacles.len() && aabb_intersects(t, #[trigger] obstacles[i])
                && post.sprite.position.x == axis_hi(obstacles[i], Axis::Horizontal)
                - pre.sprite.collider_offset.x
        &&& forall|i: int|
            0 <= i < obstacles.len() && aabb_intersects(t, #[trigger] obstacles[i]) ==> axis_hi(
                obstacles[i],
                Axis::Horizontal,
            ) <= post.sprite.position.x + pre.sprite.collider_offset.x
    }
    &&& blocked && dx > 0 ==> {
        &&& exists|i: int|
            0 <= i < obstacles.len() && aabb_intersects(t, #[trigger] obstacles[i])
                && post.sprite.position.x == axis_lo(obstacles[i], Axis::Horizontal) - (
            pre.sprite.collider_size.x + pre.sprite.collider_offset.x)
        &&& forall|i: int|
            0 <= i < obstacles.len() && aabb_intersects(t, #[trigger] obstacles[i]) ==> axis_lo(
                obstacles[i],
                Axis::Horizontal,
            ) >= post.sprite.position.x + pre.sprite.collider_offset.x
                + pre.sprite.collider_size.x
    }
}

fn move_x(player: &mut Player, obstacles: &Vec<Aabb>, delta: i64)
    requires
        player_wf(*old(player)),
        forall|i: int| 0 <= i < obstacles@.len() ==> obstacle_wf(#[trigger] obstacles@[i]),
        0 <= delta <= MAX_DELTA,
    ensures
        move_x_post(*old(player), obstacles@, delta as int, *final(player)),
        player_wf(*final(player)),
{
    player.a.x = if player.v.x < -TOLERANCE {
        HOR_DRAG
    } else if player.v.x > TOLERANCE {
        -HOR_DRAG
    } else {
        0
    };
    if player.v.x < -FLY_MAX_SPEED {
        player.v.x = -FLY_MAX_SPEED;
    } else if player.v.x > FLY_MAX_SPEED {
        player.v.x = FLY_MAX_SPEED;
    }
    if -TOLERANCE <= player.v.x && player.v.x <= TOLERANCE {
        player.v.x = 0;
    }
    let dx = mul_scale(player.v.x, delta);
    let bb = player.sprite.aabb();
    let (snap, blocked) = resolve_axis(bb, dx, Axis::Horizontal, obstacles);
    if !blocked {
        player.sprite.position.x = clamp_coord(player.sprite.position.x + dx);
        return ;
    }
    proof {
        let t = translate_spec(spec_aabb(player.sprite), dx as int, Axis::Horizontal);
        let i = choose|i: int|
            0 <= i < obstacles@.len() && aabb_intersects(t, #[trigger] obstacles@[i]) && (if dx < 0 {
                snap == axis_hi(obstacles@[i], Axis::Horizontal)
            } else {
                snap == axis_lo(obstacles@[i], Axis::Horizontal) - (spec_aabb(player.sprite).b.x
                    - spec_aabb(player.sprite).a.x)
            });
        assert(obstacle_wf(obstacles@[i]));
    }
    player.sprite.position.x = snap - player.sprite.collider_offset.x;
}

/// Exact description of a whole player tick: the immunity timer decays,
/// acceleration integrates into velocity (saturating at the coordinate
/// limit), the vertical then the horizontal axis are resolved, and a hard
/// landing registers a hit through the shared hit contract.
/// The timer-and-integration stage of a player tick: the immunity timer
/// decays and acceleration integrates into velocity, saturating at the
/// coordinate limit.
pub open spec fn spec_integrate(pre: Player, delta: int) -> Player {
    let p1 = Player {
        immunity: (if pre.immunity - delta < 0 {
            0int
        } else {
            pre.immunity - delta
        }) as i64,
        ..pre
    };
    Player {
        v: (Vec2 {
            x: clamp_coord_spec(p1.v.x + scale_down(p1.a.x * delta)) as i64,
            y: clamp_coord_spec(p1.v.y + scale_down(p1.a.y * delta)) as i64,
        }),
        ..p1
    }
}

pub open spec fn update_player_post(
    pre: Player,
    obstacles: Seq<Aabb>,
    delta: int,
    post: Player,
    hit: bool,
) -> bool {
    exists|p3: Player, damage: bool|
        {
            &&& #[trigger] move_y_post(spec_integrate(pre, delta), obstacles, delta, p3, damage)
            &&& {
                let hit_step = if damage {
                    spec_try_hit(p3)
                } else {
                    (p3, false)
                };
                &&& hit == hit_step.1
                &&& move_x_post(hit_step.0, obstacles, delta, post)
            }
        }
}

/// Exhibits the two intermediate values of a player tick as the witnesses
/// of `update_player_post`.
proof fn lemma_update_player_intro(
    pre: Player,
    obstacles: Seq<Aabb>,
    delta: int,
    p3: Player,
    damage: bool,
    post: Player,
    hit: bool,
)
    requires
        move_y_post(spec_integrate(pre, delta), obstacles, delta, p3, damage),
        hit == (if damage {
            spec_try_hit(p3).1
        } else {
            false
        }),
        move_x_post(
            if damage {
                spec_try_hit(p3).0
            } else {
                p3
            },
            obstacles,
            delta,
            post,
        ),
    ensures
        update_player_post(pre, obstacles, delta, post, hit),
{
    assert(move_y_post(spec_integrate(pre, delta), obstacles, delta, p3, damage));
}

/// Advances the player by one tick against the board's obstacles.  Returns
/// whether a hit landed this tick (the "play hit sound" event).
pub fn update_player(state: &mut State, delta: i64) -> (hit: bool)
    requires
        state_wf(*old(state)),
        0 <= delta <= MAX_DELTA,
    ensures
        update_player_post(
            old(state).player,
            old(state).board.colliders@,
            delta as int,
            final(state).player,
            hit,
        ),
        *final(state) == (State { player: final(state).player, ..*old(state) }),
        state_wf(*final(state)),
{
    let decayed = state.player.immunity - delta;
    state.player.immunity = if decayed < 0 {
        0
    } else {
        decayed
    };
    state.player.v.x = clamp_coord(state.player.v.x + mul_scale(state.player.a.x, delta));
    state.player.v.y = clamp_coord(state.player.v.y + mul_scale(state.player.a.y, delta));
    let ghost p2 = state.player;
    let damage = move_y(&mut state.player, &state.board.colliders, delta);
    let ghost p3 = state.player;
    let mut hit = false;
    if damage {
        hit = try_hit(&mut state.player);
    }
    let ghost p4 = state.player;
    move_x(&mut state.player, &state.board.colliders, delta);
    proof {
        let obstacles = old(state).board.colliders@;
        let pre = old(state).player;
        assert(p2 == spec_integrate(pre, delta as int));
        lemma_update_player_intro(
            pre,
            obstacles,
            delta as int,
            p3,
            damage,
            state.player,
            hit,
        );
    }
    hit
}

} // verus!
