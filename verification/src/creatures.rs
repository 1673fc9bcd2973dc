//! Creatures: autonomous hazards and their effect on the player.
//!
//! A bird flies at constant speed along its fixed horizontal direction and
//! wraps around the play area; a mammoth stands still.  Touching a bird
//! costs reputation (gated by hit immunity); a mammoth's blow only shoves.

use vstd::prelude::*;

use crate::geometry::{aabb_intersects, clamp_coord, clamp_coord_spec, mul_scale, scale_down, Vec2};
use crate::globals::{
    BIRD_MARGIN, BIRD_SPEED, BOARD_WIDTH, HIT_IMMUNITY, MAMMOTH_BLOW_SPEED, MAX_DELTA, TILE_SIZE,
    TOLERANCE,
};
use crate::player::{player_wf, spec_take_reputation, try_hit, Player, Stats};
use crate::sim::{state_wf, State};
use crate::sprite::{spec_aabb, sprite_wf, DynamicSprite};

verus! {

#[derive(Clone, Copy, Debug, PartialEq, Eq, Structural)]
pub enum CreatureKind {
    Bird,
    Mammoth,
}

/// A creature's facing, fixed at spawn: a horizontal unit vector whose
/// components are plain `-1`/`0`/`1` flags, not fixed-point scalars.
#[derive(Clone, Copy, Debug, PartialEq, Eq, Structural)]
pub struct Creature {
    pub sprite: DynamicSprite,
    pub kind: CreatureKind,
    pub dir: Vec2,
}

pub open spec fn creature_wf(c: Creature) -> bool {
    &&& sprite_wf(c.sprite)
    &&& (c.dir.x == 1 || c.dir.x == -1)
    &&& c.dir.y == 0
}

impl Creature {
    pub fn new(
        kind: CreatureKind,
        position: Vec2,
        flip: bool,
        collider_size: Vec2,
        collider_offset: Vec2,
    ) -> (c: Creature)
        ensures
            c == (Creature {
                sprite: DynamicSprite { position, collider_size, collider_offset, flip_x: flip },
                kind,
                dir: if flip {
                    (Vec2 { x: -1i64, y: 0 })
                } else {
                    (Vec2 { x: 1, y: 0 })
                },
            }),
    {
        let mut sprite = DynamicSprite::new(position, collider_size, collider_offset);
        sprite.flip_x = flip;
        Creature {
            kind,
            sprite,
            dir: if flip {
                Vec2 { x: -1, y: 0 }
            } else {
                Vec2 { x: 1, y: 0 }
            },
        }
    }
}

/// The x coordinate past which a rightward bird wraps (and at which a
/// leftward bird reappears).
pub open spec fn bird_wrap_far() -> int {
    BOARD_WIDTH * TILE_SIZE + BIRD_MARGIN
}

/// One motion step: a bird advances along its direction (saturating at the
/// coordinate limit) and wraps to the opposite margin when it leaves the
/// play area; a mammoth does not move.
pub open spec fn spec_update_creature(c: Creature, delta: int) -> Creature {
    match c.kind {
        CreatureKind::Mammoth => c,
        CreatureKind::Bird => {
            let step = scale_down(BIRD_SPEED * delta);
            let moved = clamp_coord_spec(
                c.sprite.position.x + (if c.dir.x == 1 {
                    step
                } else {
                    -step
                }),
            );
            let wrapped = if c.dir.x == 1 && moved > bird_wrap_far() {
                -BIRD_MARGIN as int
            } else if c.dir.x != 1 && moved < -BIRD_MARGIN {
                bird_wrap_far()
            } else {
                moved
            };
            Creature {
                sprite: DynamicSprite {
                    position: Vec2 { x: wrapped as i64, y: c.sprite.position.y },
                    ..c.sprite
                },
                ..c
            }
        },
    }
}

/// Advances a creature's autonomous motion by `delta` micro-seconds.
pub fn update_creature(creature: &mut Creature, delta: i64)
    requires
        creature_wf(*old(creature)),
        0 <= delta <= MAX_DELTA,
    ensures
        *final(creature) == spec_update_creature(*old(creature), delta as int),
        creature_wf(*final(creature)),
{
    match creature.kind {
        CreatureKind::Mammoth => (),
        CreatureKind::Bird => {
            let step = mul_scale(BIRD_SPEED, delta);
            let dx = if creature.dir.x == 1 {
                step
            } else {
                -step
            };
            let moved = clamp_coord(creature.sprite.position.x + dx);
            let far = (BOARD_WIDTH as i64) * TILE_SIZE + BIRD_MARGIN;
            let wrapped = if creature.dir.x == 1 && moved > far {
                -BIRD_MARGIN
            } else if creature.dir.x != 1 && moved < -BIRD_MARGIN {
                far
            } else {
                moved
            };
            creature.sprite.position.x = wrapped;
        },
    }
}

/// Whether a bird lands a hit: the player must overlap it with no immunity
/// window open.
pub open spec fn spec_bird_hit(c: Creature, p: Player) -> bool {
    &&& p.immunity <= TOLERANCE
    &&& aabb_intersects(spec_aabb(p.sprite), spec_aabb(c.sprite))
}

/// What one creature does to the player.  A bird that lands a hit shoves
/// the player along the bird's direction, opens the immunity window, costs
/// one reputation point and sounds the hit.  A mammoth's blow only adds a
/// velocity impulse along its facing and upward, immune or not, and never
/// costs reputation.  Velocity saturates at the coordinate limit.
pub open spec fn spec_interact(c: Creature, p: Player) -> (Player, bool) {
    match c.kind {
        CreatureKind::Bird => if spec_bird_hit(c, p) {
            (
                Player {
                    immunity: HIT_IMMUNITY,
                    stats: (Stats {
                        reputation: spec_take_reputation(p.stats.reputation),
                        ..p.stats
                    }),
                    v: (Vec2 {
                        x: clamp_coord_spec(
                            p.v.x + (if c.dir.x == 1 {
                                2 * BIRD_SPEED as int
                            } else {
                                -2 * BIRD_SPEED as int
                            }),
                        ) as i64,
                        y: p.v.y,
                    }),
                    ..p
                },
                true,
            )
        } else {
            (p, false)
        },
        CreatureKind::Mammoth => if aabb_intersects(spec_aabb(p.sprite), spec_aabb(c.sprite)) {
            (
                Player {
                    v: (Vec2 {
                        x: clamp_coord_spec(
                            p.v.x + (if c.dir.x == 1 {
                                MAMMOTH_BLOW_SPEED as int
                            } else {
                                -MAMMOTH_BLOW_SPEED as int
                            }),
                        ) as i64,
                        y: clamp_coord_spec(p.v.y + MAMMOTH_BLOW_SPEED) as i64,
                    }),
                    ..p
                },
                false,
            )
        } else {
            (p, false)
        },
    }
}

/// The creatures' effects folded over the list in order, with the hit
/// sounds of the single steps combined.
pub open spec fn spec_interact_all(cs: Seq<Creature>, p: Player) -> (Player, bool)
    decreases cs.len(),
{
    if cs.len() == 0 {
        (p, false)
    } else {
        let first = spec_interact(cs[0], p);
        let rest = spec_interact_all(cs.drop_first(), first.0);
        (rest.0, first.1 || rest.1)
    }
}

/// Unrolls one step of the fold at index `i`.
proof fn lemma_interact_all_step(cs: Seq<Creature>, i: int, p: Player)
    requires
        0 <= i < cs.len(),
    ensures
        spec_interact_all(cs.skip(i), p) == {
            let first = spec_interact(cs[i], p);
            let rest = spec_interact_all(cs.skip(i + 1), first.0);
            (rest.0, first.1 || rest.1)
        },
{
    assert(cs.skip(i)[0] == cs[i]);
    assert(cs.skip(i).drop_first() =~= cs.skip(i + 1));
}

/// Applies every creature's on-overlap effect to the player, in list
/// order.  Returns whether any hit landed (the "play hit sound" event).
pub fn check_interactions(state: &mut State) -> (hit: bool)
    requires
        state_wf(*old(state)),
    ensures
        (final(state).player, hit) == spec_interact_all(
            old(state).creatures@,
            old(state).player,
        ),
        *final(state) == (State { player: final(state).player, ..*old(state) }),
        state_wf(*final(state)),
{
    let n = state.creatures.len();
    let mut i: usize = 0;
    let mut sound = false;
    proof {
        assert(old(state).creatures@.skip(0) =~= old(state).creatures@);
    }
    while i < n
        invariant
            state_wf(*old(state)),
            n == state.creatures@.len(),
            0 <= i <= n,
            *state == (State { player: state.player, ..*old(state) }),
            player_wf(state.player),
            state.player.passenger == old(state).player.passenger,
            spec_interact_all(old(state).creatures@, old(state).player) == {
                let rest = spec_interact_all(old(state).creatures@.skip(i as int), state.player);
                (rest.0, sound || rest.1)
            },
        decreases n - i,
    {
        proof {
            assert(creature_wf(old(state).creatures@[i as int]));
            lemma_interact_all_step(old(state).creatures@, i as int, state.player);
        }
        let creature = state.creatures[i];
        let player_aabb = state.player.sprite.aabb();
        let creature_aabb = creature.sprite.aabb();
        match creature.kind {
            CreatureKind::Bird => {
                if state.player.immunity <= TOLERANCE && player_aabb.intersects(&creature_aabb) {
                    let impulse = if creature.dir.x == 1 {
                        2 * BIRD_SPEED
                    } else {
                        -2 * BIRD_SPEED
                    };
                    state.player.v.x = clamp_coord(state.player.v.x + impulse);
                    let landed = try_hit(&mut state.player);
                    proof {
                        assert(landed);
                    }
                    sound = true;
                }
            },
            CreatureKind::Mammoth => {
                if player_aabb.intersects(&creature_aabb) {
                    let impulse = if creature.dir.x == 1 {
                        MAMMOTH_BLOW_SPEED
                    } else {
                        -MAMMOTH_BLOW_SPEED
                    };
                    state.player.v.x = clamp_coord(state.player.v.x + impulse);
                    state.player.v.y = clamp_coord(state.player.v.y + MAMMOTH_BLOW_SPEED);
                }
            },
        }
        i += 1;
    }
    proof {
        assert(old(state).creatures@.skip(n as int) =~= Seq::<Creature>::empty());
    }
    sound
}

} // verus!
