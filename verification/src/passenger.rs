//! The passenger lifecycle.
//!
//! A passenger spawns `Waiting` at a gate, is either loaded into the player,
//! knocked down (`Falling`), or resigns after waiting too long; a loaded
//! passenger is dropped `Landed` at its target gate and walks into it.  The
//! machine is one-directional: no passenger returns to `Waiting`.

use vstd::prelude::*;

use crate::board::{gate_wf, Gate};
use crate::geometry::{
    aabb_intersects, clamp_coord, clamp_coord_spec, dist_below, dist_sq, dist_within, mul_scale,
    scale_down, vec_in_range, Vec2,
};
use crate::globals::{
    MAX_DELTA, PASSENGER_FALL_SPEED, PASSENGER_HEIGHT, PASSENGER_KNOCK_DOWN_SPEED,
    PASSENGER_LOAD_DIST, PASSENGER_MAX_WAIT, PASSENGER_REMOVE_DEPTH, PASSENGER_WALK_SPEED,
    PASSENGER_WIDTH, SPAWN_TICK, TILE_SIZE, TIME_CAP, TOLERANCE, WORLD_RANGE,
};
use crate::player::{player_wf, spec_incr_score, spec_take_reputation_n, Player, Stats};
use crate::sim::{passenger_gates_wf, state_wf, State};
use crate::sprite::{spec_aabb, spec_centre, sprite_wf, DynamicSprite};
use crate::utils::{almost_eq, almost_eq_spec};

verus! {

#[derive(Clone, Copy, Debug, PartialEq, Eq, Structural)]
pub enum PassengerState {
    /// At the source gate; the payload is the elapsed wait in micro-seconds.
    Waiting(i64),
    /// Dropped off; the payload is the target gate's position.
    Landed(Vec2),
    /// Carried by the player.
    Loaded,
    /// Knocked down; falls until removed.
    Falling,
    /// Waited too long; removed on the next sweep.
    Resigned,
}

/// Rendering hint derived from the last motion step; not authoritative.
#[derive(Clone, Copy, Debug, PartialEq, Eq, Structural)]
pub enum PassengerAnimationState {
    Idle,
    Walking,
    Falling,
}

#[derive(Clone, Copy, Debug, PartialEq, Eq, Structural)]
pub struct Passenger {
    pub sprite: DynamicSprite,
    pub state: PassengerState,
    pub source_gate: u32,
    pub target_gate: u32,
    pub animation_state: PassengerAnimationState,
}

/// A passenger never waits past the resignation threshold, lands only at a
/// gate inside the level range, and never targets its own source gate.
pub open spec fn passenger_wf(p: Passenger) -> bool {
    &&& sprite_wf(p.sprite)
    &&& p.target_gate != p.source_gate
    &&& p.state matches PassengerState::Waiting(t) ==> 0 <= t < PASSENGER_MAX_WAIT
    &&& p.state matches PassengerState::Landed(g) ==> {
        &&& -WORLD_RANGE <= g.x <= WORLD_RANGE
        &&& -WORLD_RANGE <= g.y <= WORLD_RANGE
    }
}

/// The edges of the lifecycle machine, reflexivity included: a waiting
/// passenger may keep waiting, be loaded, knocked down or resign; only a
/// loaded passenger lands; and a landed or resigned passenger still in the
/// world can be knocked down.  `Falling` is terminal.
pub open spec fn transition_ok(s1: PassengerState, s2: PassengerState) -> bool {
    ||| s1 == s2
    ||| (s1 is Waiting && (s2 is Waiting || s2 is Loaded || s2 is Falling || s2 is Resigned))
    ||| (s1 is Loaded && s2 is Landed)
    ||| (s1 is Landed && s2 is Falling)
    ||| (s1 is Resigned && s2 is Falling)
}

/// The lifecycle is one-directional: once a passenger has left `Waiting`,
/// no allowed transition brings it back.
pub proof fn lemma_no_return_to_waiting(s1: PassengerState, s2: PassengerState)
    requires
        transition_ok(s1, s2),
        s2 is Waiting,
    ensures
        s1 is Waiting,
{
}

/// Every way the simulation changes a passenger's state follows the
/// machine's edges: the waiting step, the motion step, a knock-down (of a
/// passenger in the world list, so never a loaded one, and not already
/// falling), loading a waiting passenger, and landing a loaded one.
pub proof fn lemma_lifecycle_steps(p: Passenger, player: Player, delta: int)
    ensures
        transition_ok(p.state, spec_waiting_step(p, delta).state),
        transition_ok(p.state, spec_move_passenger(p, player, delta).state),
        !(p.state is Falling) && !(p.state is Loaded) ==> transition_ok(
            p.state,
            PassengerState::Falling,
        ),
        p.state is Waiting ==> transition_ok(p.state, PassengerState::Loaded),
        forall|g: Vec2|
            p.state is Loaded ==> #[trigger] transition_ok(p.state, PassengerState::Landed(g)),
{
}

impl Passenger {
    /// A fresh passenger waiting at `position`, bound for `target_gate`.
    pub fn new(position: Vec2, collider_size: Vec2, source_gate: u32, target_gate: u32) -> (p:
        Passenger)
        requires
            target_gate != source_gate,
        ensures
            p == (Passenger {
                sprite: DynamicSprite {
                    position,
                    collider_size,
                    collider_offset: Vec2 { x: (TILE_SIZE / 4) as i64, y: 0 },
                    flip_x: false,
                },
                state: PassengerState::Waiting(0),
                source_gate,
                target_gate,
                animation_state: PassengerAnimationState::Idle,
            }),
    {
        let sprite = DynamicSprite::new(position, collider_size, Vec2 { x: TILE_SIZE / 4, y: 0 });
        Passenger {
            sprite,
            state: PassengerState::Waiting(0),
            target_gate,
            source_gate,
            animation_state: PassengerAnimationState::Idle,
        }
    }
}

/// Centre of the tile at `position` (gates snap walking targets there).
pub open spec fn spec_gate_centre(position: Vec2) -> Vec2 {
    Vec2 { x: (position.x + TILE_SIZE / 2) as i64, y: (position.y + TILE_SIZE / 2) as i64 }
}

pub(crate) fn gate_centre(position: Vec2) -> (c: Vec2)
    requires
        -WORLD_RANGE <= position.x <= WORLD_RANGE,
        -WORLD_RANGE <= position.y <= WORLD_RANGE,
    ensures
        c == spec_gate_centre(position),
{
    Vec2 { x: position.x + TILE_SIZE / 2, y: position.y + TILE_SIZE / 2 }
}

/// Whether a body stands on the same vertical level as a point.
pub open spec fn spec_same_level(s: DynamicSprite, v: Vec2) -> bool {
    almost_eq_spec(s.position.y as int, v.y as int)
}

pub(crate) fn same_level(sprite: &DynamicSprite, v: &Vec2) -> (r: bool)
    requires
        sprite_wf(*sprite),
        vec_in_range(*v),
    ensures
        r == spec_same_level(*sprite, *v),
{
    almost_eq(sprite.position.y, v.y)
}

/// The removal predicate of the lifecycle: resigned passengers go at once,
/// landed ones once they reach their gate's horizontal centre, falling ones
/// once they drop below the removal depth.
pub open spec fn spec_should_remove(p: Passenger) -> bool {
    match p.state {
        PassengerState::Waiting(_) => false,
        PassengerState::Loaded => false,
        PassengerState::Landed(gate) => almost_eq_spec(
            spec_gate_centre(gate).x as int,
            spec_centre(p.sprite).x as int,
        ),
        PassengerState::Falling => p.sprite.position.y < PASSENGER_REMOVE_DEPTH,
        PassengerState::Resigned => true,
    }
}

pub fn should_remove(passenger: &Passenger) -> (r: bool)
    requires
        passenger_wf(*passenger),
    ensures
        r == spec_should_remove(*passenger),
{
    match passenger.state {
        PassengerState::Waiting(_) => false,
        PassengerState::Loaded => false,
        PassengerState::Landed(gate) => {
            let c = passenger.sprite.centre();
            almost_eq(gate_centre(gate).x, c.x)
        },
        PassengerState::Falling => passenger.sprite.position.y < PASSENGER_REMOVE_DEPTH,
        PassengerState::Resigned => true,
    }
}

/// One waiting step: elapsed time accumulates, and crossing the threshold
/// turns the passenger `Resigned`.
pub open spec fn spec_waiting_step(p: Passenger, delta: int) -> Passenger {
    match p.state {
        PassengerState::Waiting(t) => if t + delta >= PASSENGER_MAX_WAIT {
            Passenger { state: PassengerState::Resigned, ..p }
        } else {
            Passenger { state: PassengerState::Waiting((t + delta) as i64), ..p }
        },
        _ => p,
    }
}

/// Whether this waiting step makes the passenger resign.
pub open spec fn spec_resigns(p: Passenger, delta: int) -> bool {
    p.state matches PassengerState::Waiting(t) && t + delta >= PASSENGER_MAX_WAIT
}

/// How many passengers of the list resign in this waiting step.
pub open spec fn count_resigning(ps: Seq<Passenger>, delta: int) -> nat
    decreases ps.len(),
{
    if ps.len() == 0 {
        0nat
    } else {
        count_resigning(ps.drop_last(), delta) + (if spec_resigns(ps.last(), delta) {
            1nat
        } else {
            0nat
        })
    }
}

/// Accumulates waiting time on every waiting passenger; each one that
/// crosses `PASSENGER_MAX_WAIT` resigns and costs one reputation point.
/// How `handle_waiting` relates the world before and after: every waiting
/// passenger steps once, each resignation costs a reputation point, and
/// nothing else moves.
pub open spec fn spec_handle_waiting_rel(pre: State, post: State, delta: int) -> bool {
    &&& post.passengers@.len() == pre.passengers@.len()
    &&& forall|i: int|
        0 <= i < pre.passengers@.len() ==> post.passengers@[i] == spec_waiting_step(
            #[trigger] pre.passengers@[i],
            delta,
        )
    &&& post.player == (Player {
        stats: (Stats {
            reputation: spec_take_reputation_n(
                pre.player.stats.reputation,
                count_resigning(pre.passengers@, delta),
            ),
            ..pre.player.stats
        }),
        ..pre.player
    })
    &&& post == (State { player: post.player, passengers: post.passengers, ..pre })
}

pub fn handle_waiting(state: &mut State, delta: i64)
    requires
        state_wf(*old(state)),
        0 <= delta <= MAX_DELTA,
    ensures
        spec_handle_waiting_rel(*old(state), *final(state), delta as int),
        state_wf(*final(state)),
{
    let n = state.passengers.len();
    let mut i: usize = 0;
    while i < n
        invariant
            state_wf(*old(state)),
            0 <= delta <= MAX_DELTA,
            n == old(state).passengers@.len(),
            state.passengers@.len() == n,
            0 <= i <= n,
            forall|j: int|
                i <= j < n ==> state.passengers@[j] == #[trigger] old(state).passengers@[j],
            forall|j: int|
                0 <= j < i ==> state.passengers@[j] == spec_waiting_step(
                    #[trigger] old(state).passengers@[j],
                    delta as int,
                ),
            state.player == (Player {
                stats: (Stats {
                    reputation: spec_take_reputation_n(
                        old(state).player.stats.reputation,
                        count_resigning(old(state).passengers@.take(i as int), delta as int),
                    ),
                    ..old(state).player.stats
                }),
                ..old(state).player
            }),
            state.board == old(state).board,
            state.creatures == old(state).creatures,
            state.since_spawn == old(state).since_spawn,
            state.spawn_interval == old(state).spawn_interval,
        decreases n - i,
    {
        let ghost prefix = old(state).passengers@.take(i as int);
        let ghost prefix1 = old(state).passengers@.take(i + 1);
        proof {
            assert(prefix1.drop_last() =~= prefix);
            assert(prefix1.last() == old(state).passengers@[i as int]);
            assert(passenger_wf(old(state).passengers@[i as int]));
        }
        let p = state.passengers[i];
        match p.state {
            PassengerState::Waiting(t) => {
                let t2 = t + delta;
                if t2 >= PASSENGER_MAX_WAIT {
                    state.player.stats.take_reputation();
                    state.passengers[i] = Passenger { state: PassengerState::Resigned, ..p };
                } else {
                    state.passengers[i] = Passenger { state: PassengerState::Waiting(t2), ..p };
                }
            },
            _ => (),
        }
        i += 1;
    }
    proof {
        assert(old(state).passengers@.take(n as int) =~= old(state).passengers@);
        assert forall|j: int| 0 <= j < state.passengers@.len() implies passenger_wf(
            #[trigger] state.passengers@[j],
        ) && passenger_gates_wf(state.passengers@[j], *state) by {
            assert(passenger_wf(old(state).passengers@[j]));
            assert(passenger_gates_wf(old(state).passengers@[j], *old(state)));
        }
    }
}

/// Whether a waiting passenger walks toward the player: the player must be
/// free, on the same level, and within the load distance.
pub open spec fn spec_should_approach(p: Passenger, player: Player) -> bool {
    &&& player.passenger is None
    &&& spec_same_level(p.sprite, player.sprite.position)
    &&& dist_sq(spec_centre(p.sprite), spec_centre(player.sprite)) <= PASSENGER_LOAD_DIST
        * PASSENGER_LOAD_DIST
}

/// The point a passenger walks toward, if any: a courting waiting passenger
/// heads for the player's centre, a landed one for its gate's centre.
pub open spec fn spec_walk_target(p: Passenger, player: Player) -> Option<Vec2> {
    match p.state {
        PassengerState::Waiting(_) => if spec_should_approach(p, player) {
            Some(spec_centre(player.sprite))
        } else {
            None
        },
        PassengerState::Landed(gate) => Some(spec_gate_centre(gate)),
        _ => None,
    }
}

/// `x` moved toward `target` by at most `step` (`step >= 0`), never
/// overshooting.
pub open spec fn spec_toward(x: int, target: int, step: int) -> int {
    if target >= x {
        if x + step > target {
            target
        } else {
            x + step
        }
    } else {
        if x - step < target {
            target
        } else {
            x - step
        }
    }
}

/// One motion step of a passenger.  A falling passenger drops at the fall
/// speed.  A walking passenger closes the horizontal gap to its target at
/// the walk speed without overshooting, faces its walking direction, and
/// counts as walking while its centre is more than the tolerance away from
/// the target.
pub open spec fn spec_move_passenger(p: Passenger, player: Player, delta: int) -> Passenger {
    if p.state is Falling {
        Passenger {
            sprite: DynamicSprite {
                position: Vec2 {
                    x: p.sprite.position.x,
                    y: clamp_coord_spec(
                        p.sprite.position.y - scale_down(PASSENGER_FALL_SPEED * delta),
                    ) as i64,
                },
                ..p.sprite
            },
            animation_state: PassengerAnimationState::Falling,
            ..p
        }
    } else {
        match spec_walk_target(p, player) {
            None => Passenger { animation_state: PassengerAnimationState::Idle, ..p },
            Some(target) => {
                let c = spec_centre(p.sprite);
                let step = scale_down(PASSENGER_WALK_SPEED * delta);
                let moved = spec_toward(c.x as int, target.x as int, step);
                let walking = dist_sq(c, target) > TOLERANCE * TOLERANCE;
                Passenger {
                    sprite: DynamicSprite {
                        position: Vec2 {
                            x: clamp_coord_spec(p.sprite.position.x + (moved - c.x)) as i64,
                            y: p.sprite.position.y,
                        },
                        flip_x: if walking {
                            target.x < c.x
                        } else {
                            p.sprite.flip_x
                        },
                        ..p.sprite
                    },
                    animation_state: if walking {
                        PassengerAnimationState::Walking
                    } else {
                        PassengerAnimationState::Idle
                    },
                    ..p
                }
            },
        }
    }
}

pub(crate) fn should_approach_loading(passenger: &Passenger, player: &Player) -> (r: bool)
    requires
        passenger_wf(*passenger),
        player_wf(*player),
    ensures
        r == spec_should_approach(*passenger, *player),
{
    if player.passenger.is_some() {
        return false;
    }
    if !same_level(&passenger.sprite, &player.sprite.position) {
        return false;
    }
    let pc = passenger.sprite.centre();
    let plc = player.sprite.centre();
    dist_within(pc, plc, PASSENGER_LOAD_DIST)
}

fn get_walk(passenger: &Passenger, player: &Player) -> (r: Option<Vec2>)
    requires
        passenger_wf(*passenger),
        player_wf(*player),
    ensures
        r == spec_walk_target(*passenger, *player),
{
    match passenger.state {
        PassengerState::Waiting(_) => {
            if should_approach_loading(passenger, player) {
                return Some(player.sprite.centre());
            }
            None
        },
        PassengerState::Landed(gate) => Some(gate_centre(gate)),
        _ => None,
    }
}

/// Advances one passenger's motion for this tick.
pub fn move_passenger(passenger: &mut Passenger, player: &Player, delta: i64)
    requires
        passenger_wf(*old(passenger)),
        player_wf(*player),
        0 <= delta <= MAX_DELTA,
    ensures
        *final(passenger) == spec_move_passenger(*old(passenger), *player, delta as int),
        passenger_wf(*final(passenger)),
{
    match passenger.state {
        PassengerState::Falling => {
            let drop = mul_scale(PASSENGER_FALL_SPEED, delta);
            passenger.sprite.position.y = clamp_coord(passenger.sprite.position.y - drop);
            passenger.animation_state = PassengerAnimationState::Falling;
            return ;
        },
        _ => (),
    }
    passenger.animation_state = PassengerAnimationState::Idle;
    let target = match get_walk(passenger, player) {
        Some(t) => t,
        None => {
            return ;
        },
    };
    let c = passenger.sprite.centre();
    let step = mul_scale(PASSENGER_WALK_SPEED, delta);
    let moved: i64 = if target.x >= c.x {
        if c.x + step > target.x {
            target.x
        } else {
            c.x + step
        }
    } else {
        if c.x - step < target.x {
            target.x
        } else {
            c.x - step
        }
    };
    passenger.sprite.position.x = clamp_coord(passenger.sprite.position.x + (moved - c.x));
    let still = dist_within(c, target, TOLERANCE);
    if !still {
        passenger.animation_state = PassengerAnimationState::Walking;
        passenger.sprite.flip_x = target.x < c.x;
    }
}

/// Whether this waiting passenger is close enough to be loaded: on the
/// player's level, with its centre within half its own collider width of
/// the player's centre.
pub open spec fn spec_loadable(p: Passenger, player: Player) -> bool {
    &&& p.state is Waiting
    &&& spec_same_level(p.sprite, player.sprite.position)
    &&& dist_sq(spec_centre(p.sprite), spec_centre(player.sprite)) <= (p.sprite.collider_size.x
        / 2) * (p.sprite.collider_size.x / 2)
}

fn loadable(p: &Passenger, player: &Player) -> (r: bool)
    requires
        passenger_wf(*p),
        player_wf(*player),
    ensures
        r == spec_loadable(*p, *player),
{
    match p.state {
        PassengerState::Waiting(_) => {
            if !same_level(&p.sprite, &player.sprite.position) {
                return false;
            }
            let pc = p.sprite.centre();
            let plc = player.sprite.centre();
            dist_within(pc, plc, p.sprite.collider_size.x / 2)
        },
        _ => false,
    }
}

/// How `try_load` relates the world before and after: without a grounded,
/// free player and a qualifying waiting passenger nothing changes; with
/// one, the first match moves into the player and frees its source gate.
pub open spec fn spec_try_load_rel(pre: State, post: State) -> bool {
    &&& (!pre.player.grounded || pre.player.passenger is Some) ==> post == pre
    &&& (pre.player.grounded && pre.player.passenger is None && (forall|i: int|
        0 <= i < pre.passengers@.len() ==> !spec_loadable(
            #[trigger] pre.passengers@[i],
            pre.player,
        ))) ==> post == pre
    &&& (pre.player.grounded && pre.player.passenger is None && (exists|i: int|
        0 <= i < pre.passengers@.len() && spec_loadable(
            #[trigger] pre.passengers@[i],
            pre.player,
        ))) ==> exists|i: int|
        {
            &&& 0 <= i < pre.passengers@.len()
            &&& #[trigger] spec_loadable(pre.passengers@[i], pre.player)
            &&& forall|j: int|
                0 <= j < i ==> !spec_loadable(#[trigger] pre.passengers@[j], pre.player)
            &&& post.passengers@ == pre.passengers@.remove(i)
            &&& post.player == (Player {
                passenger: Some(
                    Passenger { state: PassengerState::Loaded, ..pre.passengers@[i] },
                ),
                ..pre.player
            })
            &&& post.board.gates@ == pre.board.gates@.update(
                pre.passengers@[i].source_gate as int,
                (Gate {
                    position: pre.board.gates@[pre.passengers@[i].source_gate as int].position,
                    has_passenger: false,
                    since_pickup: 0,
                }),
            )
            &&& post.board.colliders == pre.board.colliders
            &&& post.creatures == pre.creatures
            &&& post.since_spawn == pre.since_spawn
            &&& post.spawn_interval == pre.spawn_interval
        }
}

/// Loads the first waiting passenger whose centre is close enough into a
/// grounded, unoccupied player: the passenger leaves the world list, its
/// source gate is cleared, and ownership moves to the player.  Anything
/// short of a qualifying match is a silent no-op.
pub fn try_load(state: &mut State)
    requires
        state_wf(*old(state)),
    ensures
        spec_try_load_rel(*old(state), *final(state)),
        state_wf(*final(state)),
{
    if !state.player.grounded {
        return ;
    }
    if state.player.passenger.is_some() {
        return ;
    }
    let n = state.passengers.len();
    let mut found: Option<usize> = None;
    let mut i: usize = 0;
    while i < n
        invariant
            state_wf(*old(state)),
            *state == *old(state),
            n == state.passengers@.len(),
            0 <= i <= n,
            found is None ==> forall|j: int|
                0 <= j < i ==> !spec_loadable(
                    #[trigger] old(state).passengers@[j],
                    old(state).player,
                ),
            found matches Some(k) ==> {
                &&& 0 <= k < n
                &&& spec_loadable(old(state).passengers@[k as int], old(state).player)
                &&& forall|j: int|
                    0 <= j < k ==> !spec_loadable(
                        #[trigger] old(state).passengers@[j],
                        old(state).player,
                    )
            },
        decreases n - i,
    {
        if found.is_none() {
            proof {
                assert(passenger_wf(old(state).passengers@[i as int]));
            }
            if loadable(&state.passengers[i], &state.player) {
                found = Some(i);
            }
        }
        i += 1;
    }
    match found {
        None => (),
        Some(k) => {
            let mut p = state.passengers.remove(k);
            p.state = PassengerState::Loaded;
            let src = p.source_gate as usize;
            state.board.gates[src].clear_passenger();
            state.player.passenger = Some(p);
            proof {
                assert(state_wf(*state)) by {
                    assert forall|j: int| 0 <= j < state.passengers@.len() implies passenger_wf(
                        #[trigger] state.passengers@[j],
                    ) && passenger_gates_wf(state.passengers@[j], *state) by {
                        if j < k {
                            assert(state.passengers@[j] == old(state).passengers@[j]);
                        } else {
                            assert(state.passengers@[j] == old(state).passengers@[j + 1]);
                        }
                    }
                }
            }
        },
    }
}

/// Whether the player is fast enough this tick to knock passengers down.
pub open spec fn spec_knock_active(player: Player) -> bool {
    dist_sq(player.v, Vec2 { x: 0, y: 0 }) >= PASSENGER_KNOCK_DOWN_SPEED
        * PASSENGER_KNOCK_DOWN_SPEED
}

/// Whether this passenger is knocked down by an overlap with the player.
pub open spec fn spec_knocked(p: Passenger, player: Player) -> bool {
    &&& !(p.state is Falling)
    &&& aabb_intersects(spec_aabb(p.sprite), spec_aabb(player.sprite))
}

/// How many passengers of the list the player knocks down.
pub open spec fn count_knocked(ps: Seq<Passenger>, player: Player) -> nat
    decreases ps.len(),
{
    if ps.len() == 0 {
        0nat
    } else {
        count_knocked(ps.drop_last(), player) + (if spec_knocked(ps.last(), player) {
            1nat
        } else {
            0nat
        })
    }
}

/// Knocks down every non-falling passenger the player overlaps while
/// moving above the knock-down speed.  Each knocked passenger costs one
/// reputation point (not gated by hit immunity), and a knocked waiting
/// passenger frees its source gate.
/// How `try_knock_down` relates the world before and after: below the
/// knock-down speed nothing changes; above it every overlapped non-falling
/// passenger falls, its waiting source gate is freed, and each costs a
/// reputation point.
pub open spec fn spec_knock_down_rel(pre: State, post: State) -> bool {
    &&& !spec_knock_active(pre.player) ==> post == pre
    &&& spec_knock_active(pre.player) ==> {
        &&& post.passengers@.len() == pre.passengers@.len()
        &&& forall|i: int|
            0 <= i < pre.passengers@.len() ==> post.passengers@[i] == (if spec_knocked(
                #[trigger] pre.passengers@[i],
                pre.player,
            ) {
                (Passenger { state: PassengerState::Falling, ..pre.passengers@[i] })
            } else {
                pre.passengers@[i]
            })
        &&& post.board.gates@.len() == pre.board.gates@.len()
        &&& forall|g: int|
            0 <= g < pre.board.gates@.len() ==> post.board.gates@[g] == (if (exists|i: int|
                0 <= i < pre.passengers@.len() && spec_knocked(
                    #[trigger] pre.passengers@[i],
                    pre.player,
                ) && pre.passengers@[i].state is Waiting && pre.passengers@[i].source_gate == g) {
                (Gate {
                    position: pre.board.gates@[g].position,
                    has_passenger: false,
                    since_pickup: 0,
                })
            } else {
                #[trigger] pre.board.gates@[g]
            })
        &&& post.player == (Player {
            stats: (Stats {
                reputation: spec_take_reputation_n(
                    pre.player.stats.reputation,
                    count_knocked(pre.passengers@, pre.player),
                ),
                ..pre.player.stats
            }),
            ..pre.player
        })
        &&& post.board.colliders == pre.board.colliders
        &&& post.creatures == pre.creatures
        &&& post.since_spawn == pre.since_spawn
        &&& post.spawn_interval == pre.spawn_interval
    }
}

pub fn try_knock_down(state: &mut State)
    requires
        state_wf(*old(state)),
    ensures
        spec_knock_down_rel(*old(state), *final(state)),
        state_wf(*final(state)),
{
    let active = !dist_below(
        state.player.v,
        Vec2 { x: 0, y: 0 },
        PASSENGER_KNOCK_DOWN_SPEED,
    );
    if !active {
        return ;
    }
    let player_aabb = state.player.sprite.aabb();
    let n = state.passengers.len();
    let mut i: usize = 0;
    while i < n
        invariant
            state_wf(*old(state)),
            spec_knock_active(old(state).player),
            player_aabb == spec_aabb(old(state).player.sprite),
            n == old(state).passengers@.len(),
            state.passengers@.len() == n,
            0 <= i <= n,
            forall|j: int|
                i <= j < n ==> state.passengers@[j] == #[trigger] old(state).passengers@[j],
            forall|j: int|
                0 <= j < i ==> state.passengers@[j] == (if spec_knocked(
                    #[trigger] old(state).passengers@[j],
                    old(state).player,
                ) {
                    (Passenger { state: PassengerState::Falling, ..old(state).passengers@[j] })
                } else {
                    old(state).passengers@[j]
                }),
            state.board.gates@.len() == old(state).board.gates@.len(),
            forall|g: int|
                0 <= g < old(state).board.gates@.len() ==> state.board.gates@[g] == (if (exists|
                    j: int,
                |
                    0 <= j < i && spec_knocked(
                        #[trigger] old(state).passengers@[j],
                        old(state).player,
                    ) && old(state).passengers@[j].state is Waiting && old(
                        state,
                    ).passengers@[j].source_gate == g) {
                    (Gate {
                        position: old(state).board.gates@[g].position,
                        has_passenger: false,
                        since_pickup: 0,
                    })
                } else {
                    #[trigger] old(state).board.gates@[g]
                }),
            state.player == (Player {
                stats: (Stats {
                    reputation: spec_take_reputation_n(
                        old(state).player.stats.reputation,
                        count_knocked(old(state).passengers@.take(i as int), old(state).player),
                    ),
                    ..old(state).player.stats
                }),
                ..old(state).player
            }),
            state.board.colliders == old(state).board.colliders,
            state.creatures == old(state).creatures,
            state.since_spawn == old(state).since_spawn,
            state.spawn_interval == old(state).spawn_interval,
        decreases n - i,
    {
        let ghost prefix1 = old(state).passengers@.take(i + 1);
        proof {
            assert(prefix1.drop_last() =~= old(state).passengers@.take(i as int));
            assert(prefix1.last() == old(state).passengers@[i as int]);
            assert(passenger_wf(old(state).passengers@[i as int]));
            assert(passenger_gates_wf(old(state).passengers@[i as int], *old(state)));
        }
        let p = state.passengers[i];
        let falling = match p.state {
            PassengerState::Falling => true,
            _ => false,
        };
        if !falling && p.sprite.aabb().intersects(&player_aabb) {
            match p.state {
                PassengerState::Waiting(_) => {
                    let src = p.source_gate as usize;
                    state.board.gates[src].clear_passenger();
                },
                _ => (),
            }
            state.passengers[i] = Passenger { state: PassengerState::Falling, ..p };
            state.player.stats.take_reputation();
        }
        i += 1;
    }
    proof {
        assert(old(state).passengers@.take(n as int) =~= old(state).passengers@);
        assert forall|j: int| 0 <= j < state.passengers@.len() implies passenger_wf(
            #[trigger] state.passengers@[j],
        ) && passenger_gates_wf(state.passengers@[j], *state) by {
            assert(passenger_wf(old(state).passengers@[j]));
            assert(passenger_gates_wf(old(state).passengers@[j], *old(state)));
        }
        assert forall|g: int| 0 <= g < state.board.gates@.len() implies gate_wf(
            #[trigger] state.board.gates@[g],
        ) by {
            assert(gate_wf(old(state).board.gates@[g]));
        }
    }
}

/// Whether the player can drop the carried passenger right now: grounded
/// and nearly at rest, on the level of the passenger's target gate and
/// within load distance of its centre.
pub open spec fn spec_unload_ok(s: State) -> bool {
    &&& s.player.passenger matches Some(p)
    &&& s.player.grounded
    &&& dist_sq(s.player.v, Vec2 { x: 0, y: 0 }) <= TOLERANCE * TOLERANCE
    &&& (p.target_gate as int) < s.board.gates@.len()
    &&& dist_sq(
        spec_centre(s.player.sprite),
        spec_gate_centre(s.board.gates@[p.target_gate as int].position),
    ) <= PASSENGER_LOAD_DIST * PASSENGER_LOAD_DIST
    &&& spec_same_level(s.player.sprite, s.board.gates@[p.target_gate as int].position)
}

/// Drops the carried passenger at its target gate when the player stands
/// still on its level within load distance: the passenger re-enters the
/// world list as `Landed` at the player's position and the score rises by
/// one.  Without a carried passenger, or short of any condition, the world
/// is left unchanged.
/// How `try_unload` relates the world before and after: with no carried
/// passenger, or short of any drop-off condition, the world is unchanged;
/// otherwise the passenger re-enters the world list `Landed` at the
/// player's position and the score rises by one.
pub open spec fn spec_try_unload_rel(pre: State, post: State) -> bool {
    &&& pre.player.passenger is None ==> post == pre
    &&& !spec_unload_ok(pre) ==> post == pre
    &&& spec_unload_ok(pre) ==> (pre.player.passenger matches Some(p) && {
        &&& post.passengers@ == pre.passengers@.push(
            (Passenger {
                state: PassengerState::Landed(pre.board.gates@[p.target_gate as int].position),
                sprite: DynamicSprite { position: pre.player.sprite.position, ..p.sprite },
                ..p
            }),
        )
        &&& post.player == (Player {
            passenger: None,
            stats: (Stats { score: spec_incr_score(pre.player.stats.score), ..pre.player.stats }),
            ..pre.player
        })
        &&& post.board == pre.board
        &&& post.creatures == pre.creatures
        &&& post.since_spawn == pre.since_spawn
        &&& post.spawn_interval == pre.spawn_interval
    })
}

pub fn try_unload(state: &mut State)
    requires
        state_wf(*old(state)),
    ensures
        spec_try_unload_rel(*old(state), *final(state)),
        state_wf(*final(state)),
{
    let target = match &state.player.passenger {
        Some(p) => p.target_gate,
        None => {
            return ;
        },
    };
    if !state.player.grounded {
        return ;
    }
    if !dist_within(state.player.v, Vec2 { x: 0, y: 0 }, TOLERANCE) {
        return ;
    }
    let gate_position = state.board.gates[target as usize].position;
    let centre = state.player.sprite.centre();
    if !dist_within(centre, gate_centre(gate_position), PASSENGER_LOAD_DIST) {
        return ;
    }
    if !same_level(&state.player.sprite, &gate_position) {
        return ;
    }
    let mut p = match state.player.passenger.take() {
        Some(p) => p,
        None => {
            return ;
        },
    };
    p.state = PassengerState::Landed(gate_position);
    p.sprite.position = state.player.sprite.position;
    state.passengers.push(p);
    state.player.stats.score = state.player.stats.score.saturating_add(1);
    proof {
        assert forall|j: int| 0 <= j < state.passengers@.len() implies passenger_wf(
            #[trigger] state.passengers@[j],
        ) && passenger_gates_wf(state.passengers@[j], *state) by {
            if j < old(state).passengers@.len() {
                assert(passenger_wf(old(state).passengers@[j]));
                assert(passenger_gates_wf(old(state).passengers@[j], *old(state)));
            }
        }
    }
}

/// Removes every passenger the removal predicate marks finished, keeping
/// the order of the rest.
/// How `sweep_removed` relates the world before and after: the passenger
/// list is filtered by the removal predicate, all else untouched.
pub open spec fn spec_sweep_rel(pre: State, post: State) -> bool {
    &&& post.passengers@ == pre.passengers@.filter(|p: Passenger| !spec_should_remove(p))
    &&& post == (State { passengers: post.passengers, ..pre })
}

pub fn sweep_removed(state: &mut State)
    requires
        state_wf(*old(state)),
    ensures
        spec_sweep_rel(*old(state), *final(state)),
        state_wf(*final(state)),
{
    let mut kept: Vec<Passenger> = Vec::new();
    let n = state.passengers.len();
    let mut i: usize = 0;
    while i < n
        invariant
            state_wf(*old(state)),
            *state == *old(state),
            n == state.passengers@.len(),
            0 <= i <= n,
            kept@ == old(state).passengers@.take(i as int).filter(
                |p: Passenger| !spec_should_remove(p),
            ),
        decreases n - i,
    {
        let ghost prefix = old(state).passengers@.take(i as int);
        let ghost prefix1 = old(state).passengers@.take(i + 1);
        proof {
            assert(prefix1.drop_last() =~= prefix);
            assert(prefix1.last() == old(state).passengers@[i as int]);
            assert(passenger_wf(old(state).passengers@[i as int]));
            reveal_with_fuel(Seq::<_>::filter, 2);
        }
        let p = state.passengers[i];
        if !should_remove(&p) {
            kept.push(p);
        }
        i += 1;
    }
    proof {
        assert(old(state).passengers@.take(n as int) =~= old(state).passengers@);
    }
    state.passengers = kept;
    proof {
        assert forall|j: int| 0 <= j < state.passengers@.len() implies passenger_wf(
            #[trigger] state.passengers@[j],
        ) && passenger_gates_wf(state.passengers@[j], *state) by {
            let fseq = old(state).passengers@.filter(|p: Passenger| !spec_should_remove(p));
            assert(fseq[j] == state.passengers@[j]);
            assert(fseq.contains(state.passengers@[j]));
            seq_filter_contains(
                old(state).passengers@,
                |p: Passenger| !spec_should_remove(p),
                state.passengers@[j],
            );
            let k = choose|k: int|
                0 <= k < old(state).passengers@.len() && old(state).passengers@[k]
                    == state.passengers@[j];
            assert(passenger_wf(old(state).passengers@[k]));
            assert(passenger_gates_wf(old(state).passengers@[k], *old(state)));
        }
    }
}

/// A spawn-scheduler counter advanced by one tick, saturating far beyond
/// any playable duration.
pub open spec fn spec_tick_timer(t: int) -> int {
    if t + SPAWN_TICK > TIME_CAP {
        TIME_CAP as int
    } else {
        t + SPAWN_TICK
    }
}

fn tick_timer(t: i64) -> (r: i64)
    requires
        0 <= t <= TIME_CAP,
    ensures
        r == spec_tick_timer(t as int),
{
    if t > TIME_CAP - SPAWN_TICK {
        TIME_CAP
    } else {
        t + SPAWN_TICK
    }
}

/// Whether a gate (with its pickup timer already advanced this tick) can
/// source a new passenger under the given spawn interval.
pub open spec fn spec_eligible_source(g: Gate, interval: int) -> bool {
    !g.has_passenger && spec_tick_timer(g.since_pickup as int) > interval
}

/// The passenger a successful spawn creates: waiting at the source gate,
/// offset half a tile to the right, labelled with the two gate indices.
pub open spec fn spec_spawned_passenger(gate_position: Vec2, src: int, tgt: int) -> Passenger {
    Passenger {
        sprite: DynamicSprite {
            position: Vec2 { x: (gate_position.x + TILE_SIZE / 2) as i64, y: gate_position.y },
            collider_size: Vec2 { x: PASSENGER_WIDTH, y: PASSENGER_HEIGHT },
            collider_offset: Vec2 { x: (TILE_SIZE / 4) as i64, y: 0 },
            flip_x: false,
        },
        state: PassengerState::Waiting(0),
        source_gate: src as u32,
        target_gate: tgt as u32,
        animation_state: PassengerAnimationState::Idle,
    }
}

/// The no-spawn outcome of a scheduler tick: every counter advanced, all
/// else untouched.
pub open spec fn spec_spawn_noop(pre: State, post: State) -> bool {
    &&& post.since_spawn == spec_tick_timer(pre.since_spawn as int)
    &&& post.board.gates@.len() == pre.board.gates@.len()
    &&& forall|g: int|
        0 <= g < pre.board.gates@.len() ==> post.board.gates@[g] == (Gate {
            since_pickup: spec_tick_timer(
                (#[trigger] pre.board.gates@[g]).since_pickup as int,
            ) as i64,
            ..pre.board.gates@[g]
        })
    &&& post.board.colliders == pre.board.colliders
    &&& post.player == pre.player
    &&& post.passengers == pre.passengers
    &&& post.creatures == pre.creatures
    &&& post.spawn_interval == pre.spawn_interval
}

/// A successful spawn from gate `src` to gate `tgt`: as the no-spawn
/// outcome, but the new passenger is appended, the source gate is marked
/// occupied, and the spawn counter starts over.
pub open spec fn spec_spawn_done(pre: State, post: State, src: int, tgt: int) -> bool {
    &&& post.since_spawn == 0
    &&& post.board.gates@.len() == pre.board.gates@.len()
    &&& forall|g: int|
        0 <= g < pre.board.gates@.len() ==> post.board.gates@[g] == (Gate {
            since_pickup: spec_tick_timer(
                (#[trigger] pre.board.gates@[g]).since_pickup as int,
            ) as i64,
            has_passenger: pre.board.gates@[g].has_passenger || g == src,
            ..pre.board.gates@[g]
        })
    &&& post.passengers@ == pre.passengers@.push(
        spec_spawned_passenger(pre.board.gates@[src].position, src, tgt),
    )
    &&& post.board.colliders == pre.board.colliders
    &&& post.player == pre.player
    &&& post.creatures == pre.creatures
    &&& post.spawn_interval == pre.spawn_interval
}

/// One spawn-scheduler tick.  All pickup counters and the spawn counter
/// advance first.  If the spawn counter has not yet reached the current
/// interval, nothing else happens.  Otherwise a source gate is drawn
/// uniformly among the free gates whose pickup timers exceed the interval,
/// and a target gate uniformly among all others; if either set is empty
/// the tick is a no-op and the counter keeps its value, so the next tick
/// retries.  On success the new passenger appears at the source gate.
/// How `try_spawn` relates the world before and after: counters always
/// advance; too early a tick, no eligible source gate or fewer than two
/// gates is otherwise a no-op; else some eligible source and some distinct
/// target produce exactly one new waiting passenger.
pub open spec fn spec_try_spawn_rel(pre: State, post: State) -> bool {
    &&& spec_tick_timer(pre.since_spawn as int) < pre.spawn_interval ==> spec_spawn_noop(pre, post)
    &&& (forall|g: int|
        0 <= g < pre.board.gates@.len() ==> !spec_eligible_source(
            #[trigger] pre.board.gates@[g],
            pre.spawn_interval as int,
        )) ==> spec_spawn_noop(pre, post)
    &&& pre.board.gates@.len() < 2 ==> spec_spawn_noop(pre, post)
    &&& (spec_tick_timer(pre.since_spawn as int) >= pre.spawn_interval && pre.board.gates@.len()
        >= 2 && (exists|g: int|
        0 <= g < pre.board.gates@.len() && spec_eligible_source(
            #[trigger] pre.board.gates@[g],
            pre.spawn_interval as int,
        ))) ==> exists|src: int, tgt: int|
        {
            &&& 0 <= src < pre.board.gates@.len()
            &&& 0 <= tgt < pre.board.gates@.len()
            &&& tgt != src
            &&& spec_eligible_source(pre.board.gates@[src], pre.spawn_interval as int)
            &&& #[trigger] spec_spawn_done(pre, post, src, tgt)
        }
}

pub fn try_spawn(state: &mut State)
    requires
        state_wf(*old(state)),
    ensures
        spec_try_spawn_rel(*old(state), *final(state)),
        state_wf(*final(state)),
{
    let t2 = tick_timer(state.since_spawn);
    state.since_spawn = t2;
    let glen = state.board.gates.len();
    let mut g: usize = 0;
    while g < glen
        invariant
            state_wf(*old(state)),
            glen == old(state).board.gates@.len(),
            state.board.gates@.len() == glen,
            0 <= g <= glen,
            forall|j: int|
                0 <= j < g ==> state.board.gates@[j] == (Gate {
                    since_pickup: spec_tick_timer(
                        (#[trigger] old(state).board.gates@[j]).since_pickup as int,
                    ) as i64,
                    ..old(state).board.gates@[j]
                }),
            forall|j: int|
                g <= j < glen ==> state.board.gates@[j] == #[trigger] old(state).board.gates@[j],
            *state == (State {
                board: (crate::board::Board {
                    gates: state.board.gates,
                    colliders: old(state).board.colliders,
                }),
                since_spawn: spec_tick_timer(old(state).since_spawn as int) as i64,
                ..*old(state)
            }),
        decreases glen - g,
    {
        proof {
            assert(gate_wf(old(state).board.gates@[g as int]));
        }
        let advanced = tick_timer(state.board.gates[g].since_pickup);
        state.board.gates[g].since_pickup = advanced;
        g += 1;
    }
    proof {
        assert forall|j: int| 0 <= j < glen implies gate_wf(#[trigger] state.board.gates@[j]) by {
            assert(gate_wf(old(state).board.gates@[j]));
        }
        assert forall|j: int|
            0 <= j < state.passengers@.len() implies passenger_wf(#[trigger] state.passengers@[j])
            && passenger_gates_wf(state.passengers@[j], *state) by {
            assert(passenger_wf(old(state).passengers@[j]));
            assert(passenger_gates_wf(old(state).passengers@[j], *old(state)));
        }
    }
    if state.since_spawn < state.spawn_interval {
        return ;
    }
    let mut candidates: Vec<usize> = Vec::new();
    let mut g: usize = 0;
    while g < glen
        invariant
            glen == old(state).board.gates@.len(),
            state.board.gates@.len() == glen,
            0 <= g <= glen,
            forall|j: int|
                0 <= j < glen ==> state.board.gates@[j] == (Gate {
                    since_pickup: spec_tick_timer(
                        (#[trigger] old(state).board.gates@[j]).since_pickup as int,
                    ) as i64,
                    ..old(state).board.gates@[j]
                }),
            state.spawn_interval == old(state).spawn_interval,
            forall|k: int|
                0 <= k < candidates@.len() ==> (#[trigger] candidates@[k] as int) < glen
                    && spec_eligible_source(
                    old(state).board.gates@[candidates@[k] as int],
                    old(state).spawn_interval as int,
                ),
            candidates@.len() == 0 ==> forall|j: int|
                0 <= j < g ==> !spec_eligible_source(
                    #[trigger] old(state).board.gates@[j],
                    old(state).spawn_interval as int,
                ),
        decreases glen - g,
    {
        let gate = &state.board.gates[g];
        if !gate.has_passenger && gate.since_pickup > state.spawn_interval {
            candidates.push(g);
        }
        g += 1;
    }
    if candidates.len() == 0 {
        return ;
    }
    let src = candidates[crate::random::pick_index(candidates.len())];
    if glen < 2 {
        return ;
    }
    let mut targets: Vec<usize> = Vec::new();
    let mut g: usize = 0;
    while g < glen
        invariant
            glen == old(state).board.gates@.len(),
            src < glen,
            0 <= g <= glen,
            forall|k: int|
                0 <= k < targets@.len() ==> (#[trigger] targets@[k] as int) < glen && targets@[k]
                    != src,
            targets@.len() == g - (if g > src {
                1int
            } else {
                0int
            }),
        decreases glen - g,
    {
        if g != src {
            targets.push(g);
        }
        g += 1;
    }
    let tgt = targets[crate::random::pick_index(targets.len())];
    let gate_position = state.board.gates[src].position;
    proof {
        assert(gate_wf(old(state).board.gates@[src as int]));
        assert((src as u32) != (tgt as u32)) by {
            assert(src < glen && tgt < glen && glen <= u32::MAX);
        }
    }
    let passenger = Passenger::new(
        Vec2 { x: gate_position.x + TILE_SIZE / 2, y: gate_position.y },
        Vec2 { x: PASSENGER_WIDTH, y: PASSENGER_HEIGHT },
        src as u32,
        tgt as u32,
    );
    state.passengers.push(passenger);
    state.since_spawn = 0;
    state.board.gates[src].has_passenger = true;
    proof {
        let pre = *old(state);
        let post = *state;
        assert(post.passengers@ == pre.passengers@.push(
            spec_spawned_passenger(pre.board.gates@[src as int].position, src as int, tgt as int),
        ));
        assert(spec_spawn_done(pre, post, src as int, tgt as int));
        assert forall|j: int|
            0 <= j < state.passengers@.len() implies passenger_wf(#[trigger] state.passengers@[j])
            && passenger_gates_wf(state.passengers@[j], *state) by {
            if j < old(state).passengers@.len() {
                assert(passenger_wf(old(state).passengers@[j]));
                assert(passenger_gates_wf(old(state).passengers@[j], *old(state)));
            }
        }
        assert forall|j: int| 0 <= j < glen implies gate_wf(#[trigger] state.board.gates@[j]) by {
            assert(gate_wf(old(state).board.gates@[j]));
        }
    }
}

/// Every element of a filtered sequence comes from the unfiltered one.
proof fn seq_filter_contains(s: Seq<Passenger>, pred: spec_fn(Passenger) -> bool, x: Passenger)
    requires
        s.filter(pred).contains(x),
    ensures
        exists|k: int| 0 <= k < s.len() && s[k] == x,
    decreases s.len(),
{
    reveal_with_fuel(Seq::<_>::filter, 2);
    if s.len() > 0 {
        if s.last() == x {
            assert(s[s.len() - 1] == x);
        } else {
            seq_filter_contains(s.drop_last(), pred, x);
            let k = choose|k: int| 0 <= k < s.drop_last().len() && s.drop_last()[k] == x;
            assert(s[k] == x);
        }
    }
}

} // verus!
