//! The shared world snapshot and the per-tick orchestration.

use vstd::prelude::*;

use crate::board::{board_wf, Board};
use crate::creatures::{
    check_interactions, creature_wf, spec_interact_all, spec_update_creature, update_creature,
    Creature,
};
use crate::geometry::Vec2;
use crate::globals::{
    BASE_REPUTATION, BASE_SPAWN_INTERVAL, BASE_STAMINA_RECOVERY, BASE_STAMINA_USE, BOARD_WIDTH,
    FLY_ACC, MAX_DELTA, MIN_SPAWN_INTERVAL, SCALE, SPAWN_DROP_EVERY, TILE_SIZE, TIME_CAP,
};
use crate::passenger::{
    handle_waiting, move_passenger, passenger_wf, spec_handle_waiting_rel, spec_knock_down_rel,
    spec_move_passenger, spec_sweep_rel, spec_try_load_rel, spec_try_spawn_rel,
    spec_try_unload_rel, sweep_removed, try_knock_down, try_load, try_spawn, try_unload, Passenger,
};
use crate::player::{
    handle_lift, player_wf, spec_handle_lift, update_player, update_player_post, Player, Stats,
};
use crate::sprite::DynamicSprite;

verus! {

/// The whole mutable world, owned by the orchestrator and passed by
/// exclusive reference into each component in strict sequence.
pub struct State {
    pub board: Board,
    pub player: Player,
    pub passengers: Vec<Passenger>,
    pub creatures: Vec<Creature>,
    pub since_spawn: i64,
    pub spawn_interval: i64,
}

/// Already-decoded input intents for one tick.
#[derive(Clone, Copy, Debug, PartialEq, Eq, Structural)]
pub struct Intents {
    pub lift: bool,
    pub left: bool,
    pub right: bool,
}

/// Fire-and-forget events a tick emits for the outer shell.
#[derive(Clone, Copy, Debug, PartialEq, Eq, Structural)]
pub struct TickEvents {
    pub hit_sound: bool,
    pub game_over: bool,
}

/// A passenger's gate labels point into this board's gate table.
pub open spec fn passenger_gates_wf(p: Passenger, s: State) -> bool {
    &&& (p.source_gate as int) < s.board.gates@.len()
    &&& (p.target_gate as int) < s.board.gates@.len()
}

pub open spec fn state_wf(s: State) -> bool {
    &&& board_wf(s.board)
    &&& player_wf(s.player)
    &&& s.player.passenger matches Some(p) ==> passenger_gates_wf(p, s)
    &&& forall|i: int|
        0 <= i < s.passengers@.len() ==> passenger_wf(#[trigger] s.passengers@[i])
            && passenger_gates_wf(s.passengers@[i], s)
    &&& forall|i: int| 0 <= i < s.creatures@.len() ==> creature_wf(#[trigger] s.creatures@[i])
    &&& 0 <= s.since_spawn <= TIME_CAP
    &&& MIN_SPAWN_INTERVAL <= s.spawn_interval <= BASE_SPAWN_INTERVAL
}

/// The spawn interval owed at a given score: it shrinks by one second per
/// `SPAWN_DROP_EVERY` points, floored at `MIN_SPAWN_INTERVAL`.
pub open spec fn spec_spawn_interval(score: u32) -> int {
    let candidate = BASE_SPAWN_INTERVAL - (score / SPAWN_DROP_EVERY) * (SCALE as int);
    if candidate < MIN_SPAWN_INTERVAL {
        MIN_SPAWN_INTERVAL as int
    } else {
        candidate
    }
}

/// Recomputes the spawn interval from the current score.
pub fn update_difficulty(state: &mut State)
    ensures
        final(state).spawn_interval == spec_spawn_interval(old(state).player.stats.score),
        MIN_SPAWN_INTERVAL <= final(state).spawn_interval <= BASE_SPAWN_INTERVAL,
        *final(state) == (State {
            spawn_interval: final(state).spawn_interval,
            ..*old(state)
        }),
{
    let decr = state.player.stats.score / SPAWN_DROP_EVERY;
    let candidate = BASE_SPAWN_INTERVAL - (decr as i64) * SCALE;
    state.spawn_interval = if candidate < MIN_SPAWN_INTERVAL {
        MIN_SPAWN_INTERVAL
    } else {
        candidate
    };
}

/// Resets the mutable world for a fresh game: a full-stamina player at the
/// board's centre, no passengers, the base spawn cadence.  The board and
/// the creatures are loaded separately.
pub fn reinit(state: &mut State)
    ensures
        *final(state) == (State {
            board: old(state).board,
            player: (Player {
                sprite: DynamicSprite {
                    position: (Vec2 { x: ((BOARD_WIDTH / 2) * TILE_SIZE) as i64, y: (2 * TILE_SIZE) as i64 }),
                    collider_size: (Vec2 { x: TILE_SIZE, y: TILE_SIZE }),
                    collider_offset: (Vec2 { x: 0, y: 0 }),
                    flip_x: false,
                },
                v: (Vec2 { x: 0, y: 0 }),
                a: (Vec2 { x: 0, y: 0 }),
                grounded: false,
                immunity: 0,
                passenger: None,
                stats: (Stats {
                    stamina: SCALE,
                    stamina_use: BASE_STAMINA_USE,
                    stamina_recovery: BASE_STAMINA_RECOVERY,
                    score: 0,
                    reputation: BASE_REPUTATION,
                }),
            }),
            passengers: final(state).passengers,
            creatures: old(state).creatures,
            since_spawn: 0,
            spawn_interval: BASE_SPAWN_INTERVAL,
        }),
        final(state).passengers@ =~= Seq::<Passenger>::empty(),
{
    let mut player = Player::new(
        Vec2 { x: (BOARD_WIDTH as i64 / 2) * TILE_SIZE, y: 2 * TILE_SIZE },
        Vec2 { x: TILE_SIZE, y: TILE_SIZE },
    );
    player.stats.reputation = BASE_REPUTATION;
    player.stats.stamina_use = BASE_STAMINA_USE;
    player.stats.stamina_recovery = BASE_STAMINA_RECOVERY;
    player.stats.stamina = SCALE;
    player.passenger = None;
    state.player = player;
    state.passengers = Vec::new();
    state.spawn_interval = BASE_SPAWN_INTERVAL;
    state.since_spawn = 0;
}

/// The deterministic head of a tick: the spawn interval is recomputed from
/// the score, the stamina/lift step runs, and a held direction steers an
/// airborne player (left winning over right when both are held).
pub open spec fn spec_prelude(s: State, intents: Intents, delta: int) -> State {
    let p1 = spec_handle_lift(s.player, delta, intents.lift);
    let p2 = if p1.grounded {
        p1
    } else if intents.left {
        Player { a: (Vec2 { x: (-FLY_ACC) as i64, y: p1.a.y }), ..p1 }
    } else if intents.right {
        Player { a: (Vec2 { x: FLY_ACC, y: p1.a.y }), ..p1 }
    } else {
        p1
    };
    State {
        player: p2,
        spawn_interval: spec_spawn_interval(s.player.stats.score) as i64,
        ..s
    }
}

/// The whole pipeline of one playing tick, stage by stage, in call order:
/// the prelude; the spawn scheduler when its timer fired; waiting timers;
/// knock-downs; loading; unloading; the removal sweep; creature
/// interactions; player physics; passenger motion; creature motion.  The
/// intermediate worlds `s2` to `s10` are the hand-offs between stages, and
/// `hit1`/`hit2` the hit events of the two stages that can sound one.
pub open spec fn game_tick_stages(
    pre: State,
    intents: Intents,
    delta: int,
    spawn_fired: bool,
    s2: State,
    s3: State,
    s4: State,
    s5: State,
    s6: State,
    s7: State,
    s8: State,
    s9: State,
    s10: State,
    hit1: bool,
    hit2: bool,
    post: State,
) -> bool {
    let s1 = spec_prelude(pre, intents, delta);
    &&& if spawn_fired {
        spec_try_spawn_rel(s1, s2)
    } else {
        s2 == s1
    }
    &&& spec_handle_waiting_rel(s2, s3, delta)
    &&& spec_knock_down_rel(s3, s4)
    &&& spec_try_load_rel(s4, s5)
    &&& spec_try_unload_rel(s5, s6)
    &&& spec_sweep_rel(s6, s7)
    &&& (s8.player, hit1) == spec_interact_all(s7.creatures@, s7.player)
    &&& s8 == (State { player: s8.player, ..s7 })
    &&& update_player_post(
        s8.player,
        s8.board.colliders@,
        delta,
        s9.player,
        hit2,
    )
    &&& s9 == (State { player: s9.player, ..s8 })
    &&& s10.passengers@.len() == s9.passengers@.len()
    &&& forall|i: int|
        0 <= i < s9.passengers@.len() ==> s10.passengers@[i]
            == spec_move_passenger(
            #[trigger] s9.passengers@[i],
            s9.player,
            delta,
        )
    &&& s10 == (State { passengers: s10.passengers, ..s9 })
    &&& post.creatures@.len() == s10.creatures@.len()
    &&& forall|i: int|
        0 <= i < s10.creatures@.len() ==> post.creatures@[i]
            == spec_update_creature(#[trigger] s10.creatures@[i], delta)
    &&& post == (State { creatures: post.creatures, ..s10 })
}

/// Exhibits the hand-off worlds of a tick as the witnesses of the
/// pipeline's existential description.
proof fn lemma_game_tick_intro(
    pre: State,
    intents: Intents,
    delta: int,
    spawn_fired: bool,
    s2: State,
    s3: State,
    s4: State,
    s5: State,
    s6: State,
    s7: State,
    s8: State,
    s9: State,
    s10: State,
    hit1: bool,
    hit2: bool,
    post: State,
)
    requires
        game_tick_stages(
            pre,
            intents,
            delta,
            spawn_fired,
            s2,
            s3,
            s4,
            s5,
            s6,
            s7,
            s8,
            s9,
            s10,
            hit1,
            hit2,
            post,
        ),
    ensures
        exists|t2: State, t3: State, t4: State, t5: State, t6: State, t7: State, t8: State, t9:
            State, t10: State, h1: bool, h2: bool|
            {
                &&& #[trigger] game_tick_stages(
                    pre,
                    intents,
                    delta,
                    spawn_fired,
                    t2,
                    t3,
                    t4,
                    t5,
                    t6,
                    t7,
                    t8,
                    t9,
                    t10,
                    h1,
                    h2,
                    post,
                )
                &&& (hit1 || hit2) == (h1 || h2)
            },
{
    assert(game_tick_stages(
        pre,
        intents,
        delta,
        spawn_fired,
        s2,
        s3,
        s4,
        s5,
        s6,
        s7,
        s8,
        s9,
        s10,
        hit1,
        hit2,
        post,
    ));
}

/// One tick of the playing state.  With reputation at zero the world is
/// untouched and the game-over event fires: the fail condition is
/// surfaced, never handled inside the components.  Otherwise the stages of
/// `game_tick_stages` run in order, and the hit-sound event reports
/// whether a bird hit or a hard landing connected this tick.
#[verifier::rlimit(100)]
pub fn game_loop(state: &mut State, intents: Intents, delta: i64, spawn_fired: bool) -> (ev:
    TickEvents)
    requires
        state_wf(*old(state)),
        0 <= delta <= MAX_DELTA,
    ensures
        old(state).player.stats.reputation == 0 ==> *final(state) == *old(state) && ev
            == (TickEvents { hit_sound: false, game_over: true }),
        old(state).player.stats.reputation != 0 ==> {
            &&& ev.game_over == false
            &&& exists|s2: State, s3: State, s4: State, s5: State, s6: State, s7: State, s8:
                State, s9: State, s10: State, hit1: bool, hit2: bool|
                {
                    &&& #[trigger] game_tick_stages(
                        *old(state),
                        intents,
                        delta as int,
                        spawn_fired,
                        s2,
                        s3,
                        s4,
                        s5,
                        s6,
                        s7,
                        s8,
                        s9,
                        s10,
                        hit1,
                        hit2,
                        *final(state),
                    )
                    &&& ev.hit_sound == (hit1 || hit2)
                }
        },
        state_wf(*final(state)),
        0 <= final(state).player.stats.stamina <= SCALE,
{
    if state.player.stats.reputation == 0 {
        return TickEvents { hit_sound: false, game_over: true };
    }
    update_difficulty(state);
    handle_lift(&mut state.player, delta, intents.lift);
    if !state.player.grounded {
        if intents.right {
            state.player.a.x = FLY_ACC;
        }
        if intents.left {
            state.player.a.x = -FLY_ACC;
        }
    }
    proof {
        assert(*state == spec_prelude(*old(state), intents, delta as int));
        assert(state_wf(*state));
    }
    if spawn_fired {
        try_spawn(state);
    }
    let ghost s2 = *state;
    handle_waiting(state, delta);
    let ghost s3 = *state;
    try_knock_down(state);
    let ghost s4 = *state;
    try_load(state);
    let ghost s5 = *state;
    try_unload(state);
    let ghost s6 = *state;
    sweep_removed(state);
    let ghost s7 = *state;
    let hit1 = check_interactions(state);
    let ghost s8 = *state;
    let hit2 = update_player(state, delta);
    let ghost s9 = *state;
    let n = state.passengers.len();
    let mut i: usize = 0;
    while i < n
        invariant
            state_wf(s9),
            0 <= delta <= MAX_DELTA,
            n == s9.passengers@.len(),
            state.passengers@.len() == n,
            0 <= i <= n,
            forall|j: int| i <= j < n ==> state.passengers@[j] == #[trigger] s9.passengers@[j],
            forall|j: int|
                0 <= j < i ==> state.passengers@[j] == spec_move_passenger(
                    #[trigger] s9.passengers@[j],
                    s9.player,
                    delta as int,
                ),
            *state == (State { passengers: state.passengers, ..s9 }),
        decreases n - i,
    {
        proof {
            assert(passenger_wf(s9.passengers@[i as int]));
        }
        let mut p = state.passengers[i];
        move_passenger(&mut p, &state.player, delta);
        state.passengers[i] = p;
        i += 1;
    }
    proof {
        assert forall|j: int| 0 <= j < state.passengers@.len() implies passenger_wf(
            #[trigger] state.passengers@[j],
        ) && passenger_gates_wf(state.passengers@[j], *state) by {
            assert(passenger_wf(s9.passengers@[j]));
            assert(passenger_gates_wf(s9.passengers@[j], s9));
        }
    }
    let ghost s10 = *state;
    let m = state.creatures.len();
    let mut k: usize = 0;
    while k < m
        invariant
            state_wf(s10),
            0 <= delta <= MAX_DELTA,
            m == s10.creatures@.len(),
            state.creatures@.len() == m,
            0 <= k <= m,
            forall|j: int| k <= j < m ==> state.creatures@[j] == #[trigger] s10.creatures@[j],
            forall|j: int|
                0 <= j < k ==> state.creatures@[j] == spec_update_creature(
                    #[trigger] s10.creatures@[j],
                    delta as int,
                ),
            *state == (State { creatures: state.creatures, ..s10 }),
        decreases m - k,
    {
        proof {
            assert(creature_wf(s10.creatures@[k as int]));
        }
        let mut c = state.creatures[k];
        update_creature(&mut c, delta);
        state.creatures[k] = c;
        k += 1;
    }
    proof {
        assert forall|j: int| 0 <= j < state.creatures@.len() implies creature_wf(
            #[trigger] state.creatures@[j],
        ) by {
            assert(creature_wf(s10.creatures@[j]));
        }
        assert forall|j: int| 0 <= j < state.passengers@.len() implies passenger_wf(
            #[trigger] state.passengers@[j],
        ) && passenger_gates_wf(state.passengers@[j], *state) by {
            assert(passenger_wf(s10.passengers@[j]));
            assert(passenger_gates_wf(s10.passengers@[j], s10));
        }
        lemma_game_tick_intro(
            *old(state),
            intents,
            delta as int,
            spawn_fired,
            s2,
            s3,
            s4,
            s5,
            s6,
            s7,
            s8,
            s9,
            s10,
            hit1,
            hit2,
            *state,
        );
    }
    TickEvents { hit_sound: hit1 || hit2, game_over: false }
}

} // verus!
