use grrr::board::{Board, Gate};
use grrr::geometry::Vec2;
use grrr::globals::{BASE_SPAWN_INTERVAL, PASSENGER_HEIGHT, PASSENGER_WIDTH, SCALE};
use grrr::passenger::{
    handle_waiting, move_passenger, should_remove, sweep_removed, try_knock_down, try_load,
    try_unload, Passenger, PassengerAnimationState, PassengerState,
};
use grrr::player::Player;
use grrr::sim::State;

fn fresh_player(x: i64, y: i64) -> Player {
    let mut p = Player::new(Vec2 { x, y }, Vec2 { x: 1_000_000, y: 1_000_000 });
    p.stats.stamina = SCALE;
    p.stats.stamina_use = 100_000;
    p.stats.stamina_recovery = 40_000;
    p.stats.reputation = 5;
    p
}

fn two_gates() -> Vec<Gate> {
    vec![
        Gate { position: Vec2 { x: 0, y: 1_000_000 }, has_passenger: true, since_pickup: 5_000_000 },
        Gate {
            position: Vec2 { x: 5_000_000, y: 1_000_000 },
            has_passenger: false,
            since_pickup: 5_000_000,
        },
    ]
}

fn waiting_passenger(x: i64, y: i64) -> Passenger {
    Passenger::new(
        Vec2 { x, y },
        Vec2 { x: PASSENGER_WIDTH, y: PASSENGER_HEIGHT },
        0,
        1,
    )
}

fn world(player: Player, passengers: Vec<Passenger>) -> State {
    State {
        board: Board { colliders: Vec::new(), gates: two_gates() },
        player,
        passengers,
        creatures: Vec::new(),
        since_spawn: 0,
        spawn_interval: BASE_SPAWN_INTERVAL,
    }
}

#[test]
fn passenger_is_created_waiting_toward_another_gate() {
    let p = waiting_passenger(0, 1_000_000);
    assert!(matches!(p.state, PassengerState::Waiting(0)));
    assert_ne!(p.source_gate, p.target_gate);
    assert!(matches!(p.animation_state, PassengerAnimationState::Idle));
    assert!(!p.sprite.flip_x);
}

#[test]
fn close_waiting_passenger_is_loaded() {
    // Grounded free player at the passenger's level, centres half a
    // passenger width apart: the passenger transfers to the player, leaves
    // the list, and its source gate is cleared.
    let mut player = fresh_player(0, 1_000_000);
    player.grounded = true;
    let mut s = world(player, vec![waiting_passenger(0, 1_000_000)]);
    try_load(&mut s);
    assert_eq!(s.passengers.len(), 0);
    let carried = s.player.passenger.expect("passenger should be carried");
    assert!(matches!(carried.state, PassengerState::Loaded));
    assert!(!s.board.gates[0].has_passenger);
    assert_eq!(s.board.gates[0].since_pickup, 0);
}

#[test]
fn airborne_player_loads_nothing() {
    let mut s = world(fresh_player(0, 1_000_000), vec![waiting_passenger(0, 1_000_000)]);
    try_load(&mut s);
    assert!(s.player.passenger.is_none());
    assert_eq!(s.passengers.len(), 1);
}

#[test]
fn slow_overlap_knocks_nobody_down() {
    // Speed 0.5 units/s is below the knock-down threshold: nothing changes.
    let mut player = fresh_player(0, 1_000_000);
    player.v = Vec2 { x: 500_000, y: 0 };
    let mut s = world(player, vec![waiting_passenger(0, 1_000_000)]);
    try_knock_down(&mut s);
    assert!(matches!(s.passengers[0].state, PassengerState::Waiting(0)));
    assert_eq!(s.player.stats.reputation, 5);
    assert!(s.board.gates[0].has_passenger);
}

#[test]
fn fast_overlap_knocks_the_passenger_down() {
    let mut player = fresh_player(0, 1_000_000);
    player.v = Vec2 { x: 3_000_000, y: 0 };
    let mut s = world(player, vec![waiting_passenger(0, 1_000_000)]);
    try_knock_down(&mut s);
    assert!(matches!(s.passengers[0].state, PassengerState::Falling));
    assert_eq!(s.player.stats.reputation, 4);
    assert!(!s.board.gates[0].has_passenger);
    assert_eq!(s.board.gates[0].since_pickup, 0);
}

#[test]
fn waiting_past_max_wait_resigns_and_is_swept() {
    let mut p = waiting_passenger(0, 1_000_000);
    p.state = PassengerState::Waiting(12_000_000);
    let mut s = world(fresh_player(8_000_000, 1_000_000), vec![p]);
    handle_waiting(&mut s, 600_000);
    assert!(matches!(s.passengers[0].state, PassengerState::Resigned));
    assert_eq!(s.player.stats.reputation, 4);
    sweep_removed(&mut s);
    assert_eq!(s.passengers.len(), 0);
}

#[test]
fn waiting_below_max_wait_only_accumulates() {
    let mut s = world(fresh_player(8_000_000, 1_000_000), vec![waiting_passenger(0, 1_000_000)]);
    handle_waiting(&mut s, 600_000);
    assert!(matches!(s.passengers[0].state, PassengerState::Waiting(600_000)));
    assert_eq!(s.player.stats.reputation, 5);
}

#[test]
fn unload_without_carried_passenger_changes_nothing() {
    let mut player = fresh_player(4_500_000, 1_000_000);
    player.grounded = true;
    let mut s = world(player, vec![waiting_passenger(0, 1_000_000)]);
    let gates_before = (s.board.gates[0], s.board.gates[1]);
    let passenger_before = s.passengers[0];
    let sprite_before = s.player.sprite;
    let stats_before = s.player.stats;
    try_unload(&mut s);
    assert!(s.player.passenger.is_none());
    assert_eq!(s.passengers.len(), 1);
    assert_eq!(s.passengers[0], passenger_before);
    assert_eq!((s.board.gates[0], s.board.gates[1]), gates_before);
    assert_eq!(s.player.sprite, sprite_before);
    assert_eq!(s.player.stats, stats_before);
    assert_eq!(s.since_spawn, 0);
    assert_eq!(s.spawn_interval, BASE_SPAWN_INTERVAL);
}

#[test]
fn resting_at_the_target_gate_unloads_and_scores() {
    let mut player = fresh_player(4_500_000, 1_000_000);
    player.grounded = true;
    let mut carried = waiting_passenger(0, 1_000_000);
    carried.state = PassengerState::Loaded;
    player.passenger = Some(carried);
    let mut s = world(player, Vec::new());
    try_unload(&mut s);
    assert!(s.player.passenger.is_none());
    assert_eq!(s.passengers.len(), 1);
    assert!(matches!(
        s.passengers[0].state,
        PassengerState::Landed(g) if g == (Vec2 { x: 5_000_000, y: 1_000_000 })
    ));
    assert_eq!(s.passengers[0].sprite.position, Vec2 { x: 4_500_000, y: 1_000_000 });
    assert_eq!(s.player.stats.score, 1);
}

#[test]
fn moving_player_cannot_unload() {
    let mut player = fresh_player(4_500_000, 1_000_000);
    player.grounded = true;
    player.v = Vec2 { x: 50_000, y: 0 };
    let mut carried = waiting_passenger(0, 1_000_000);
    carried.state = PassengerState::Loaded;
    player.passenger = Some(carried);
    let mut s = world(player, Vec::new());
    try_unload(&mut s);
    assert!(s.player.passenger.is_some());
    assert_eq!(s.passengers.len(), 0);
    assert_eq!(s.player.stats.score, 0);
}

#[test]
fn falling_passenger_drops_at_fall_speed() {
    let mut p = waiting_passenger(0, 1_000_000);
    p.state = PassengerState::Falling;
    let player = fresh_player(8_000_000, 1_000_000);
    move_passenger(&mut p, &player, 100_000);
    assert_eq!(p.sprite.position.y, 500_000);
    assert!(matches!(p.animation_state, PassengerAnimationState::Falling));
}

#[test]
fn landed_passenger_walks_toward_its_gate_without_overshooting() {
    // Target centre is 2 units to the left of the passenger's centre.
    let mut p = waiting_passenger(2_000_000, 0);
    p.state = PassengerState::Landed(Vec2 { x: 0, y: 0 });
    let player = fresh_player(8_000_000, 1_000_000);
    move_passenger(&mut p, &player, 100_000);
    // Walk speed 2 units/s for 0.1 s: 0.2 units leftward.
    assert_eq!(p.sprite.position.x, 1_800_000);
    assert!(p.sprite.flip_x);
    assert!(matches!(p.animation_state, PassengerAnimationState::Walking));
    // A whole second would overshoot; the step clamps onto the centre.
    move_passenger(&mut p, &player, 1_000_000);
    assert_eq!(p.sprite.position.x, 0);
}

#[test]
fn waiting_passenger_approaches_a_free_grounded_player() {
    let mut player = fresh_player(2_000_000, 1_000_000);
    player.grounded = true;
    let mut p = waiting_passenger(0, 1_000_000);
    move_passenger(&mut p, &player, 100_000);
    assert_eq!(p.sprite.position.x, 200_000);
    assert!(!p.sprite.flip_x);
    assert!(matches!(p.animation_state, PassengerAnimationState::Walking));
}

#[test]
fn occupied_player_attracts_no_passenger() {
    let mut player = fresh_player(2_000_000, 1_000_000);
    player.grounded = true;
    let mut carried = waiting_passenger(0, 1_000_000);
    carried.state = PassengerState::Loaded;
    player.passenger = Some(carried);
    let mut p = waiting_passenger(0, 1_000_000);
    move_passenger(&mut p, &player, 100_000);
    assert_eq!(p.sprite.position.x, 0);
    assert!(matches!(p.animation_state, PassengerAnimationState::Idle));
}

#[test]
fn removal_predicate_matches_the_lifecycle() {
    let player_level = 1_000_000;
    let mut p = waiting_passenger(0, player_level);
    assert!(!should_remove(&p));
    p.state = PassengerState::Resigned;
    assert!(should_remove(&p));
    p.state = PassengerState::Falling;
    p.sprite.position.y = -2_000_000;
    assert!(!should_remove(&p));
    p.sprite.position.y = -2_000_001;
    assert!(should_remove(&p));
    // A landed passenger goes once its centre reaches its gate's centre.
    let mut q = waiting_passenger(0, 0);
    q.state = PassengerState::Landed(Vec2 { x: 0, y: 0 });
    q.sprite.position.x = 2_000_000;
    assert!(!should_remove(&q));
    q.sprite.position.x = 0;
    assert!(should_remove(&q));
}
