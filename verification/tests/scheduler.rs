use grrr::board::{Board, Gate};
use grrr::geometry::Vec2;
use grrr::globals::{BASE_SPAWN_INTERVAL, SCALE};
use grrr::passenger::{try_spawn, PassengerState};
use grrr::player::Player;
use grrr::sim::State;

fn gate(x: i64, busy: bool, since_pickup: i64) -> Gate {
    Gate { position: Vec2 { x, y: 1_000_000 }, has_passenger: busy, since_pickup }
}

fn world(gates: Vec<Gate>, since_spawn: i64) -> State {
    let mut player = Player::new(
        Vec2 { x: 8_000_000, y: 2_000_000 },
        Vec2 { x: 1_000_000, y: 1_000_000 },
    );
    player.stats.stamina = SCALE;
    player.stats.reputation = 5;
    State {
        board: Board { colliders: Vec::new(), gates },
        player,
        passengers: Vec::new(),
        creatures: Vec::new(),
        since_spawn,
        spawn_interval: BASE_SPAWN_INTERVAL,
    }
}

#[test]
fn due_tick_spawns_exactly_one_passenger_between_two_gates() {
    // Both gates free with long-expired pickup timers, spawn counter due:
    // exactly one passenger appears, between the two distinct gates, and
    // its source gate becomes occupied.
    let mut s = world(
        vec![gate(0, false, 9_000_000), gate(5_000_000, false, 9_000_000)],
        7_000_000,
    );
    try_spawn(&mut s);
    assert_eq!(s.passengers.len(), 1);
    let p = &s.passengers[0];
    assert!(p.source_gate < 2);
    assert!(p.target_gate < 2);
    assert_ne!(p.source_gate, p.target_gate);
    assert!(matches!(p.state, PassengerState::Waiting(0)));
    assert!(s.board.gates[p.source_gate as usize].has_passenger);
    assert_eq!(s.since_spawn, 0);
    // The passenger stands half a tile right of its gate.
    let gate_x = s.board.gates[p.source_gate as usize].position.x;
    assert_eq!(p.sprite.position.x, gate_x + 500_000);
}

#[test]
fn early_tick_only_advances_counters() {
    let mut s = world(
        vec![gate(0, false, 9_000_000), gate(5_000_000, false, 9_000_000)],
        1_000_000,
    );
    try_spawn(&mut s);
    assert_eq!(s.passengers.len(), 0);
    assert_eq!(s.since_spawn, 2_000_000);
    assert_eq!(s.board.gates[0].since_pickup, 10_000_000);
    assert_eq!(s.board.gates[1].since_pickup, 10_000_000);
}

#[test]
fn no_eligible_source_is_a_no_op_that_keeps_the_counter() {
    // Both gates occupied: no source candidate, and the spawn counter is
    // not reset, so the next tick retries at once.
    let mut s = world(
        vec![gate(0, true, 9_000_000), gate(5_000_000, true, 9_000_000)],
        8_000_000,
    );
    try_spawn(&mut s);
    assert_eq!(s.passengers.len(), 0);
    assert_eq!(s.since_spawn, 9_000_000);
}

#[test]
fn fresh_pickup_timers_bar_a_gate_from_sourcing() {
    // Free gates whose pickup timers are still below the interval cannot
    // source a passenger.
    let mut s = world(vec![gate(0, false, 2_000_000), gate(5_000_000, false, 2_000_000)], 8_000_000);
    try_spawn(&mut s);
    assert_eq!(s.passengers.len(), 0);
    assert_eq!(s.since_spawn, 9_000_000);
}

#[test]
fn single_gate_cannot_spawn() {
    let mut s = world(vec![gate(0, false, 9_000_000)], 8_000_000);
    try_spawn(&mut s);
    assert_eq!(s.passengers.len(), 0);
    assert_eq!(s.since_spawn, 9_000_000);
}

#[test]
fn sole_eligible_gate_is_the_source() {
    // With only gate 0 eligible, the random draw has one candidate each
    // time: source 0, target 1, deterministically.
    let mut s = world(
        vec![gate(0, false, 9_000_000), gate(5_000_000, true, 9_000_000)],
        7_000_000,
    );
    try_spawn(&mut s);
    assert_eq!(s.passengers.len(), 1);
    assert_eq!(s.passengers[0].source_gate, 0);
    assert_eq!(s.passengers[0].target_gate, 1);
}

#[test]
fn repeated_spawns_respect_occupancy() {
    // After a successful spawn every gate is either occupied or the
    // source of nobody; a second due tick with all gates occupied spawns
    // nothing more.
    let mut s = world(
        vec![gate(0, false, 9_000_000), gate(5_000_000, true, 9_000_000)],
        7_000_000,
    );
    try_spawn(&mut s);
    assert_eq!(s.passengers.len(), 1);
    s.since_spawn = 8_000_000;
    try_spawn(&mut s);
    assert_eq!(s.passengers.len(), 1);
}
