use grrr::board::Board;
use grrr::geometry::{Aabb, Vec2};
use grrr::globals::{
    BASE_SPAWN_INTERVAL, HIT_IMMUNITY, LIFT_ACC, MIN_SPAWN_INTERVAL, SCALE,
};
use grrr::player::{handle_lift, try_hit, update_player, Player, Stats};
use grrr::sim::{update_difficulty, State};

fn fresh_player(x: i64, y: i64) -> Player {
    let mut p = Player::new(
        Vec2 { x, y },
        Vec2 { x: 1_000_000, y: 1_000_000 },
    );
    p.stats.stamina = SCALE;
    p.stats.stamina_use = 100_000;
    p.stats.stamina_recovery = 40_000;
    p.stats.reputation = 5;
    p
}

fn world(player: Player, colliders: Vec<Aabb>) -> State {
    State {
        board: Board { colliders, gates: Vec::new() },
        player,
        passengers: Vec::new(),
        creatures: Vec::new(),
        since_spawn: 0,
        spawn_interval: BASE_SPAWN_INTERVAL,
    }
}

#[test]
fn lift_drains_stamina_and_arms_lift_acceleration() {
    let mut p = fresh_player(0, 2_000_000);
    handle_lift(&mut p, 1_000_000, true);
    assert_eq!(p.stats.stamina, 900_000);
    assert_eq!(p.a.y, LIFT_ACC);
}

#[test]
fn stamina_stays_within_unit_interval() {
    // Recovery clamps at full.
    let mut p = fresh_player(0, 2_000_000);
    p.stats.stamina = 990_000;
    handle_lift(&mut p, 1_000_000, false);
    assert_eq!(p.stats.stamina, SCALE);
    // Draining clamps at zero.
    p.stats.stamina = 50_000;
    handle_lift(&mut p, 1_000_000, true);
    assert_eq!(p.stats.stamina, 0);
    // An exhausted player gets neither lift nor recovery while holding.
    let a_before = p.a;
    handle_lift(&mut p, 1_000_000, true);
    assert_eq!(p.stats.stamina, 0);
    assert_eq!(p.a, a_before);
}

#[test]
fn reputation_never_underflows() {
    let mut stats = Stats {
        stamina: 0,
        stamina_use: 0,
        stamina_recovery: 0,
        score: 0,
        reputation: 1,
    };
    stats.take_reputation();
    assert_eq!(stats.reputation, 0);
    stats.take_reputation();
    assert_eq!(stats.reputation, 0);
}

#[test]
fn try_hit_is_gated_by_immunity() {
    let mut p = fresh_player(0, 2_000_000);
    assert!(try_hit(&mut p));
    assert_eq!(p.immunity, HIT_IMMUNITY);
    assert_eq!(p.stats.reputation, 4);
    // A second hit inside the immunity window does nothing.
    assert!(!try_hit(&mut p));
    assert_eq!(p.stats.reputation, 4);
}

#[test]
fn hard_landing_grounds_zeroes_speed_and_costs_reputation() {
    // Falling at 6 units/s onto the tile [0,0]-[1,1]: above the damage
    // threshold, so the landing registers a hit.
    let mut p = fresh_player(0, 5_000_000);
    p.v = Vec2 { x: 0, y: -6_000_000 };
    let mut s = world(p, vec![Aabb {
        a: Vec2 { x: 0, y: 0 },
        b: Vec2 { x: 1_000_000, y: 1_000_000 },
    }]);
    let hit = update_player(&mut s, 1_000_000);
    assert!(hit);
    assert!(s.player.grounded);
    assert_eq!(s.player.sprite.position.y, 1_000_000);
    assert_eq!(s.player.v.y, 0);
    assert_eq!(s.player.stats.reputation, 4);
    assert_eq!(s.player.immunity, HIT_IMMUNITY);
}

#[test]
fn soft_landing_grounds_without_damage() {
    let mut p = fresh_player(0, 1_200_000);
    p.v = Vec2 { x: 0, y: -1_000_000 };
    let mut s = world(p, vec![Aabb {
        a: Vec2 { x: 0, y: 0 },
        b: Vec2 { x: 1_000_000, y: 1_000_000 },
    }]);
    let hit = update_player(&mut s, 1_000_000);
    assert!(!hit);
    assert!(s.player.grounded);
    assert_eq!(s.player.sprite.position.y, 1_000_000);
    assert_eq!(s.player.stats.reputation, 5);
}

#[test]
fn gravity_is_rearmed_every_tick() {
    // In free space the first tick only arms gravity; the second moves.
    let mut s = world(fresh_player(0, 5_000_000), Vec::new());
    update_player(&mut s, 16_000);
    assert_eq!(s.player.sprite.position.y, 5_000_000);
    assert_eq!(s.player.a.y, -grrr::globals::GRAVITY_ACC);
    update_player(&mut s, 16_000);
    // v.y = -5 * 0.016 = -0.08 units/s; dy = -0.08 * 0.016 = -0.00128.
    assert_eq!(s.player.v.y, -80_000);
    assert_eq!(s.player.sprite.position.y, 5_000_000 - 1_280);
}

#[test]
fn blink_toggles_by_immunity_tenths() {
    let mut p = fresh_player(0, 0);
    p.immunity = 150_000;
    assert!(p.blink());
    p.immunity = 250_000;
    assert!(!p.blink());
    p.immunity = 0;
    assert!(!p.blink());
}

#[test]
fn difficulty_shrinks_stepwise_with_a_floor() {
    let mut s = world(fresh_player(0, 0), Vec::new());
    s.player.stats.score = 25;
    update_difficulty(&mut s);
    assert_eq!(s.spawn_interval, BASE_SPAWN_INTERVAL - 2 * SCALE);
    s.player.stats.score = 100;
    update_difficulty(&mut s);
    assert_eq!(s.spawn_interval, MIN_SPAWN_INTERVAL);
}
