use grrr::board::{Board, Gate};
use grrr::creatures::{check_interactions, update_creature, Creature, CreatureKind};
use grrr::geometry::{Aabb, Vec2};
use grrr::globals::{
    BASE_SPAWN_INTERVAL, BIRD_MARGIN, HIT_IMMUNITY, MAMMOTH_BLOW_SPEED, SCALE,
};
use grrr::player::Player;
use grrr::sim::{game_loop, reinit, Intents, State};

fn fresh_player(x: i64, y: i64) -> Player {
    let mut p = Player::new(Vec2 { x, y }, Vec2 { x: 1_000_000, y: 1_000_000 });
    p.stats.stamina = SCALE;
    p.stats.stamina_use = 100_000;
    p.stats.stamina_recovery = 40_000;
    p.stats.reputation = 5;
    p
}

fn world(player: Player, creatures: Vec<Creature>) -> State {
    State {
        board: Board { colliders: Vec::new(), gates: Vec::new() },
        player,
        passengers: Vec::new(),
        creatures,
        since_spawn: 0,
        spawn_interval: BASE_SPAWN_INTERVAL,
    }
}

fn bird(x: i64, y: i64, flip: bool) -> Creature {
    Creature::new(
        CreatureKind::Bird,
        Vec2 { x, y },
        flip,
        Vec2 { x: 1_000_000, y: 500_000 },
        Vec2 { x: 0, y: 250_000 },
    )
}

fn mammoth(x: i64, y: i64, flip: bool) -> Creature {
    Creature::new(
        CreatureKind::Mammoth,
        Vec2 { x, y },
        flip,
        Vec2 { x: 1_000_000, y: 1_000_000 },
        if flip {
            Vec2 { x: -1_000_000, y: 1_000_000 }
        } else {
            Vec2 { x: 1_000_000, y: 1_000_000 }
        },
    )
}

#[test]
fn bird_flies_and_wraps_around_the_margin() {
    let mut b = bird(19_000_000, 3_000_000, false);
    update_creature(&mut b, 1_000_000);
    // 19 + 5 = 24 is past the far margin (16 + 4): wrap to the near one.
    assert_eq!(b.sprite.position.x, -BIRD_MARGIN);
    let mut l = bird(-3_800_000, 3_000_000, true);
    update_creature(&mut l, 1_000_000);
    assert_eq!(l.sprite.position.x, 16_000_000 + BIRD_MARGIN);
    let mut m = bird(2_000_000, 3_000_000, false);
    update_creature(&mut m, 100_000);
    assert_eq!(m.sprite.position.x, 2_500_000);
}

#[test]
fn mammoth_stands_still() {
    let mut m = mammoth(4_000_000, 0, false);
    update_creature(&mut m, 1_000_000);
    assert_eq!(m.sprite.position, Vec2 { x: 4_000_000, y: 0 });
}

#[test]
fn bird_hit_shoves_and_costs_reputation_once() {
    let mut s = world(fresh_player(0, 1_000_000), vec![bird(0, 1_000_000, false)]);
    let hit = check_interactions(&mut s);
    assert!(hit);
    assert_eq!(s.player.v.x, 10_000_000);
    assert_eq!(s.player.stats.reputation, 4);
    assert_eq!(s.player.immunity, HIT_IMMUNITY);
    // While immune, the same overlap has no further effect.
    let hit2 = check_interactions(&mut s);
    assert!(!hit2);
    assert_eq!(s.player.v.x, 10_000_000);
    assert_eq!(s.player.stats.reputation, 4);
}

#[test]
fn mammoth_blow_shoves_without_reputation_loss() {
    // The blow collider of a rightward mammoth at (2,1) spans
    // [3,4]x[2,3]; the player box [3,4]x[2,3] overlaps it.
    let mut s = world(fresh_player(3_000_000, 2_000_000), vec![mammoth(2_000_000, 1_000_000, false)]);
    let hit = check_interactions(&mut s);
    assert!(!hit);
    assert_eq!(s.player.v, Vec2 { x: MAMMOTH_BLOW_SPEED, y: MAMMOTH_BLOW_SPEED });
    assert_eq!(s.player.stats.reputation, 5);
    assert_eq!(s.player.immunity, 0);
}

#[test]
fn zero_reputation_surfaces_game_over_untouched() {
    let mut p = fresh_player(0, 5_000_000);
    p.stats.reputation = 0;
    let mut s = world(p, Vec::new());
    let intents = Intents { lift: false, left: false, right: false };
    let ev = game_loop(&mut s, intents, 16_000, false);
    assert!(ev.game_over);
    assert!(!ev.hit_sound);
    assert_eq!(s.player.sprite.position, Vec2 { x: 0, y: 5_000_000 });
    assert_eq!(s.player.stats.reputation, 0);
}

#[test]
fn a_quiet_tick_lets_gravity_build_up() {
    let mut s = world(fresh_player(0, 5_000_000), Vec::new());
    let intents = Intents { lift: false, left: false, right: false };
    let ev1 = game_loop(&mut s, intents, 16_000, false);
    assert!(!ev1.game_over);
    assert!(!ev1.hit_sound);
    let ev2 = game_loop(&mut s, intents, 16_000, false);
    assert!(!ev2.game_over);
    // After the first tick armed gravity, the second tick falls.
    assert_eq!(s.player.v.y, -80_000);
    assert_eq!(s.player.sprite.position.y, 5_000_000 - 1_280);
}

#[test]
fn reinit_builds_a_fresh_full_stamina_world() {
    let mut s = world(fresh_player(0, 0), Vec::new());
    s.player.stats.reputation = 1;
    s.since_spawn = 7_000_000;
    reinit(&mut s);
    assert_eq!(s.player.sprite.position, Vec2 { x: 8_000_000, y: 2_000_000 });
    assert_eq!(s.player.stats.stamina, SCALE);
    assert_eq!(s.player.stats.reputation, 5);
    assert_eq!(s.player.stats.score, 0);
    assert!(s.player.passenger.is_none());
    assert_eq!(s.passengers.len(), 0);
    assert_eq!(s.since_spawn, 0);
    assert_eq!(s.spawn_interval, BASE_SPAWN_INTERVAL);
}

#[test]
fn spawning_flows_through_a_full_tick() {
    let mut s = world(fresh_player(0, 5_000_000), Vec::new());
    s.board.gates = vec![
        Gate { position: Vec2 { x: 0, y: 1_000_000 }, has_passenger: false, since_pickup: 9_000_000 },
        Gate {
            position: Vec2 { x: 5_000_000, y: 1_000_000 },
            has_passenger: false,
            since_pickup: 9_000_000,
        },
    ];
    let intents = Intents { lift: true, left: false, right: false };
    // The spawn scheduler runs on its own one-second tick; after eight
    // fired ticks the counter reaches the base interval and one passenger
    // spawns.
    for _ in 0..7 {
        game_loop(&mut s, intents, 16_000, true);
        assert_eq!(s.passengers.len(), 0);
    }
    game_loop(&mut s, intents, 16_000, true);
    assert_eq!(s.passengers.len(), 1);
    assert_ne!(s.passengers[0].source_gate, s.passengers[0].target_gate);
    // Stamina stayed within the unit interval throughout.
    assert!(0 <= s.player.stats.stamina && s.player.stats.stamina <= SCALE);
}
