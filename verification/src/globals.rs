//! Tuning constants of the simulation.
//!
//! One world unit (a board tile) is `SCALE` micro-units; one second of
//! simulated time is `SCALE` micro-seconds.  Every constant below that
//! measures a length, a speed (units per second), an acceleration
//! (units per second squared) or a duration is given in micro-units.

use vstd::prelude::*;

verus! {

/// Micro-units per world unit (and micro-seconds per second).
pub const SCALE: i64 = 1_000_000;

/// Side length of a board tile.
pub const TILE_SIZE: i64 = 1_000_000;

/// Board dimensions in tiles; level data must have exactly `BOARD_HEIGHT` rows.
pub const BOARD_WIDTH: usize = 16;
pub const BOARD_HEIGHT: usize = 10;

/// Collider size of a passenger.
pub const PASSENGER_WIDTH: i64 = 500_000;
pub const PASSENGER_HEIGHT: i64 = 750_000;

/// Reputation a fresh player starts with.
pub const BASE_REPUTATION: u32 = 5;
/// Stamina drained per second of lifting (stamina is in [0, SCALE]).
pub const BASE_STAMINA_USE: i64 = 100_000;
/// Stamina recovered per second when not lifting.
pub const BASE_STAMINA_RECOVERY: i64 = 40_000;

/// Seconds between spawn attempts when the game starts.
pub const BASE_SPAWN_INTERVAL: i64 = 8_000_000;
/// The spawn interval shrinks by one second per this many score points.
pub const SPAWN_DROP_EVERY: u32 = 10;
/// The spawn interval never shrinks below one second.
pub const MIN_SPAWN_INTERVAL: i64 = 1_000_000;

/// Slack used by near-zero and same-level comparisons.
pub const TOLERANCE: i64 = 10_000;
/// A waiting passenger approaches a player within this distance.
pub const PASSENGER_LOAD_DIST: i64 = 3_000_000;
/// Horizontal walk speed of a passenger.
pub const PASSENGER_WALK_SPEED: i64 = 2_000_000;
/// Fall speed of a knocked-down passenger.
pub const PASSENGER_FALL_SPEED: i64 = 5_000_000;
/// Player speed above which an overlapped passenger is knocked down.
pub const PASSENGER_KNOCK_DOWN_SPEED: i64 = 2_500_000;
/// Seconds a passenger waits before resigning.
pub const PASSENGER_MAX_WAIT: i64 = 12_500_000;
/// A falling passenger is removed below this height.
pub const PASSENGER_REMOVE_DEPTH: i64 = -2_000_000;

/// Horizontal flight acceleration while a direction is held.
pub const FLY_ACC: i64 = 6_000_000;
/// Horizontal speed is clamped to this magnitude.
pub const FLY_MAX_SPEED: i64 = 4_000_000;
/// Horizontal drag deceleration when no direction is held.
pub const HOR_DRAG: i64 = 4_000_000;
/// Upward lift acceleration while lifting with stamina left.
pub const LIFT_ACC: i64 = 3_000_000;
/// Upward speed is clamped to this magnitude.
pub const LIFT_MAX_SPEED: i64 = 4_000_000;
/// Constant downward acceleration, reset every tick.
pub const GRAVITY_ACC: i64 = 5_000_000;
/// Vertical speed above which a blocked landing costs reputation.
pub const DAMAGE_SPEED: i64 = 5_000_000;

/// Horizontal speed of a bird.
pub const BIRD_SPEED: i64 = 5_000_000;
/// Tiles beyond the board edge at which a bird wraps around.
pub const BIRD_MARGIN: i64 = 4_000_000;
/// Seconds of hit immunity granted when a hit lands.
pub const HIT_IMMUNITY: i64 = 2_000_000;
/// Speed of the velocity impulse a mammoth's blow adds.
pub const MAMMOTH_BLOW_SPEED: i64 = 2_000_000;
/// Vertical collider offset of a mammoth's blow area, in tiles.
pub const MAMMOTH_BLOW_V_OFFSET: i64 = 1_000_000;

/// Seconds between two spawn-scheduler ticks.
pub const SPAWN_TICK: i64 = 1_000_000;

/// All coordinates, velocities and accelerations the simulation handles stay
/// within this magnitude (1000 world units); integration saturates here, far
/// outside the 16 x 10 board, so that squared distances stay within `i64`.
pub const COORD_LIMIT: i64 = 1_000_000_000;

/// Per-tick time steps are bounded by one second.
pub const MAX_DELTA: i64 = 1_000_000;

/// Static level geometry (obstacles, gates) lies within this magnitude
/// (100 world units), so a position snapped to an obstacle face is always
/// comfortably in range.
pub const WORLD_RANGE: i64 = 100_000_000;

/// Elapsed-time counters saturate here (about thirty years of play).
pub const TIME_CAP: i64 = 1_000_000_000_000_000;

} // verus!
