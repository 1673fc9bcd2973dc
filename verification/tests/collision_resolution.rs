use grrr::collision::{resolve_axis, Axis};
use grrr::geometry::{Aabb, Vec2};

fn bb(ax: i64, ay: i64, bx: i64, by: i64) -> Aabb {
    Aabb { a: Vec2 { x: ax, y: ay }, b: Vec2 { x: bx, y: by } }
}

#[test]
fn falling_box_lands_on_obstacle_top() {
    // A unit box falling from y = 5 by dy = -6 against the obstacle
    // [0,0]-[1,1] is blocked and ends exactly on top of it, at y = 1.
    let obstacle = bb(0, 0, 1_000_000, 1_000_000);
    let moving = bb(0, 5_000_000, 1_000_000, 6_000_000);
    let (y, blocked) = resolve_axis(moving, -6_000_000, Axis::Vertical, &vec![obstacle]);
    assert!(blocked);
    assert_eq!(y, 1_000_000);
}

#[test]
fn free_move_is_exact() {
    let moving = bb(0, 5_000_000, 1_000_000, 6_000_000);
    let (y, blocked) = resolve_axis(moving, -3_000_000, Axis::Vertical, &Vec::new());
    assert!(!blocked);
    assert_eq!(y, 2_000_000);
    let (x, blocked_x) = resolve_axis(moving, 123_456, Axis::Horizontal, &Vec::new());
    assert!(!blocked_x);
    assert_eq!(x, 123_456);
}

#[test]
fn nearest_face_wins_among_several_obstacles() {
    // Falling into two overlapping obstacles: the tighter bound (the
    // greater top face, y = 1.4) wins, never an arbitrary one.
    let low = bb(0, 0, 1_000_000, 1_000_000);
    let tall = bb(0, 0, 1_000_000, 1_400_000);
    let moving = bb(0, 5_000_000, 1_000_000, 6_000_000);
    let (y, blocked) = resolve_axis(moving, -4_500_000, Axis::Vertical, &vec![low, tall]);
    assert!(blocked);
    assert_eq!(y, 1_400_000);
    // The same set in the other order gives the same answer.
    let (y2, blocked2) = resolve_axis(moving, -4_500_000, Axis::Vertical, &vec![tall, low]);
    assert!(blocked2);
    assert_eq!(y2, 1_400_000);
}

#[test]
fn positive_move_snaps_trailing_edge() {
    // Moving right into a wall at x = 3: the box's right edge stops at the
    // wall's near face, so its left edge is at 2.
    let wall = bb(3_000_000, 0, 4_000_000, 1_000_000);
    let moving = bb(0, 0, 1_000_000, 1_000_000);
    let (x, blocked) = resolve_axis(moving, 3_000_000, Axis::Horizontal, &vec![wall]);
    assert!(blocked);
    assert_eq!(x, 2_000_000);
}

#[test]
fn zero_displacement_is_never_blocked() {
    // A box resting on (touching) an obstacle does not count as blocked
    // when it is not moving at all.
    let floor = bb(0, 0, 1_000_000, 1_000_000);
    let moving = bb(0, 1_000_000, 1_000_000, 2_000_000);
    let (y, blocked) = resolve_axis(moving, 0, Axis::Vertical, &vec![floor]);
    assert!(!blocked);
    assert_eq!(y, 1_000_000);
}

#[test]
fn intersection_is_closed_interval() {
    let a = bb(0, 0, 1_000_000, 1_000_000);
    let touching = bb(1_000_000, 0, 2_000_000, 1_000_000);
    let apart = bb(1_000_001, 0, 2_000_000, 1_000_000);
    assert!(a.intersects(&touching));
    assert!(!a.intersects(&apart));
}
