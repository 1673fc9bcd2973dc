use grrr::board::{generate_board, LevelError};
use grrr::creatures::CreatureKind;
use grrr::geometry::Vec2;
use grrr::utils::{almost_eq, to_roman};

fn level_with(rows: &[&str]) -> String {
    rows.join("\n")
}

#[test]
fn level_entities_land_on_their_cells() {
    // Ten rows; the two gates, one rock, a bird and a mammoth sit at known
    // cells.  Row 9 (the last text row) is board height 0.
    let rows = [
        "  B             ",
        "                ",
        "              m ",
        "                ",
        "                ",
        "                ",
        "                ",
        "                ",
        "G  G            ",
        "#               ",
    ];
    let (board, creatures) = generate_board(&level_with(&rows)).expect("level should load");
    assert_eq!(board.colliders.len(), 1);
    assert_eq!(board.colliders[0].a, Vec2 { x: 0, y: 0 });
    assert_eq!(board.colliders[0].b, Vec2 { x: 1_000_000, y: 1_000_000 });
    // Gates are numbered in reading order.
    assert_eq!(board.gates.len(), 2);
    assert_eq!(board.gates[0].position, Vec2 { x: 0, y: 1_000_000 });
    assert_eq!(board.gates[1].position, Vec2 { x: 3_000_000, y: 1_000_000 });
    assert!(!board.gates[0].has_passenger);
    assert_eq!(board.gates[0].since_pickup, 0);
    // Birds come before mammoths whatever the text order.
    assert_eq!(creatures.len(), 2);
    assert!(matches!(creatures[0].kind, CreatureKind::Bird));
    assert_eq!(creatures[0].sprite.position, Vec2 { x: 2_000_000, y: 9_000_000 });
    assert_eq!(creatures[0].dir, Vec2 { x: 1, y: 0 });
    assert!(!creatures[0].sprite.flip_x);
    assert!(matches!(creatures[1].kind, CreatureKind::Mammoth));
    assert_eq!(creatures[1].sprite.position, Vec2 { x: 14_000_000, y: 7_000_000 });
    assert_eq!(creatures[1].dir, Vec2 { x: -1, y: 0 });
    assert!(creatures[1].sprite.flip_x);
    // A flipped mammoth's blow collider hangs to its left and above.
    assert_eq!(creatures[1].sprite.collider_offset, Vec2 { x: -1_000_000, y: 1_000_000 });
}

#[test]
fn long_rows_are_truncated_to_the_board_width() {
    let rows = [
        "                ",
        "                ",
        "                ",
        "                ",
        "                ",
        "                ",
        "                ",
        "                ",
        "                ",
        "####################",
    ];
    let (board, _) = generate_board(&level_with(&rows)).expect("level should load");
    assert_eq!(board.colliders.len(), 16);
}

#[test]
fn wrong_row_count_is_a_fatal_load_error() {
    let rows = ["   ", "   ", "   "];
    let r = generate_board(&level_with(&rows));
    assert!(matches!(r, Err(LevelError::RowCountMismatch)));
    let eleven = ["", "", "", "", "", "", "", "", "", "", ""];
    assert!(matches!(generate_board(&level_with(&eleven)), Err(LevelError::RowCountMismatch)));
}

#[test]
fn roman_numerals_label_the_gates() {
    assert_eq!(to_roman(1), "I");
    assert_eq!(to_roman(4), "IV");
    assert_eq!(to_roman(8), "VIII");
    assert_eq!(to_roman(10), "X");
    assert_eq!(to_roman(0), "");
    assert_eq!(to_roman(11), "");
}

#[test]
fn almost_eq_is_a_closed_tolerance_band() {
    assert!(almost_eq(10_000, 0));
    assert!(almost_eq(-10_000, 0));
    assert!(!almost_eq(10_001, 0));
    assert!(almost_eq(5_000, -5_000));
}
