//! The static board: obstacle colliders and the table of gates.

use vstd::prelude::*;
use vstd::string::StringSliceAdditionalSpecFns;

use crate::creatures::{Creature, CreatureKind};
use crate::geometry::{aabb_wf, Aabb, Vec2};
use crate::globals::{
    BOARD_HEIGHT, BOARD_WIDTH, MAMMOTH_BLOW_V_OFFSET, TILE_SIZE, TIME_CAP, WORLD_RANGE,
};

verus! {

/// A pickup/drop-off point.  Its index in the board's gate table is its
/// stable label; `has_passenger` bars it from being chosen as a spawn
/// source; `since_pickup` counts micro-seconds since it was last cleared.
#[derive(Clone, Copy, Debug, PartialEq, Eq, Structural)]
pub struct Gate {
    pub position: Vec2,
    pub has_passenger: bool,
    pub since_pickup: i64,
}

pub open spec fn gate_wf(g: Gate) -> bool {
    &&& -WORLD_RANGE <= g.position.x <= WORLD_RANGE
    &&& -WORLD_RANGE <= g.position.y <= WORLD_RANGE
    &&& 0 <= g.since_pickup <= TIME_CAP
}

impl Gate {
    /// Marks this gate free again and restarts its pickup timer.
    pub fn clear_passenger(&mut self)
        ensures
            *final(self) == (Gate {
                position: old(self).position,
                has_passenger: false,
                since_pickup: 0,
            }),
    {
        self.since_pickup = 0;
        self.has_passenger = false;
    }
}

/// An obstacle box lies within the static level range.
pub open spec fn obstacle_wf(bb: Aabb) -> bool {
    &&& aabb_wf(bb)
    &&& -WORLD_RANGE <= bb.a.x
    &&& -WORLD_RANGE <= bb.a.y
    &&& bb.b.x <= WORLD_RANGE
    &&& bb.b.y <= WORLD_RANGE
}

/// Immutable-after-generation level geometry plus the mutable gate table.
pub struct Board {
    pub colliders: Vec<Aabb>,
    pub gates: Vec<Gate>,
}

pub open spec fn board_wf(b: Board) -> bool {
    &&& forall|i: int| 0 <= i < b.colliders@.len() ==> obstacle_wf(#[trigger] b.colliders@[i])
    &&& forall|i: int| 0 <= i < b.gates@.len() ==> gate_wf(#[trigger] b.gates@[i])
    &&& b.gates@.len() <= u32::MAX
}

/// The one fatal configuration error: level data must have exactly
/// `BOARD_HEIGHT` rows.
#[derive(Clone, Copy, Debug, PartialEq, Eq, Structural)]
pub enum LevelError {
    RowCountMismatch,
}

/// The level text split into lines at each newline byte (a trailing
/// newline yields a final empty line, as `str::split` does).
pub open spec fn spec_split_lines(bytes: Seq<u8>) -> Seq<Seq<u8>>
    decreases bytes.len(),
{
    if bytes.len() == 0 {
        seq![Seq::<u8>::empty()]
    } else {
        let prev = spec_split_lines(bytes.drop_last());
        if bytes.last() == 10 {
            prev.push(Seq::<u8>::empty())
        } else {
            prev.update(prev.len() - 1, prev.last().push(bytes.last()))
        }
    }
}

/// The byte of the cell in the given column of the given row (zero past
/// the end of a row or of the board's width: no entity there).
#[verifier::opaque]
pub open spec fn spec_cell(lines: Seq<Seq<u8>>, idx: int) -> u8 {
    let col = idx % (BOARD_WIDTH as int);
    let row = idx / (BOARD_WIDTH as int);
    if 0 <= row < lines.len() && col < lines[row].len() {
        lines[row][col]
    } else {
        0
    }
}

/// World position of the cell: columns grow rightward, rows downward from
/// the top of the text, so the first text row is the highest board row.
#[verifier::opaque]
pub open spec fn spec_cell_pos(idx: int) -> Vec2 {
    Vec2 {
        x: ((idx % (BOARD_WIDTH as int)) * TILE_SIZE) as i64,
        y: ((BOARD_HEIGHT - (idx / (BOARD_WIDTH as int)) - 1) * TILE_SIZE) as i64,
    }
}

/// How many of the first `idx` cells hold a byte the predicate accepts.
pub open spec fn spec_count_cells(lines: Seq<Seq<u8>>, idx: int, pred: spec_fn(u8) -> bool) -> nat
    decreases idx,
{
    if idx <= 0 {
        0nat
    } else {
        spec_count_cells(lines, idx - 1, pred) + (if pred(spec_cell(lines, idx - 1)) {
            1nat
        } else {
            0nat
        })
    }
}

pub open spec fn is_rock(b: u8) -> bool {
    b == 35
}

pub open spec fn is_gate(b: u8) -> bool {
    b == 71
}

pub open spec fn is_bird(b: u8) -> bool {
    b == 66 || b == 98
}

pub open spec fn is_mammoth(b: u8) -> bool {
    b == 77 || b == 109
}


/// The cell predicates as single function values, shared by every count.
pub open spec fn rock_pred() -> spec_fn(u8) -> bool {
    |b: u8| is_rock(b)
}

pub open spec fn gate_pred() -> spec_fn(u8) -> bool {
    |b: u8| is_gate(b)
}

pub open spec fn bird_pred() -> spec_fn(u8) -> bool {
    |b: u8| is_bird(b)
}

pub open spec fn mammoth_pred() -> spec_fn(u8) -> bool {
    |b: u8| is_mammoth(b)
}

/// The unit collider box of an obstacle cell.
pub open spec fn spec_rock_box(idx: int) -> Aabb {
    let pos = spec_cell_pos(idx);
    Aabb {
        a: pos,
        b: Vec2 { x: (pos.x + TILE_SIZE) as i64, y: (pos.y + TILE_SIZE) as i64 },
    }
}

/// The bird spawned at a cell: a flat collider riding a quarter-tile high,
/// facing left when the letter is lower case.
pub open spec fn spec_bird_at(idx: int, flip: bool) -> Creature {
    Creature {
        sprite: crate::sprite::DynamicSprite {
            position: spec_cell_pos(idx),
            collider_size: Vec2 { x: TILE_SIZE, y: (TILE_SIZE / 2) as i64 },
            collider_offset: Vec2 { x: 0, y: (TILE_SIZE / 4) as i64 },
            flip_x: flip,
        },
        kind: CreatureKind::Bird,
        dir: if flip {
            (Vec2 { x: -1i64, y: 0 })
        } else {
            (Vec2 { x: 1, y: 0 })
        },
    }
}

/// The mammoth spawned at a cell: its blow collider sits a tile above and
/// a tile to the side it faces.
pub open spec fn spec_mammoth_at(idx: int, flip: bool) -> Creature {
    Creature {
        sprite: crate::sprite::DynamicSprite {
            position: spec_cell_pos(idx),
            collider_size: Vec2 { x: TILE_SIZE, y: TILE_SIZE },
            collider_offset: if flip {
                (Vec2 { x: (-TILE_SIZE) as i64, y: MAMMOTH_BLOW_V_OFFSET })
            } else {
                (Vec2 { x: TILE_SIZE, y: MAMMOTH_BLOW_V_OFFSET })
            },
            flip_x: flip,
        },
        kind: CreatureKind::Mammoth,
        dir: if flip {
            (Vec2 { x: -1i64, y: 0 })
        } else {
            (Vec2 { x: 1, y: 0 })
        },
    }
}

/// Number of cells the scan covers.
pub open spec fn spec_board_cells() -> int {
    BOARD_WIDTH * BOARD_HEIGHT
}

/// Splits the level text into its lines.
fn split_lines(data: &str) -> (lines: Vec<Vec<u8>>)
    ensures
        lines@.map_values(|l: Vec<u8>| l@) == spec_split_lines(data.spec_bytes()),
{
    let bytes = data.as_bytes();
    let n = bytes.len();
    let mut lines: Vec<Vec<u8>> = Vec::new();
    let mut cur: Vec<u8> = Vec::new();
    let mut i: usize = 0;
    proof {
        assert(lines@.map_values(|l: Vec<u8>| l@).push(cur@) =~= spec_split_lines(
            data.spec_bytes().take(0),
        ));
    }
    while i < n
        invariant
            n == bytes@.len(),
            bytes@ == data.spec_bytes(),
            0 <= i <= n,
            lines@.map_values(|l: Vec<u8>| l@).push(cur@) == spec_split_lines(
                data.spec_bytes().take(i as int),
            ),
        decreases n - i,
    {
        let ghost taken1 = data.spec_bytes().take(i + 1);
        proof {
            assert(taken1.drop_last() =~= data.spec_bytes().take(i as int));
            assert(taken1.last() == data.spec_bytes()[i as int]);
        }
        let b = bytes[i];
        if b == 10 {
            lines.push(cur);
            cur = Vec::new();
            proof {
                assert(lines@.map_values(|l: Vec<u8>| l@).push(cur@) =~= spec_split_lines(taken1));
            }
        } else {
            cur.push(b);
            proof {
                let prev = spec_split_lines(data.spec_bytes().take(i as int));
                assert(lines@.map_values(|l: Vec<u8>| l@).push(cur@) =~= prev.update(
                    prev.len() - 1,
                    prev.last().push(b),
                ));
            }
        }
        i += 1;
    }
    proof {
        assert(data.spec_bytes().take(n as int) =~= data.spec_bytes());
    }
    lines.push(cur);
    lines
}/// Scan facts for the obstacle list: after `idx` cells it holds exactly
/// the rock cells seen so far, boxed, in reading order, all well-formed.
#[verifier::opaque]
pub open spec fn rock_scan(lseq: Seq<Seq<u8>>, idx: int, cs: Seq<Aabb>) -> bool {
    &&& cs.len() == spec_count_cells(lseq, idx, rock_pred())
    &&& cs.len() <= idx
    &&& forall|j: int|
        0 <= j < idx && is_rock(#[trigger] spec_cell(lseq, j)) ==> cs[spec_count_cells(
            lseq,
            j,
            rock_pred(),
        ) as int] == spec_rock_box(j)
    &&& forall|i: int| 0 <= i < cs.len() ==> obstacle_wf(#[trigger] cs[i])
}

/// Scan facts for the table of gates, as for the obstacle list.
#[verifier::opaque]
pub open spec fn gate_scan(lseq: Seq<Seq<u8>>, idx: int, gs: Seq<Gate>) -> bool {
    &&& gs.len() == spec_count_cells(lseq, idx, gate_pred())
    &&& gs.len() <= idx
    &&& forall|j: int|
        0 <= j < idx && is_gate(#[trigger] spec_cell(lseq, j)) ==> gs[spec_count_cells(
            lseq,
            j,
            gate_pred(),
        ) as int] == (Gate { position: spec_cell_pos(j), has_passenger: false, since_pickup: 0 })
    &&& forall|i: int| 0 <= i < gs.len() ==> gate_wf(#[trigger] gs[i])
}

/// Scan facts for the bird list, as for the obstacle list.
#[verifier::opaque]
pub open spec fn bird_scan(lseq: Seq<Seq<u8>>, idx: int, bs: Seq<Creature>) -> bool {
    &&& bs.len() == spec_count_cells(lseq, idx, bird_pred())
    &&& bs.len() <= idx
    &&& forall|j: int|
        0 <= j < idx && is_bird(#[trigger] spec_cell(lseq, j)) ==> bs[spec_count_cells(
            lseq,
            j,
            bird_pred(),
        ) as int] == spec_bird_at(j, spec_cell(lseq, j) == 98)
    &&& forall|i: int| 0 <= i < bs.len() ==> crate::creatures::creature_wf(#[trigger] bs[i])
}

/// Scan facts for the mammoth list, as for the obstacle list.
#[verifier::opaque]
pub open spec fn mammoth_scan(lseq: Seq<Seq<u8>>, idx: int, ms: Seq<Creature>) -> bool {
    &&& ms.len() == spec_count_cells(lseq, idx, mammoth_pred())
    &&& ms.len() <= idx
    &&& forall|j: int|
        0 <= j < idx && is_mammoth(#[trigger] spec_cell(lseq, j)) ==> ms[spec_count_cells(
            lseq,
            j,
            mammoth_pred(),
        ) as int] == spec_mammoth_at(j, spec_cell(lseq, j) == 109)
    &&& forall|i: int| 0 <= i < ms.len() ==> crate::creatures::creature_wf(#[trigger] ms[i])
}

proof fn lemma_scan_init(lseq: Seq<Seq<u8>>)
    ensures
        rock_scan(lseq, 0, Seq::<Aabb>::empty()),
        gate_scan(lseq, 0, Seq::<Gate>::empty()),
        bird_scan(lseq, 0, Seq::<Creature>::empty()),
        mammoth_scan(lseq, 0, Seq::<Creature>::empty()),
{
    reveal(rock_scan);
    reveal(gate_scan);
    reveal(bird_scan);
    reveal(mammoth_scan);
}

/// The world position of every scanned cell lies inside the board.
proof fn lemma_cell_pos_bounds(idx: int)
    requires
        0 <= idx < spec_board_cells(),
    ensures
        0 <= spec_cell_pos(idx).x <= 15 * TILE_SIZE,
        0 <= spec_cell_pos(idx).y <= 9 * TILE_SIZE,
{
    reveal(spec_cell_pos);
    assert(0 <= idx % (BOARD_WIDTH as int) < BOARD_WIDTH as int) by (nonlinear_arith)
        requires
            idx >= 0,
    ;
    assert(0 <= idx / (BOARD_WIDTH as int) < BOARD_HEIGHT as int) by (nonlinear_arith)
        requires
            0 <= idx < BOARD_WIDTH * BOARD_HEIGHT,
    ;
}

proof fn lemma_rock_step(lseq: Seq<Seq<u8>>, idx: int, cs: Seq<Aabb>, cs2: Seq<Aabb>)
    requires
        rock_scan(lseq, idx, cs),
        0 <= idx < spec_board_cells(),
        cs2 == (if is_rock(spec_cell(lseq, idx)) {
            cs.push(spec_rock_box(idx))
        } else {
            cs
        }),
    ensures
        rock_scan(lseq, idx + 1, cs2),
{
    reveal(rock_scan);
    let cell = spec_cell(lseq, idx);
    assert(rock_pred()(cell) == is_rock(cell));
    assert(spec_count_cells(lseq, idx + 1, rock_pred()) == spec_count_cells(lseq, idx, rock_pred())
        + (if is_rock(cell) {
        1nat
    } else {
        0nat
    }));
    lemma_cell_pos_bounds(idx);
    assert forall|j: int| 0 <= j < idx && is_rock(#[trigger] spec_cell(lseq, j)) implies cs2[
        spec_count_cells(lseq, j, rock_pred()) as int] == spec_rock_box(j) by {
        assert(rock_pred()(spec_cell(lseq, j)));
        lemma_count_cells_mono(lseq, j, idx, rock_pred());
    }
}

proof fn lemma_gate_step(lseq: Seq<Seq<u8>>, idx: int, gs: Seq<Gate>, gs2: Seq<Gate>)
    requires
        gate_scan(lseq, idx, gs),
        0 <= idx < spec_board_cells(),
        gs2 == (if is_gate(spec_cell(lseq, idx)) {
            gs.push(
                (Gate { position: spec_cell_pos(idx), has_passenger: false, since_pickup: 0 }),
            )
        } else {
            gs
        }),
    ensures
        gate_scan(lseq, idx + 1, gs2),
{
    reveal(gate_scan);
    let cell = spec_cell(lseq, idx);
    assert(gate_pred()(cell) == is_gate(cell));
    assert(spec_count_cells(lseq, idx + 1, gate_pred()) == spec_count_cells(lseq, idx, gate_pred())
        + (if is_gate(cell) {
        1nat
    } else {
        0nat
    }));
    lemma_cell_pos_bounds(idx);
    assert forall|j: int| 0 <= j < idx && is_gate(#[trigger] spec_cell(lseq, j)) implies gs2[
        spec_count_cells(lseq, j, gate_pred()) as int] == (Gate {
        position: spec_cell_pos(j),
        has_passenger: false,
        since_pickup: 0,
    }) by {
        assert(gate_pred()(spec_cell(lseq, j)));
        lemma_count_cells_mono(lseq, j, idx, gate_pred());
    }
}

proof fn lemma_bird_step(lseq: Seq<Seq<u8>>, idx: int, bs: Seq<Creature>, bs2: Seq<Creature>)
    requires
        bird_scan(lseq, idx, bs),
        0 <= idx < spec_board_cells(),
        bs2 == (if is_bird(spec_cell(lseq, idx)) {
            bs.push(spec_bird_at(idx, spec_cell(lseq, idx) == 98))
        } else {
            bs
        }),
    ensures
        bird_scan(lseq, idx + 1, bs2),
{
    reveal(bird_scan);
    let cell = spec_cell(lseq, idx);
    assert(bird_pred()(cell) == is_bird(cell));
    assert(spec_count_cells(lseq, idx + 1, bird_pred()) == spec_count_cells(lseq, idx, bird_pred())
        + (if is_bird(cell) {
        1nat
    } else {
        0nat
    }));
    lemma_cell_pos_bounds(idx);
    assert forall|j: int| 0 <= j < idx && is_bird(#[trigger] spec_cell(lseq, j)) implies bs2[
        spec_count_cells(lseq, j, bird_pred()) as int] == spec_bird_at(
        j,
        spec_cell(lseq, j) == 98,
    ) by {
        assert(bird_pred()(spec_cell(lseq, j)));
        lemma_count_cells_mono(lseq, j, idx, bird_pred());
    }
}

proof fn lemma_mammoth_step(lseq: Seq<Seq<u8>>, idx: int, ms: Seq<Creature>, ms2: Seq<Creature>)
    requires
        mammoth_scan(lseq, idx, ms),
        0 <= idx < spec_board_cells(),
        ms2 == (if is_mammoth(spec_cell(lseq, idx)) {
            ms.push(spec_mammoth_at(idx, spec_cell(lseq, idx) == 109))
        } else {
            ms
        }),
    ensures
        mammoth_scan(lseq, idx + 1, ms2),
{
    reveal(mammoth_scan);
    let cell = spec_cell(lseq, idx);
    assert(mammoth_pred()(cell) == is_mammoth(cell));
    assert(spec_count_cells(lseq, idx + 1, mammoth_pred()) == spec_count_cells(
        lseq,
        idx,
        mammoth_pred(),
    ) + (if is_mammoth(cell) {
        1nat
    } else {
        0nat
    }));
    lemma_cell_pos_bounds(idx);
    assert forall|j: int| 0 <= j < idx && is_mammoth(#[trigger] spec_cell(lseq, j)) implies ms2[
        spec_count_cells(lseq, j, mammoth_pred()) as int] == spec_mammoth_at(
        j,
        spec_cell(lseq, j) == 109,
    ) by {
        assert(mammoth_pred()(spec_cell(lseq, j)));
        lemma_count_cells_mono(lseq, j, idx, mammoth_pred());
    }
}

/// Counting over a longer prefix never counts fewer cells, and strictly
/// more when the extra prefix starts on a counted cell.
proof fn lemma_count_cells_mono(lseq: Seq<Seq<u8>>, i: int, j: int, pred: spec_fn(u8) -> bool)
    requires
        i <= j,
    ensures
        spec_count_cells(lseq, i, pred) <= spec_count_cells(lseq, j, pred),
        i >= 0 && pred(spec_cell(lseq, i)) && i < j ==> spec_count_cells(lseq, i, pred)
            < spec_count_cells(lseq, j, pred),
    decreases j - i,
{
    if i < j {
        lemma_count_cells_mono(lseq, i, j - 1, pred);
    }
}

/// Turns the two finished creature scans into facts about the one creature
/// list, all birds first.
proof fn lemma_creatures_finish(
    lseq: Seq<Seq<u8>>,
    bs: Seq<Creature>,
    ms: Seq<Creature>,
    creatures: Seq<Creature>,
)
    requires
        bird_scan(lseq, spec_board_cells(), bs),
        mammoth_scan(lseq, spec_board_cells(), ms),
        creatures == bs + ms,
    ensures
        creatures.len() == spec_count_cells(lseq, spec_board_cells(), bird_pred())
            + spec_count_cells(lseq, spec_board_cells(), mammoth_pred()),
        forall|idx: int|
            0 <= idx < spec_board_cells() && is_bird(#[trigger] spec_cell(lseq, idx))
                ==> creatures[spec_count_cells(lseq, idx, bird_pred()) as int] == spec_bird_at(
                idx,
                spec_cell(lseq, idx) == 98,
            ),
        forall|idx: int|
            0 <= idx < spec_board_cells() && is_mammoth(#[trigger] spec_cell(lseq, idx))
                ==> creatures[spec_count_cells(lseq, spec_board_cells(), bird_pred())
                + spec_count_cells(lseq, idx, mammoth_pred()) as int] == spec_mammoth_at(
                idx,
                spec_cell(lseq, idx) == 109,
            ),
        forall|i: int|
            0 <= i < creatures.len() ==> crate::creatures::creature_wf(#[trigger] creatures[i]),
{
    reveal(bird_scan);
    reveal(mammoth_scan);
    assert forall|idx: int|
        0 <= idx < spec_board_cells() && is_bird(#[trigger] spec_cell(lseq, idx))
        implies creatures[spec_count_cells(lseq, idx, bird_pred()) as int] == spec_bird_at(
        idx,
        spec_cell(lseq, idx) == 98,
    ) by {
        assert(bird_pred()(spec_cell(lseq, idx)));
        lemma_count_cells_mono(lseq, idx, spec_board_cells(), bird_pred());
        assert(creatures[spec_count_cells(lseq, idx, bird_pred()) as int] == bs[spec_count_cells(
            lseq,
            idx,
            bird_pred(),
        ) as int]);
    }
    assert forall|idx: int|
        0 <= idx < spec_board_cells() && is_mammoth(#[trigger] spec_cell(lseq, idx))
        implies creatures[spec_count_cells(lseq, spec_board_cells(), bird_pred())
        + spec_count_cells(lseq, idx, mammoth_pred()) as int] == spec_mammoth_at(
        idx,
        spec_cell(lseq, idx) == 109,
    ) by {
        assert(mammoth_pred()(spec_cell(lseq, idx)));
        lemma_count_cells_mono(lseq, idx, spec_board_cells(), mammoth_pred());
        assert(creatures[bs.len() + spec_count_cells(lseq, idx, mammoth_pred()) as int]
            == ms[spec_count_cells(lseq, idx, mammoth_pred()) as int]);
    }
    assert forall|i: int|
        0 <= i < creatures.len() implies crate::creatures::creature_wf(
        #[trigger] creatures[i],
    ) by {
        if i < bs.len() {
            assert(creatures[i] == bs[i]);
        } else {
            assert(creatures[i] == ms[i - bs.len()]);
        }
    }
}

#[verifier::rlimit(100)]
pub fn generate_board(data: &str) -> (r: Result<(Board, Vec<Creature>), LevelError>)
    ensures
        ({
            let lines = spec_split_lines(data.spec_bytes());
            let cells = spec_board_cells();
            &&& r is Err <==> lines.len() != BOARD_HEIGHT
            &&& r matches Ok(bc) ==> {
                let board = bc.0;
                let creatures = bc.1;
                let birds = spec_count_cells(lines, cells, bird_pred());
                &&& board.colliders@.len() == spec_count_cells(lines, cells, rock_pred())
                &&& forall|idx: int|
                    0 <= idx < cells && is_rock(#[trigger] spec_cell(lines, idx))
                        ==> board.colliders@[spec_count_cells(
                        lines,
                        idx,
                        rock_pred(),
                    ) as int] == spec_rock_box(idx)
                &&& board.gates@.len() == spec_count_cells(lines, cells, gate_pred())
                &&& forall|idx: int|
                    0 <= idx < cells && is_gate(#[trigger] spec_cell(lines, idx))
                        ==> board.gates@[spec_count_cells(lines, idx, gate_pred()) as int]
                        == (Gate {
                        position: spec_cell_pos(idx),
                        has_passenger: false,
                        since_pickup: 0,
                    })
                &&& creatures@.len() == birds + spec_count_cells(
                    lines,
                    cells,
                    mammoth_pred(),
                )
                &&& forall|idx: int|
                    0 <= idx < cells && is_bird(#[trigger] spec_cell(lines, idx))
                        ==> creatures@[spec_count_cells(lines, idx, bird_pred()) as int]
                        == spec_bird_at(idx, spec_cell(lines, idx) == 98)
                &&& forall|idx: int|
                    0 <= idx < cells && is_mammoth(#[trigger] spec_cell(lines, idx))
                        ==> creatures@[birds + spec_count_cells(
                        lines,
                        idx,
                        mammoth_pred(),
                    ) as int] == spec_mammoth_at(idx, spec_cell(lines, idx) == 109)
                &&& board_wf(board)
                &&& forall|i: int|
                    0 <= i < creatures@.len() ==> crate::creatures::creature_wf(
                        #[trigger] creatures@[i],
                    )
            }
        }),
{
    let lines = split_lines(data);
    let ghost lseq = spec_split_lines(data.spec_bytes());
    if lines.len() != BOARD_HEIGHT {
        return Err(LevelError::RowCountMismatch);
    }
    let mut colliders: Vec<Aabb> = Vec::new();
    let mut gates: Vec<Gate> = Vec::new();
    let mut birds: Vec<Creature> = Vec::new();
    let mut mammoths: Vec<Creature> = Vec::new();
    let cells = BOARD_WIDTH * BOARD_HEIGHT;
    let mut idx: usize = 0;
    proof {
        lemma_scan_init(lseq);
    }
    while idx < cells
        invariant
            lines@.map_values(|l: Vec<u8>| l@) == lseq,
            lines@.len() == BOARD_HEIGHT,
            cells == BOARD_WIDTH * BOARD_HEIGHT,
            0 <= idx <= cells,
            rock_scan(lseq, idx as int, colliders@),
            gate_scan(lseq, idx as int, gates@),
            bird_scan(lseq, idx as int, birds@),
            mammoth_scan(lseq, idx as int, mammoths@),
        decreases cells - idx,
    {
        let ghost cs0 = colliders@;
        let ghost gs0 = gates@;
        let ghost bs0 = birds@;
        let ghost ms0 = mammoths@;
        let col = idx % BOARD_WIDTH;
        let row = idx / BOARD_WIDTH;
        let line = &lines[row];
        let b: u8 = if col < line.len() {
            line[col]
        } else {
            0
        };
        proof {
            reveal(spec_cell);
            assert(b == spec_cell(lseq, idx as int)) by {
                reveal(spec_cell);
                assert(lseq[row as int] == lines@.map_values(|l: Vec<u8>| l@)[row as int]);
            }
        }
        let x = (col as i64) * TILE_SIZE;
        let y = ((BOARD_HEIGHT - row - 1) as i64) * TILE_SIZE;
        let pos = Vec2 { x, y };
        proof {
            assert(pos == spec_cell_pos(idx as int)) by {
                reveal(spec_cell_pos);
            }
        }
        if b == 35 {
            colliders.push(
                Aabb { a: pos, b: Vec2 { x: pos.x + TILE_SIZE, y: pos.y + TILE_SIZE } },
            );
        } else if b == 71 {
            gates.push(Gate { position: pos, has_passenger: false, since_pickup: 0 });
        } else if b == 66 || b == 98 {
            birds.push(
                crate::creatures::Creature::new(
                    CreatureKind::Bird,
                    pos,
                    b == 98,
                    Vec2 { x: TILE_SIZE, y: TILE_SIZE / 2 },
                    Vec2 { x: 0, y: TILE_SIZE / 4 },
                ),
            );
        } else if b == 77 || b == 109 {
            let offset = if b == 109 {
                Vec2 { x: -TILE_SIZE, y: MAMMOTH_BLOW_V_OFFSET }
            } else {
                Vec2 { x: TILE_SIZE, y: MAMMOTH_BLOW_V_OFFSET }
            };
            mammoths.push(
                crate::creatures::Creature::new(
                    CreatureKind::Mammoth,
                    pos,
                    b == 109,
                    Vec2 { x: TILE_SIZE, y: TILE_SIZE },
                    offset,
                ),
            );
        }
        proof {
            lemma_rock_step(lseq, idx as int, cs0, colliders@);
            lemma_gate_step(lseq, idx as int, gs0, gates@);
            lemma_bird_step(lseq, idx as int, bs0, birds@);
            lemma_mammoth_step(lseq, idx as int, ms0, mammoths@);
        }
        idx += 1;
    }
    let ghost bseq = birds@;
    let ghost mseq = mammoths@;
    let mut creatures = birds;
    let mut m: usize = 0;
    let nm = mammoths.len();
    proof {
        assert(creatures@ =~= bseq + mseq.take(0));
    }
    while m < nm
        invariant
            nm == mammoths@.len(),
            mammoths@ == mseq,
            0 <= m <= nm,
            creatures@ == bseq + mseq.take(m as int),
        decreases nm - m,
    {
        creatures.push(mammoths[m]);
        proof {
            assert(creatures@ =~= bseq + mseq.take(m + 1));
        }
        m += 1;
    }
    proof {
        assert(mseq.take(nm as int) =~= mseq);
        assert(creatures@ =~= bseq + mseq);
        reveal(rock_scan);
        reveal(gate_scan);
        lemma_creatures_finish(lseq, bseq, mseq, creatures@);
    }
    Ok((Board { colliders, gates }, creatures))
}


} // verus!
