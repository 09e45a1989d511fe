//! The per-frame game: moves of the falling piece, locking, line clears,
//! scoring and spawning, each stated over a mathematical model of the state.
use vstd::prelude::*;
use bevy_turborand::GlobalRng;
use crate::board::{
    FIELD_CELLS, TetrisGame, cell_index, check_field_under, full_rows, full_rows_below, in_board,
    lemma_full_row_counted, marked, overlaps, rests, row_full, settled,
};
use crate::piece::BOARD_HEIGHT;
use crate::piece::{
    COORD_LIMIT, PieceView, Position, Rotation, Tetr, Tetromino, cells_within, clamped,
    left_moved, right_moved, rotated, start_cells, translate,
};
use crate::queue::{TetroQueue, bag_order, full_bag, valid_draws};
use crate::score::{MAX_LEVEL, Score, goal_of, line_points};
use crate::shape::{
    lemma_down_keeps_placed, lemma_placed_bounds, lemma_side_keeps_placed,
    lemma_spawn_placed, lemma_spin_keeps_placed, placed, shift_y,
};

verus! {

/// How many rows a hard drop may fall at most; more than the board holds.
pub const DROP_STEPS: u32 = 64;

/// The discrete events of one frame.
#[derive(Clone, Copy, Debug, PartialEq, Eq, Structural)]
pub struct FrameInput {
    /// The gravity interval elapsed during this frame.
    pub gravity: bool,
    pub left: bool,
    pub right: bool,
    pub down: bool,
    pub rotate: bool,
    pub hard_drop: bool,
}

/// What a frame did that the caller acts upon.
#[derive(Clone, Copy, Debug, PartialEq, Eq, Structural)]
pub struct FrameReport {
    /// Rows cleared in this frame.
    pub cleared: u32,
    /// The level went up: the gravity interval is to be read again.
    pub leveled_up: bool,
    /// A new piece was due but its spawn cells were occupied.
    pub spawn_refused: bool,
}

/// The whole simulation state.
pub struct GameState {
    pub game: TetrisGame,
    /// The falling piece, if any.
    pub active: Option<Tetr>,
    /// The pieces that have locked, with the cells of them that remain.
    pub locked: Vec<Tetr>,
    pub queue: TetroQueue,
    /// Rows cleared by the most recent clear, for the visual pulse.
    pub glitch: u32,
    /// The board was wiped in this frame, so every drawable is to be
    /// written again.
    pub buffer_update: bool,
}

/// The game state as a mathematical value.
pub struct GameView {
    pub field: Seq<bool>,
    pub score: Score,
    pub active: Option<PieceView>,
    pub locked: Seq<PieceView>,
    pub queue: Seq<Tetromino>,
    pub glitch: u32,
    pub buffer_update: bool,
}

impl View for GameState {
    type V = GameView;

    open spec fn view(&self) -> GameView {
        GameView {
            field: self.game.field@,
            score: self.game.score,
            active: match self.active {
                Some(p) => Some(p@),
                None => None,
            },
            locked: self.locked@.map_values(|p: Tetr| p@),
            queue: self.queue@,
            glitch: self.glitch,
            buffer_update: self.buffer_update,
        }
    }
}

impl GameView {
    /// The invariant of the state between the steps of a frame.
    pub open spec fn wf(self) -> bool {
        &&& self.field.len() == FIELD_CELLS
        &&& self.score.level <= MAX_LEVEL + 1
        &&& self.score.score < goal_of(self.score.level as int)
        &&& (self.active matches Some(p) ==> placed(p))
        &&& forall|k: int|
            0 <= k < self.locked.len() ==> cells_within(
                #[trigger] self.locked[k].cells,
                COORD_LIMIT as int,
            )
    }

    /// The invariant of the state between frames: in addition, the falling
    /// piece is above the floor row.
    pub open spec fn ready(self) -> bool {
        &&& self.wf()
        &&& (self.active matches Some(p) ==> forall|i: int|
            0 <= i < p.cells.len() ==> #[trigger] p.cells[i].y >= 1)
    }
}

/// The cells `ps` moved down one row at a time, at most `steps` times,
/// until they rest.
pub open spec fn dropped(field: Seq<bool>, ps: Seq<Position>, steps: nat) -> Seq<Position>
    decreases steps,
{
    if steps == 0 || rests(field, ps) {
        ps
    } else {
        dropped(field, translate(ps, 0, -1), (steps - 1) as nat)
    }
}

/// The falling piece after the input of one frame, in this order: gravity,
/// left, right, soft drop, rotation, hard drop.
pub open spec fn after_input(field: Seq<bool>, p: PieceView, input: FrameInput) -> PieceView {
    let a = if input.gravity {
        translate(p.cells, 0, -1)
    } else {
        p.cells
    };
    let b = if input.left {
        left_moved(a)
    } else {
        a
    };
    let c = if input.right {
        right_moved(b)
    } else {
        b
    };
    let d = if input.down {
        translate(c, 0, -1)
    } else {
        c
    };
    let e = if input.rotate {
        clamped(rotated(p.tetromino, p.rotation, d))
    } else {
        d
    };
    let r = if input.rotate {
        p.rotation.next_spec()
    } else {
        p.rotation
    };
    let f = if input.hard_drop {
        dropped(field, e, DROP_STEPS as nat)
    } else {
        e
    };
    PieceView { cells: f, rotation: r, tetromino: p.tetromino }
}

/// The state after the moves of one frame.
pub open spec fn move_spec(v: GameView, input: FrameInput) -> GameView {
    GameView {
        active: match v.active {
            Some(p) => Some(after_input(v.field, p, input)),
            None => None,
        },
        ..v
    }
}

/// The state after the lock check: a falling piece that rests joins the
/// locked pieces.
pub open spec fn lock_spec(v: GameView) -> GameView {
    match v.active {
        Some(p) => if rests(v.field, p.cells) {
            GameView { active: None, locked: v.locked.push(p), ..v }
        } else {
            v
        },
        None => v,
    }
}

/// `field` with the cells of every piece of `pieces` marked, in order.
pub open spec fn merged_all(field: Seq<bool>, pieces: Seq<PieceView>) -> Seq<bool>
    decreases pieces.len(),
{
    if pieces.len() == 0 {
        field
    } else {
        marked(merged_all(field, pieces.drop_last()), pieces.last().cells)
    }
}

/// The rows that the board update of state `v` clears.
pub open spec fn board_cleared(v: GameView) -> int {
    full_rows(merged_all(v.field, v.locked))
}

/// The score after `lines` rows were cleared at once; from the highest level
/// on, the score stays as it is.
pub open spec fn increased(s: Score, lines: u32) -> Score {
    if s.level > MAX_LEVEL {
        s
    } else if s.score + line_points(lines) >= goal_of(s.level as int) {
        Score { score: 0, level: (s.level + 1) as u32 }
    } else {
        Score { score: (s.score + line_points(lines)) as u32, level: s.level }
    }
}

/// The board update of state `v` raises the level.
pub open spec fn board_leveled(v: GameView) -> bool {
    v.score.level <= MAX_LEVEL && v.score.score + line_points(board_cleared(v) as u32)
        >= goal_of(v.score.level as int)
}

/// The state after the board update: the locked pieces are marked on the
/// grid, full rows are cleared from the pieces, the grid is wiped when any
/// row was cleared, and the score takes the cleared rows.
pub open spec fn board_spec(v: GameView) -> GameView {
    let merged = merged_all(v.field, v.locked);
    let n = full_rows(merged);
    GameView {
        field: if n > 0 {
            Seq::new(FIELD_CELLS as nat, |k: int| false)
        } else {
            merged
        },
        score: increased(v.score, n as u32),
        active: v.active,
        locked: v.locked.map_values(
            |p: PieceView| PieceView { cells: settled(merged, p.cells), ..p },
        ),
        queue: v.queue,
        glitch: if n > 0 {
            n as u32
        } else {
            v.glitch
        },
        buffer_update: n > 0,
    }
}

/// The type of the next piece: the head of the queue, or O when it is
/// empty.
pub open spec fn next_type(queue: Seq<Tetromino>) -> Tetromino {
    if queue.len() > 0 {
        queue[0]
    } else {
        Tetromino::O
    }
}

/// A piece is due in state `v` but its spawn cells are occupied.
pub open spec fn spawn_refused_spec(v: GameView) -> bool {
    v.active.is_none() && overlaps(v.field, start_cells(next_type(v.queue)))
}

/// The state after the spawn step, where `draws` shuffle the bag that
/// refills a short queue. With no falling piece, the head of the queue is
/// taken; its piece enters at the spawn cells unless they are occupied, and
/// then a queue left with fewer than two pieces gets a new bag.
pub open spec fn spawn_spec(v: GameView, draws: Seq<u8>) -> GameView {
    if v.active.is_some() {
        v
    } else {
        let t = next_type(v.queue);
        let rest = if v.queue.len() > 0 {
            v.queue.drop_first()
        } else {
            v.queue
        };
        if overlaps(v.field, start_cells(t)) {
            GameView { queue: rest, ..v }
        } else {
            GameView {
                active: Some(PieceView { cells: start_cells(t), rotation: Rotation::Zero, tetromino: t }),
                queue: if rest.len() < 2 {
                    rest + bag_order(full_bag(), draws)
                } else {
                    rest
                },
                ..v
            }
        }
    }
}

/// The state of a frame before the spawn step.
pub open spec fn before_spawn(v: GameView, input: FrameInput) -> GameView {
    board_spec(lock_spec(move_spec(v, input)))
}

/// Moves the falling piece down to where it rests.
fn hard_drop(game: &TetrisGame, piece: &mut Tetr)
    requires
        game.wf(),
        placed(old(piece)@),
    ensures
        final(piece)@ == (PieceView {
            cells: dropped(game.field@, old(piece)@.cells, DROP_STEPS as nat),
            ..old(piece)@
        }),
        placed(final(piece)@),
        rests(game.field@, final(piece)@.cells),
{
    let ghost start = piece@;
    let ghost mut k: nat = 0;
    proof {
        lemma_placed_bounds(start);
        assert(DROP_STEPS - 0 == DROP_STEPS);
    }
    while !check_field_under(game, piece.positions.as_slice())
        invariant
            game.wf(),
            placed(start),
            placed(piece@),
            piece@.rotation == start.rotation,
            piece@.tetromino == start.tetromino,
            shift_y(piece@) == shift_y(start) - k,
            k <= 22,
            dropped(game.field@, piece@.cells, (DROP_STEPS - k) as nat) == dropped(
                game.field@,
                start.cells,
                DROP_STEPS as nat,
            ),
        decreases shift_y(piece@) + 40,
    {
        proof {
            lemma_placed_bounds(piece@);
            assert(!(piece@.cells[0].y <= 0 || crate::board::occupied(
                game.field@,
                piece@.cells[0].x as int,
                piece@.cells[0].y - 1,
            )));
            assert(piece@.cells[0].y >= 1);
            assert(shift_y(piece@) >= -21);
            lemma_placed_bounds(start);
            assert(k <= 21);
            assert(dropped(game.field@, piece@.cells, (DROP_STEPS - k) as nat) == dropped(
                game.field@,
                translate(piece@.cells, 0, -1),
                (DROP_STEPS - k - 1) as nat,
            ));
            lemma_down_keeps_placed(piece@);
        }
        piece.shift_down();
        proof {
            k = k + 1;
        }
    }
}

/// Applies the input of one frame to a falling piece.
#[verifier::rlimit(40)]
fn apply_input(game: &TetrisGame, p: &mut Tetr, input: &FrameInput)
    requires
        game.wf(),
        placed(old(p)@),
        forall|i: int| 0 <= i < old(p)@.cells.len() ==> #[trigger] old(p)@.cells[i].y >= 1,
    ensures
        final(p)@ == after_input(game.field@, old(p)@, *input),
        placed(final(p)@),
        input.hard_drop ==> rests(game.field@, final(p)@.cells),
{
    let ghost p0 = p@;
    proof {
        lemma_placed_bounds(p0);
        assert(p0.cells[0].y >= 1);
        assert(shift_y(p0) >= -21);
    }
    if input.gravity {
        proof {
            lemma_down_keeps_placed(p@);
            lemma_placed_bounds(p@);
        }
        p.shift_down();
    }
    proof {
        assert(shift_y(p@) >= -22);
        lemma_placed_bounds(p@);
        lemma_side_keeps_placed(p@);
    }
    if input.left {
        p.move_left();
    }
    proof {
        assert(shift_y(p@) >= -22);
        lemma_placed_bounds(p@);
        lemma_side_keeps_placed(p@);
    }
    if input.right {
        p.move_right();
    }
    assert(shift_y(p@) >= -22);
    if input.down {
        proof {
            lemma_placed_bounds(p@);
            lemma_down_keeps_placed(p@);
        }
        p.shift_down();
    }
    if input.rotate {
        let ghost before = p@;
        proof {
            lemma_placed_bounds(p@);
        }
        p.spin();
        proof {
            lemma_spin_keeps_placed(before, p@);
        }
    }
    if input.hard_drop {
        hard_drop(game, p);
    }
}

impl GameState {
    /// Applies the input of one frame to the falling piece: gravity, then
    /// the sideways moves, the soft drop, the rotation and the hard drop.
    pub fn move_piece(&mut self, input: &FrameInput)
        requires
            old(self)@.ready(),
        ensures
            final(self)@ == move_spec(old(self)@, *input),
            final(self)@.wf(),
            input.hard_drop ==> (final(self)@.active matches Some(p) ==> rests(
                final(self)@.field,
                p.cells,
            )),
    {
        let ghost v = self@;
        match self.active.take() {
            Some(mut p) => {
                apply_input(&self.game, &mut p, input);
                self.active = Some(p);
                assert(self@.locked =~= v.locked);
                assert(self@ == move_spec(v, *input));
            },
            None => {
                assert(self@.locked =~= v.locked);
                assert(self@ == move_spec(v, *input));
            },
        }
    }

    /// Locks the falling piece when it rests on the floor row or on an
    /// occupied cell.
    pub fn lock_pieces(&mut self)
        requires
            old(self)@.wf(),
        ensures
            final(self)@ == lock_spec(old(self)@),
            final(self)@.ready(),
    {
        let ghost v = self@;
        match self.active.take() {
            Some(p) => {
                proof {
                    lemma_placed_bounds(p@);
                }
                if check_field_under(&self.game, p.positions.as_slice()) {
                    self.locked.push(p);
                    assert(self@.locked =~= v.locked.push(p@));
                } else {
                    self.active = Some(p);
                    assert(self@.locked =~= v.locked);
                    assert forall|i: int| 0 <= i < p@.cells.len() implies #[trigger] p@.cells[i].y >= 1 by {
                        if p@.cells[i].y <= 0 {
                            assert(rests(self.game.field@, p@.cells));
                        }
                    }
                }
            },
            None => {
                assert(self@.locked =~= v.locked);
            },
        }
    }

    /// Marks the locked pieces on the grid, clears the full rows and adds
    /// them to the score. Returns the number of cleared rows and whether
    /// the level went up.
    pub fn update_board(&mut self) -> (r: (u32, bool))
        requires
            old(self)@.wf(),
        ensures
            final(self)@ == board_spec(old(self)@),
            r.0 == board_cleared(old(self)@),
            r.1 == board_leveled(old(self)@),
            final(self)@.wf(),
            old(self)@.ready() ==> final(self)@.ready(),
    {
        let ghost v = self@;
        let mut k: usize = 0;
        while k < self.locked.len()
            invariant
                k <= v.locked.len(),
                self.game.wf(),
                self.game.score == v.score,
                self.locked@.map_values(|p: Tetr| p@) == v.locked,
                self.active == old(self).active,
                self.glitch == v.glitch,
                self.buffer_update == v.buffer_update,
                self.queue@ == v.queue,
                v == old(self)@,
                self.game.field@ == merged_all(v.field, v.locked.take(k as int)),
            decreases v.locked.len() - k,
        {
            assert(v.locked.take(k + 1).drop_last() =~= v.locked.take(k as int));
            assert(v.locked[k as int] == self.locked@[k as int]@);
            self.game.merge(&self.locked[k].positions);
            k = k + 1;
        }
        assert(v.locked.take(v.locked.len() as int) =~= v.locked);
        let ghost merged = self.game.field@;
        let ghost before = self.locked@;
        assert forall|j: int| 0 <= j < before.len() implies cells_within(
            #[trigger] before[j].positions@,
            COORD_LIMIT as int,
        ) by {
            assert(v.locked[j] == before[j]@);
            assert(cells_within(v.locked[j].cells, COORD_LIMIT as int));
        }
        let cleared = self.game.clear_full_rows(&mut self.locked);
        let leveled = if self.game.score.level <= MAX_LEVEL {
            self.game.score.increase(cleared)
        } else {
            false
        };
        if cleared > 0 {
            self.glitch = cleared;
        }
        self.buffer_update = cleared > 0;
        assert(self@.locked =~= v.locked.map_values(
            |p: PieceView| PieceView { cells: settled(merged, p.cells), ..p },
        ));
        assert(self@.field == board_spec(v).field);
        assert(self@.score == board_spec(v).score);
        assert(self@.glitch == board_spec(v).glitch);
        assert(self@.buffer_update == board_spec(v).buffer_update);
        assert(self@ == board_spec(v));
        (cleared, leveled)
    }

    /// With no falling piece, takes the next piece from the queue (O when
    /// it is empty) and puts it at its spawn cells, unless one of them is
    /// occupied; after a spawn, a queue with fewer than two pieces gets a new
    /// bag. Returns whether the spawn was refused.
    pub fn spawn_new_piece(&mut self, rng: &mut GlobalRng) -> (refused: bool)
        requires
            old(self)@.wf(),
        ensures
            exists|draws: Seq<u8>|
                valid_draws(draws) && final(self)@ == spawn_spec(old(self)@, draws),
            refused == spawn_refused_spec(old(self)@),
            final(self)@.wf(),
            old(self)@.ready() ==> final(self)@.ready(),
    {
        let ghost v = self@;
        let ghost zeros: Seq<u8> = seq![0, 0, 0, 0, 0, 0, 0];
        assert(valid_draws(zeros));
        if self.active.is_some() {
            assert(self@ == spawn_spec(v, zeros));
            return false;
        }
        let tetromino = match self.queue.pop() {
            Some(t) => t,
            None => Tetromino::O,
        };
        let tetr = Tetr::new(tetromino);
        if self.game.overlaps_any(&tetr.positions) {
            assert(self@.locked =~= v.locked);
            assert(self@ == spawn_spec(v, zeros));
            return true;
        }
        proof {
            lemma_spawn_placed(tetromino);
        }
        self.active = Some(tetr);
        if self.queue.len() < 2 {
            let ghost before = self@;
            self.queue.fill_queue(rng);
            let ghost draws = choose|draws: Seq<u8>|
                valid_draws(draws) && self.queue@ == before.queue + bag_order(full_bag(), draws);
            assert(self@.locked =~= v.locked);
            assert(self@ == spawn_spec(v, draws));
        } else {
            assert(self@.locked =~= v.locked);
            assert(self@ == spawn_spec(v, zeros));
        }
        false
    }

    /// A new game: an empty grid, no pieces, a zero score, and one shuffled
    /// bag in the queue.
    pub fn new(rng: &mut GlobalRng) -> (r: GameState)
        ensures
            r@.ready(),
            field_from_locked(r@),
            exists|draws: Seq<u8>|
                valid_draws(draws) && r@ == (GameView {
                    field: Seq::new(FIELD_CELLS as nat, |k: int| false),
                    score: Score { score: 0, level: 0 },
                    active: None,
                    locked: Seq::empty(),
                    queue: bag_order(full_bag(), draws),
                    glitch: 0,
                    buffer_update: false,
                }),
    {
        let mut queue = TetroQueue::default();
        queue.fill_queue(rng);
        let ghost draws = choose|draws: Seq<u8>|
            valid_draws(draws) && queue@ == Seq::<Tetromino>::empty() + bag_order(full_bag(), draws);
        assert(queue@ =~= bag_order(full_bag(), draws));
        let r = GameState {
            game: TetrisGame::default(),
            active: None,
            locked: Vec::new(),
            queue,
            glitch: 0,
            buffer_update: false,
        };
        assert(r@.locked =~= Seq::<PieceView>::empty());
        r
    }

    /// Runs one frame: the moves of the falling piece, the lock check, the
    /// board update with line clears and scoring, and the spawn step.
    pub fn step(&mut self, input: &FrameInput, rng: &mut GlobalRng) -> (r: FrameReport)
        requires
            old(self)@.ready(),
        ensures
            final(self)@.ready(),
            exists|draws: Seq<u8>|
                valid_draws(draws) && final(self)@ == spawn_spec(
                    before_spawn(old(self)@, *input),
                    draws,
                ),
            r.cleared == board_cleared(lock_spec(move_spec(old(self)@, *input))),
            r.leveled_up == board_leveled(lock_spec(move_spec(old(self)@, *input))),
            r.spawn_refused == spawn_refused_spec(before_spawn(old(self)@, *input)),
    {
        self.move_piece(input);
        self.lock_pieces();
        let (cleared, leveled_up) = self.update_board();
        let spawn_refused = self.spawn_new_piece(rng);
        FrameReport { cleared, leveled_up, spawn_refused }
    }
}

/// Cell `k` of the grid is a cell of one of `pieces`.
pub open spec fn covered(pieces: Seq<PieceView>, k: int) -> bool {
    exists|j: int, i: int|
        0 <= j < pieces.len() && 0 <= i < pieces[j].cells.len() && in_board(
            pieces[j].cells[i].x as int,
            pieces[j].cells[i].y as int,
        ) && #[trigger] cell_index(pieces[j].cells[i].x as int, pieces[j].cells[i].y as int) == k
}

/// Every occupied cell of the grid belongs to a locked piece.
pub open spec fn field_from_locked(v: GameView) -> bool {
    forall|k: int| 0 <= k < v.field.len() && #[trigger] v.field[k] ==> covered(v.locked, k)
}

proof fn lemma_covered_prefix(pieces: Seq<PieceView>, n: int, k: int)
    requires
        0 <= n <= pieces.len(),
        covered(pieces.take(n), k),
    ensures
        covered(pieces, k),
{
    let (j, i) = choose|j: int, i: int|
        0 <= j < pieces.take(n).len() && 0 <= i < pieces.take(n)[j].cells.len() && in_board(
            pieces.take(n)[j].cells[i].x as int,
            pieces.take(n)[j].cells[i].y as int,
        ) && #[trigger] cell_index(
            pieces.take(n)[j].cells[i].x as int,
            pieces.take(n)[j].cells[i].y as int,
        ) == k;
    assert(pieces.take(n)[j] == pieces[j]);
}

/// A cell marked by merging the pieces was occupied before or belongs to
/// one of them.
proof fn lemma_merged_all_covered(field: Seq<bool>, pieces: Seq<PieceView>, k: int)
    requires
        0 <= k < field.len(),
    ensures
        merged_all(field, pieces).len() == field.len(),
        merged_all(field, pieces)[k] ==> field[k] || covered(pieces, k),
    decreases pieces.len(),
{
    if pieces.len() > 0 {
        let rest = pieces.drop_last();
        lemma_merged_all_covered(field, rest, k);
        let before = merged_all(field, rest);
        let last = pieces.last();
        if merged_all(field, pieces)[k] && !before[k] {
            let i = choose|i: int|
                0 <= i < last.cells.len() && in_board(last.cells[i].x as int, last.cells[i].y as int)
                    && cell_index(#[trigger] last.cells[i].x as int, last.cells[i].y as int) == k;
            let j = pieces.len() - 1;
            assert(pieces[j].cells[i] == last.cells[i]);
            assert(cell_index(pieces[j].cells[i].x as int, pieces[j].cells[i].y as int) == k);
        }
        if before[k] && !field[k] {
            assert(rest =~= pieces.take(pieces.len() - 1));
            lemma_covered_prefix(pieces, pieces.len() - 1, k);
        }
    }
}

/// With no full row, settling leaves cells where they are.
proof fn lemma_settled_without_full_rows(field: Seq<bool>, ps: Seq<Position>)
    requires
        full_rows(field) == 0,
    ensures
        settled(field, ps) == ps,
    decreases ps.len(),
{
    if ps.len() > 0 {
        lemma_settled_without_full_rows(field, ps.drop_last());
        let p = ps.last();
        if row_full(field, p.y as int) {
            lemma_full_row_counted(field, p.y as int, BOARD_HEIGHT as int);
        }
        lemma_no_rows_below(field, p.y as int);
        assert(ps.drop_last().push(p) =~= ps);
    }
}

proof fn lemma_no_rows_below(field: Seq<bool>, y: int)
    requires
        full_rows(field) == 0,
    ensures
        full_rows_below(field, y) == 0,
    decreases (if y > BOARD_HEIGHT { BOARD_HEIGHT + 1 } else if y > 0 { y } else { 0 }),
{
    if y > BOARD_HEIGHT {
        lemma_no_rows_below(field, BOARD_HEIGHT as int);
    } else if y > 0 {
        lemma_no_rows_below(field, y - 1);
        if row_full(field, y - 1) {
            lemma_full_row_counted(field, y - 1, BOARD_HEIGHT as int);
        }
    }
}

/// Every frame keeps the grid made of locked cells only: locking adds a
/// piece to the locked ones, the board update marks only locked cells or
/// wipes the grid, and moves and spawns leave the grid alone.
pub proof fn lemma_step_keeps_field_from_locked(v: GameView, input: FrameInput, draws: Seq<u8>)
    requires
        v.wf(),
        field_from_locked(v),
    ensures
        field_from_locked(spawn_spec(before_spawn(v, input), draws)),
{
    let m = move_spec(v, input);
    let l = lock_spec(m);
    assert(field_from_locked(l)) by {
        assert forall|k: int| 0 <= k < l.field.len() && #[trigger] l.field[k] implies covered(
            l.locked,
            k,
        ) by {
            assert(covered(m.locked, k));
            if l.locked != m.locked {
                assert(m.locked =~= l.locked.take(m.locked.len() as int));
                lemma_covered_prefix(l.locked, m.locked.len() as int, k);
            }
        }
    }
    let b = board_spec(l);
    let merged = merged_all(l.field, l.locked);
    assert(l.field == v.field);
    lemma_merged_all_covered(l.field, l.locked, 0);
    crate::board::lemma_full_rows_below_bounds(merged, BOARD_HEIGHT as int);
    assert(field_from_locked(b)) by {
        if full_rows(merged) > 0 {
            assert forall|k: int| 0 <= k < b.field.len() && #[trigger] b.field[k] implies covered(
                b.locked,
                k,
            ) by {
                assert(b.field[k] == false);
            }
        } else {
            assert(b.locked =~= l.locked) by {
                assert forall|j: int| 0 <= j < l.locked.len() implies #[trigger] b.locked[j]
                    == l.locked[j] by {
                    lemma_settled_without_full_rows(merged, l.locked[j].cells);
                }
            }
            assert forall|k: int| 0 <= k < b.field.len() && #[trigger] b.field[k] implies covered(
                b.locked,
                k,
            ) by {
                lemma_merged_all_covered(l.field, l.locked, k);
            }
        }
    }
}

} // verus!
