//! The occupancy grid, the resting test and line clearing.
use vstd::prelude::*;
use crate::piece::{BOARD_HEIGHT, BOARD_WIDTH, COORD_LIMIT, Position, Tetr, cells_within};
use crate::score::Score;

verus! {

/// Number of cells of the grid.
pub const FIELD_CELLS: usize = 400;

/// The cell lies on the grid.
pub open spec fn in_board(x: int, y: int) -> bool {
    0 <= x < BOARD_WIDTH && 0 <= y < BOARD_HEIGHT
}

/// Where cell (`x`, `y`) is kept in the row-major grid.
pub open spec fn cell_index(x: int, y: int) -> int {
    y * BOARD_WIDTH + x
}

/// Cell (`x`, `y`) is on the grid and occupied.
pub open spec fn occupied(field: Seq<bool>, x: int, y: int) -> bool {
    in_board(x, y) && field[cell_index(x, y)]
}

/// The floor-or-occupied-below test: some cell is on (or under) the floor
/// row, or the cell right below it is occupied.
pub open spec fn rests(field: Seq<bool>, ps: Seq<Position>) -> bool {
    exists|i: int|
        0 <= i < ps.len() && (#[trigger] ps[i].y <= 0 || occupied(field, ps[i].x as int, ps[i].y - 1))
}

/// Some cell of `ps` is occupied on the grid.
pub open spec fn overlaps(field: Seq<bool>, ps: Seq<Position>) -> bool {
    exists|i: int| 0 <= i < ps.len() && occupied(field, #[trigger] ps[i].x as int, ps[i].y as int)
}

/// `field` with every cell of `ps` that lies on the grid marked occupied.
pub open spec fn marked(field: Seq<bool>, ps: Seq<Position>) -> Seq<bool> {
    Seq::new(
        field.len(),
        |k: int|
            field[k] || exists|i: int|
                0 <= i < ps.len() && in_board(ps[i].x as int, ps[i].y as int) && cell_index(
                    #[trigger] ps[i].x as int,
                    ps[i].y as int,
                ) == k,
    )
}

/// All ten cells of row `row` are occupied.
pub open spec fn row_full(field: Seq<bool>, row: int) -> bool {
    0 <= row < BOARD_HEIGHT && forall|x: int| 0 <= x < BOARD_WIDTH ==> #[trigger] field[cell_index(x, row)]
}

/// The number of full rows below row `y`.
pub open spec fn full_rows_below(field: Seq<bool>, y: int) -> int
    decreases (if y > BOARD_HEIGHT { BOARD_HEIGHT + 1 } else if y > 0 { y } else { 0 }),
{
    if y > BOARD_HEIGHT {
        full_rows_below(field, BOARD_HEIGHT as int)
    } else if y <= 0 {
        0
    } else {
        full_rows_below(field, y - 1) + if row_full(field, y - 1) {
            1int
        } else {
            0
        }
    }
}

/// The number of full rows of the grid.
pub open spec fn full_rows(field: Seq<bool>) -> int {
    full_rows_below(field, BOARD_HEIGHT as int)
}

/// The cells `ps` after the full rows of `field` are cleared: cells on a
/// full row go, and every other cell falls by the number of full rows below
/// it.
pub open spec fn settled(field: Seq<bool>, ps: Seq<Position>) -> Seq<Position>
    decreases ps.len(),
{
    if ps.len() == 0 {
        seq![]
    } else {
        let rest = settled(field, ps.drop_last());
        let p = ps.last();
        if row_full(field, p.y as int) {
            rest
        } else {
            rest.push(Position { x: p.x, y: (p.y - full_rows_below(field, p.y as int)) as i32 })
        }
    }
}

/// Bounds on the number of full rows below a row.
pub proof fn lemma_full_rows_below_bounds(field: Seq<bool>, y: int)
    ensures
        0 <= full_rows_below(field, y),
        y <= 0 ==> full_rows_below(field, y) == 0,
        0 < y <= BOARD_HEIGHT ==> full_rows_below(field, y) <= y,
        y > BOARD_HEIGHT ==> full_rows_below(field, y) <= BOARD_HEIGHT,
    decreases (if y > BOARD_HEIGHT { BOARD_HEIGHT + 1 } else if y > 0 { y } else { 0 }),
{
    if y > BOARD_HEIGHT {
        lemma_full_rows_below_bounds(field, BOARD_HEIGHT as int);
    } else if y > 0 {
        lemma_full_rows_below_bounds(field, y - 1);
    }
}

/// Settling keeps cells within the coordinate limit.
pub proof fn lemma_settled_within(field: Seq<bool>, ps: Seq<Position>)
    requires
        cells_within(ps, COORD_LIMIT as int),
    ensures
        cells_within(settled(field, ps), COORD_LIMIT as int),
        settled(field, ps).len() <= ps.len(),
    decreases ps.len(),
{
    if ps.len() > 0 {
        lemma_settled_within(field, ps.drop_last());
        let p = ps.last();
        lemma_full_rows_below_bounds(field, p.y as int);
    }
}

/// The occupancy grid and the score.
pub struct TetrisGame {
    /// Row-major occupancy, ten cells per row, forty rows from the floor up.
    pub field: Vec<bool>,
    pub score: Score,
}

impl Default for TetrisGame {
    fn default() -> (r: TetrisGame)
        ensures
            r.field@ == Seq::new(FIELD_CELLS as nat, |k: int| false),
            r.score == (Score { score: 0, level: 0 }),
    {
        let mut field: Vec<bool> = Vec::new();
        let mut k: usize = 0;
        while k < FIELD_CELLS
            invariant
                k <= FIELD_CELLS,
                field@ == Seq::new(k as nat, |j: int| false),
            decreases FIELD_CELLS - k,
        {
            field.push(false);
            k = k + 1;
            assert(field@ =~= Seq::new(k as nat, |j: int| false));
        }
        TetrisGame { field, score: Score { score: 0, level: 0 } }
    }
}

/// The floor-or-occupied-below test on the cells `positions`.
pub fn check_field_under(game: &TetrisGame, positions: &[Position]) -> (r: bool)
    requires
        game.field@.len() == FIELD_CELLS,
    ensures
        r == rests(game.field@, positions@),
        (exists|i: int| 0 <= i < positions@.len() && #[trigger] positions@[i].y == 0) ==> r,
        (exists|i: int|
            0 <= i < positions@.len() && occupied(
                game.field@,
                #[trigger] positions@[i].x as int,
                positions@[i].y - 1,
            )) ==> r,
{
    let mut i: usize = 0;
    while i < positions.len()
        invariant
            i <= positions@.len(),
            game.field@.len() == FIELD_CELLS,
            forall|j: int|
                0 <= j < i ==> !(#[trigger] positions@[j].y <= 0 || occupied(
                    game.field@,
                    positions@[j].x as int,
                    positions@[j].y - 1,
                )),
        decreases positions@.len() - i,
    {
        let p = positions[i];
        if p.y <= 0 || game.is_occupied(p.x, p.y - 1) {
            return true;
        }
        i = i + 1;
    }
    false
}

impl TetrisGame {
    pub open spec fn wf(&self) -> bool {
        self.field@.len() == FIELD_CELLS
    }

    /// Whether cell (`x`, `y`) is on the grid and occupied.
    pub fn is_occupied(&self, x: i32, y: i32) -> (r: bool)
        requires
            self.wf(),
        ensures
            r == occupied(self.field@, x as int, y as int),
    {
        if 0 <= x && x < BOARD_WIDTH && 0 <= y && y < BOARD_HEIGHT {
            self.field[(y * BOARD_WIDTH + x) as usize]
        } else {
            false
        }
    }

    /// Whether some cell of `positions` is occupied on the grid.
    pub fn overlaps_any(&self, positions: &Vec<Position>) -> (r: bool)
        requires
            self.wf(),
        ensures
            r == overlaps(self.field@, positions@),
    {
        let mut i: usize = 0;
        while i < positions.len()
            invariant
                i <= positions@.len(),
                self.wf(),
                forall|j: int|
                    0 <= j < i ==> !occupied(self.field@, #[trigger] positions@[j].x as int, positions@[j].y as int),
            decreases positions@.len() - i,
        {
            if self.is_occupied(positions[i].x, positions[i].y) {
                return true;
            }
            i = i + 1;
        }
        false
    }

    /// Marks every cell of `cells` that lies on the grid occupied.
    pub fn merge(&mut self, cells: &Vec<Position>)
        requires
            old(self).wf(),
        ensures
            final(self).wf(),
            final(self).field@ == marked(old(self).field@, cells@),
            final(self).score == old(self).score,
    {
        let mut i: usize = 0;
        while i < cells.len()
            invariant
                i <= cells@.len(),
                self.wf(),
                self.score == old(self).score,
                self.field@ == marked(old(self).field@, cells@.take(i as int)),
            decreases cells@.len() - i,
        {
            let p = cells[i];
            let ghost before = self.field@;
            if 0 <= p.x && p.x < BOARD_WIDTH && 0 <= p.y && p.y < BOARD_HEIGHT {
                let k = (p.y * BOARD_WIDTH + p.x) as usize;
                self.field[k] = true;
            }
            proof {
                let prev = cells@.take(i as int);
                let next = cells@.take(i + 1);
                assert forall|k: int| 0 <= k < FIELD_CELLS implies #[trigger] self.field@[k] == marked(
                    old(self).field@,
                    next,
                )[k] by {
                    if exists|j: int|
                        0 <= j < next.len() && in_board(next[j].x as int, next[j].y as int)
                            && cell_index(#[trigger] next[j].x as int, next[j].y as int) == k {
                        let j = choose|j: int|
                            0 <= j < next.len() && in_board(next[j].x as int, next[j].y as int)
                                && cell_index(#[trigger] next[j].x as int, next[j].y as int) == k;
                        if j < i {
                            assert(prev[j] == next[j]);
                        }
                    }
                    if k == cell_index(p.x as int, p.y as int) && in_board(p.x as int, p.y as int) {
                        assert(next[i as int] == p);
                    }
                    if exists|j: int|
                        0 <= j < prev.len() && in_board(prev[j].x as int, prev[j].y as int)
                            && cell_index(#[trigger] prev[j].x as int, prev[j].y as int) == k {
                        let j = choose|j: int|
                            0 <= j < prev.len() && in_board(prev[j].x as int, prev[j].y as int)
                                && cell_index(#[trigger] prev[j].x as int, prev[j].y as int) == k;
                        assert(prev[j] == next[j]);
                    }
                }
                assert(self.field@ =~= marked(old(self).field@, next));
            }
            i = i + 1;
        }
        assert(cells@.take(cells@.len() as int) =~= cells@);
    }

    /// Whether row `row` is full.
    fn is_row_full(&self, row: usize) -> (r: bool)
        requires
            self.wf(),
            row < BOARD_HEIGHT,
        ensures
            r == row_full(self.field@, row as int),
    {
        let mut x: usize = 0;
        while x < BOARD_WIDTH as usize
            invariant
                x <= BOARD_WIDTH,
                row < BOARD_HEIGHT,
                self.wf(),
                forall|j: int| 0 <= j < x ==> #[trigger] self.field@[cell_index(j, row as int)],
            decreases BOARD_WIDTH - x,
        {
            if !self.field[row * 10 + x] {
                assert(cell_index(x as int, row as int) == row * 10 + x);
                return false;
            }
            x = x + 1;
        }
        true
    }

    /// The cells `ps` after the full rows of this grid are cleared, given
    /// which rows are full and how many full rows lie below each row.
    fn settle_cells(&self, ps: &Vec<Position>, full: &Vec<bool>, below: &Vec<u32>) -> (r: Vec<
        Position,
    >)
        requires
            self.wf(),
            full@.len() == BOARD_HEIGHT,
            below@.len() == BOARD_HEIGHT + 1,
            forall|row: int| 0 <= row < BOARD_HEIGHT ==> #[trigger] full@[row] == row_full(self.field@, row),
            forall|y: int| 0 <= y <= BOARD_HEIGHT ==> #[trigger] below@[y] == full_rows_below(self.field@, y),
            cells_within(ps@, COORD_LIMIT as int),
        ensures
            r@ == settled(self.field@, ps@),
    {
        let mut r: Vec<Position> = Vec::new();
        let mut i: usize = 0;
        while i < ps.len()
            invariant
                i <= ps@.len(),
                self.wf(),
                full@.len() == BOARD_HEIGHT,
                below@.len() == BOARD_HEIGHT + 1,
                forall|row: int| 0 <= row < BOARD_HEIGHT ==> #[trigger] full@[row] == row_full(self.field@, row),
                forall|y: int| 0 <= y <= BOARD_HEIGHT ==> #[trigger] below@[y] == full_rows_below(self.field@, y),
                cells_within(ps@, COORD_LIMIT as int),
                r@ == settled(self.field@, ps@.take(i as int)),
            decreases ps@.len() - i,
        {
            let p = ps[i];
            assert(ps@.take(i + 1).drop_last() =~= ps@.take(i as int));
            assert(ps@.take(i + 1).last() == p);
            proof {
                lemma_full_rows_below_bounds(self.field@, p.y as int);
            }
            if 0 <= p.y && p.y < BOARD_HEIGHT && full[p.y as usize] {
            } else {
                let drop = if p.y < 0 {
                    below[0]
                } else if p.y > BOARD_HEIGHT {
                    below[BOARD_HEIGHT as usize]
                } else {
                    below[p.y as usize]
                };
                r.push(Position { x: p.x, y: p.y - drop as i32 });
            }
            i = i + 1;
        }
        assert(ps@.take(ps@.len() as int) =~= ps@);
        r
    }

    /// Clears the full rows. Every piece in `locked` loses its cells on a
    /// full row, and its other cells fall by the number of full rows below
    /// them. When any row was full the whole grid is then emptied, to be
    /// filled again from the pieces. Returns the number of full rows.
    pub fn clear_full_rows(&mut self, locked: &mut Vec<Tetr>) -> (cleared: u32)
        requires
            old(self).wf(),
            forall|k: int|
                0 <= k < old(locked)@.len() ==> cells_within(
                    #[trigger] old(locked)@[k].positions@,
                    COORD_LIMIT as int,
                ),
        ensures
            final(self).wf(),
            final(self).score == old(self).score,
            cleared == full_rows(old(self).field@),
            cleared > 0 ==> final(self).field@ == Seq::new(FIELD_CELLS as nat, |k: int| false),
            cleared == 0 ==> final(self).field@ == old(self).field@,
            forall|row: int, x: int|
                row_full(old(self).field@, row) && 0 <= x < BOARD_WIDTH ==> !final(self).field@[#[trigger] cell_index(x, row)],
            final(locked)@.len() == old(locked)@.len(),
            forall|k: int|
                0 <= k < old(locked)@.len() ==> {
                    let after = #[trigger] final(locked)@[k];
                    &&& after.positions@ == settled(old(self).field@, old(locked)@[k].positions@)
                    &&& after.rotation == old(locked)@[k].rotation
                    &&& after.tetromino == old(locked)@[k].tetromino
                },
            forall|k: int|
                0 <= k < final(locked)@.len() ==> cells_within(
                    #[trigger] final(locked)@[k].positions@,
                    COORD_LIMIT as int,
                ),
    {
        let mut full: Vec<bool> = Vec::new();
        let mut below: Vec<u32> = vec![0];
        let mut row: usize = 0;
        while row < BOARD_HEIGHT as usize
            invariant
                row <= BOARD_HEIGHT,
                self.wf(),
                self.field@ == old(self).field@,
                full@.len() == row,
                below@.len() == row + 1,
                forall|r: int| 0 <= r < row ==> #[trigger] full@[r] == row_full(self.field@, r),
                forall|y: int| 0 <= y <= row ==> #[trigger] below@[y] == full_rows_below(self.field@, y),
                forall|y: int| 0 <= y <= row ==> #[trigger] below@[y] <= y,
            decreases BOARD_HEIGHT - row,
        {
            let f = self.is_row_full(row);
            full.push(f);
            let count = if f {
                below[row] + 1
            } else {
                below[row]
            };
            below.push(count);
            row = row + 1;
        }
        let cleared = below[BOARD_HEIGHT as usize];
        let mut settled_pieces: Vec<Tetr> = Vec::new();
        let mut k: usize = 0;
        while k < locked.len()
            invariant
                k <= old(locked)@.len(),
                *locked == *old(locked),
                self.wf(),
                self.field@ == old(self).field@,
                self.score == old(self).score,
                full@.len() == BOARD_HEIGHT,
                below@.len() == BOARD_HEIGHT + 1,
                forall|r: int| 0 <= r < BOARD_HEIGHT ==> #[trigger] full@[r] == row_full(self.field@, r),
                forall|y: int| 0 <= y <= BOARD_HEIGHT ==> #[trigger] below@[y] == full_rows_below(self.field@, y),
                forall|j: int|
                    0 <= j < old(locked)@.len() ==> cells_within(
                        #[trigger] old(locked)@[j].positions@,
                        COORD_LIMIT as int,
                    ),
                settled_pieces@.len() == k,
                forall|j: int|
                    0 <= j < k ==> (#[trigger] settled_pieces@[j]).positions@ == settled(
                        old(self).field@,
                        old(locked)@[j].positions@,
                    ) && settled_pieces@[j].rotation == old(locked)@[j].rotation
                        && settled_pieces@[j].tetromino == old(locked)@[j].tetromino,
                forall|j: int|
                    0 <= j < k ==> cells_within(
                        #[trigger] settled_pieces@[j].positions@,
                        COORD_LIMIT as int,
                    ),
            decreases old(locked)@.len() - k,
        {
            let piece = &locked[k];
            let positions = self.settle_cells(&piece.positions, &full, &below);
            proof {
                lemma_settled_within(self.field@, piece.positions@);
            }
            settled_pieces.push(
                Tetr { positions, rotation: piece.rotation, tetromino: piece.tetromino },
            );
            k = k + 1;
        }
        *locked = settled_pieces;
        if cleared > 0 {
            let mut i: usize = 0;
            while i < FIELD_CELLS
                invariant
                    i <= FIELD_CELLS,
                    self.wf(),
                    self.score == old(self).score,
                    forall|j: int| 0 <= j < i ==> !#[trigger] self.field@[j],
                decreases FIELD_CELLS - i,
            {
                self.field[i] = false;
                i = i + 1;
            }
            assert(self.field@ =~= Seq::new(FIELD_CELLS as nat, |k: int| false));
        }
        proof {
            assert forall|row: int, x: int|
                row_full(old(self).field@, row) && 0 <= x < BOARD_WIDTH implies !self.field@[#[trigger] cell_index(x, row)] by {
                lemma_full_row_counted(old(self).field@, row, BOARD_HEIGHT as int);
            }
        }
        cleared
    }
}

/// A full row below `y` is counted among the full rows below `y`.
pub proof fn lemma_full_row_counted(field: Seq<bool>, row: int, y: int)
    requires
        row_full(field, row),
        row < y <= BOARD_HEIGHT,
    ensures
        full_rows_below(field, y) >= 1,
    decreases y,
{
    lemma_full_rows_below_bounds(field, y - 1);
    if row < y - 1 {
        lemma_full_row_counted(field, row, y - 1);
    }
}

} // verus!
