use vstd::prelude::*;

verus! {

/// Board width in columns.
pub const BOARD_WIDTH: i32 = 10;

/// Board height in rows, including the hidden rows above the visible field.
pub const BOARD_HEIGHT: i32 = 40;

/// Largest coordinate magnitude that the piece operations accept; it keeps
/// every shift and rotation free of overflow.
pub const COORD_LIMIT: i32 = 1_000_000;

/// A cell of the grid: `x` is the column, `y` the row counted from the floor.
#[derive(Clone, Copy, Debug, PartialEq, Eq, Structural)]
pub struct Position {
    pub x: i32,
    pub y: i32,
}

/// The four rotation states, clockwise from the spawn orientation.
#[derive(Clone, Copy, Debug, PartialEq, Eq, Structural)]
pub enum Rotation {
    Zero,
    Ninety,
    OneEighty,
    TwoHundredSeventy,
}

/// The seven piece types.
#[derive(Clone, Copy, Debug, PartialEq, Eq, Structural)]
pub enum Tetromino {
    I,
    O,
    T,
    S,
    Z,
    J,
    L,
}

/// The cell at column `x` and row `y`.
pub open spec fn pos(x: int, y: int) -> Position {
    Position { x: x as i32, y: y as i32 }
}

/// The cell `p` moved by `dx` columns and `dy` rows.
pub open spec fn moved(p: Position, dx: int, dy: int) -> Position {
    pos(p.x + dx, p.y + dy)
}

/// Every cell of `ps` moved by `dx` columns and `dy` rows.
pub open spec fn translate(ps: Seq<Position>, dx: int, dy: int) -> Seq<Position> {
    ps.map_values(|p: Position| moved(p, dx, dy))
}

/// All cells of `ps` lie within `limit` of the origin on both axes.
pub open spec fn cells_within(ps: Seq<Position>, limit: int) -> bool {
    forall|i: int|
        0 <= i < ps.len() ==> -limit <= #[trigger] ps[i].x <= limit && -limit <= ps[i].y <= limit
}

/// All cells of `ps` lie in the columns of the board.
pub open spec fn in_columns(ps: Seq<Position>) -> bool {
    forall|i: int| 0 <= i < ps.len() ==> 0 <= #[trigger] ps[i].x < BOARD_WIDTH
}

/// No two cells of `ps` are equal.
pub open spec fn distinct_cells(ps: Seq<Position>) -> bool {
    forall|i: int, j: int| 0 <= i < ps.len() && 0 <= j < ps.len() && i != j ==> ps[i] != ps[j]
}

impl Rotation {
    /// The next state clockwise.
    pub open spec fn next_spec(self) -> Rotation {
        match self {
            Rotation::Zero => Rotation::Ninety,
            Rotation::Ninety => Rotation::OneEighty,
            Rotation::OneEighty => Rotation::TwoHundredSeventy,
            Rotation::TwoHundredSeventy => Rotation::Zero,
        }
    }

    pub fn next(&self) -> (r: Rotation)
        ensures
            r == self.next_spec(),
    {
        match self {
            Rotation::Zero => Rotation::Ninety,
            Rotation::Ninety => Rotation::OneEighty,
            Rotation::OneEighty => Rotation::TwoHundredSeventy,
            Rotation::TwoHundredSeventy => Rotation::Zero,
        }
    }
}

/// The spawn cells of each piece type, in the order that the rotation table
/// refers to.
pub open spec fn start_cells(t: Tetromino) -> Seq<Position> {
    match t {
        Tetromino::I => seq![pos(3, 21), pos(4, 21), pos(5, 21), pos(6, 21)],
        Tetromino::O => seq![pos(4, 21), pos(5, 21), pos(4, 22), pos(5, 22)],
        Tetromino::T => seq![pos(3, 21), pos(4, 21), pos(5, 21), pos(4, 22)],
        Tetromino::S => seq![pos(3, 21), pos(4, 21), pos(4, 22), pos(5, 22)],
        Tetromino::Z => seq![pos(3, 22), pos(4, 22), pos(4, 21), pos(5, 21)],
        Tetromino::J => seq![pos(3, 22), pos(3, 21), pos(4, 21), pos(5, 21)],
        Tetromino::L => seq![pos(3, 21), pos(4, 21), pos(5, 21), pos(5, 22)],
    }
}

impl Tetromino {
    /// The spawn cells of this piece type.
    pub fn start_positions(&self) -> (r: Vec<Position>)
        ensures
            r@ == start_cells(*self),
    {
        let r = match self {
            Tetromino::I => vec![
                Position { x: 3, y: 21 },
                Position { x: 4, y: 21 },
                Position { x: 5, y: 21 },
                Position { x: 6, y: 21 },
            ],
            Tetromino::O => vec![
                Position { x: 4, y: 21 },
                Position { x: 5, y: 21 },
                Position { x: 4, y: 22 },
                Position { x: 5, y: 22 },
            ],
            Tetromino::T => vec![
                Position { x: 3, y: 21 },
                Position { x: 4, y: 21 },
                Position { x: 5, y: 21 },
                Position { x: 4, y: 22 },
            ],
            Tetromino::S => vec![
                Position { x: 3, y: 21 },
                Position { x: 4, y: 21 },
                Position { x: 4, y: 22 },
                Position { x: 5, y: 22 },
            ],
            Tetromino::Z => vec![
                Position { x: 3, y: 22 },
                Position { x: 4, y: 22 },
                Position { x: 4, y: 21 },
                Position { x: 5, y: 21 },
            ],
            Tetromino::J => vec![
                Position { x: 3, y: 22 },
                Position { x: 3, y: 21 },
                Position { x: 4, y: 21 },
                Position { x: 5, y: 21 },
            ],
            Tetromino::L => vec![
                Position { x: 3, y: 21 },
                Position { x: 4, y: 21 },
                Position { x: 5, y: 21 },
                Position { x: 5, y: 22 },
            ],
        };
        assert(r@ =~= start_cells(*self));
        r
    }
}

/// The per-cell (column, row) offsets that turn a piece of type `t` in state
/// `r` into its next state clockwise.
pub open spec fn rotation_table(t: Tetromino, r: Rotation) -> Seq<(int, int)> {
    match t {
        Tetromino::I => match r {
            Rotation::Zero => seq![(2, 1), (1, 0), (0, -1), (-1, -2)],
            Rotation::Ninety => seq![(1, -2), (0, -1), (-1, 0), (-2, 1)],
            Rotation::OneEighty => seq![(-2, -1), (-1, 0), (0, 1), (1, 2)],
            Rotation::TwoHundredSeventy => seq![(-1, 2), (0, 1), (1, 0), (2, -1)],
        },
        Tetromino::O => seq![(0, 0), (0, 0), (0, 0), (0, 0)],
        Tetromino::T => match r {
            Rotation::Zero => seq![(1, 1), (0, 0), (-1, -1), (1, -1)],
            Rotation::Ninety => seq![(1, -1), (0, 0), (-1, 1), (-1, -1)],
            Rotation::OneEighty => seq![(-1, -1), (0, 0), (1, 1), (-1, 1)],
            Rotation::TwoHundredSeventy => seq![(-1, 1), (0, 0), (1, -1), (1, 1)],
        },
        Tetromino::S => match r {
            Rotation::Zero => seq![(1, 1), (0, 0), (1, -1), (0, -2)],
            Rotation::Ninety => seq![(1, -1), (0, 0), (-1, -1), (-2, 0)],
            Rotation::OneEighty => seq![(-1, -1), (0, 0), (-1, 1), (0, 2)],
            Rotation::TwoHundredSeventy => seq![(-1, 1), (0, 0), (1, 1), (2, 0)],
        },
        Tetromino::Z => match r {
            Rotation::Zero => seq![(2, 0), (1, -1), (0, 0), (-1, -1)],
            Rotation::Ninety => seq![(0, -2), (-1, -1), (0, 0), (-1, 1)],
            Rotation::OneEighty => seq![(-2, 0), (-1, 1), (0, 0), (1, 1)],
            Rotation::TwoHundredSeventy => seq![(0, 2), (1, 1), (0, 0), (1, -1)],
        },
        Tetromino::J => match r {
            Rotation::Zero => seq![(2, 0), (1, 1), (0, 0), (-1, -1)],
            Rotation::Ninety => seq![(0, -2), (1, -1), (0, 0), (-1, 1)],
            Rotation::OneEighty => seq![(-2, 0), (-1, -1), (0, 0), (1, 1)],
            Rotation::TwoHundredSeventy => seq![(0, 2), (-1, 1), (0, 0), (1, -1)],
        },
        Tetromino::L => match r {
            Rotation::Zero => seq![(1, 1), (0, 0), (-1, -1), (0, -2)],
            Rotation::Ninety => seq![(1, -1), (0, 0), (-1, 1), (-2, 0)],
            Rotation::OneEighty => seq![(-1, -1), (0, 0), (1, 1), (0, 2)],
            Rotation::TwoHundredSeventy => seq![(-1, 1), (0, 0), (1, -1), (2, 0)],
        },
    }
}

/// The cells `ps` after one clockwise rotation step of a piece of type `t` in
/// state `r`, before any horizontal correction.
pub open spec fn rotated(t: Tetromino, r: Rotation, ps: Seq<Position>) -> Seq<Position> {
    Seq::new(
        4,
        |i: int| moved(ps[i], rotation_table(t, r)[i].0, rotation_table(t, r)[i].1),
    )
}

pub open spec fn min_int(a: int, b: int) -> int {
    if a <= b {
        a
    } else {
        b
    }
}

pub open spec fn max_int(a: int, b: int) -> int {
    if a >= b {
        a
    } else {
        b
    }
}

/// The leftmost column among four cells.
pub open spec fn min_x(ps: Seq<Position>) -> int {
    min_int(min_int(ps[0].x as int, ps[1].x as int), min_int(ps[2].x as int, ps[3].x as int))
}

/// The rightmost column among four cells.
pub open spec fn max_x(ps: Seq<Position>) -> int {
    max_int(max_int(ps[0].x as int, ps[1].x as int), max_int(ps[2].x as int, ps[3].x as int))
}

/// The horizontal shift that brings four cells into the board: first right
/// until no cell is left of column 0, then left until none is right of the
/// last column.
pub open spec fn clamp_shift(ps: Seq<Position>) -> int {
    let right = if min_x(ps) < 0 {
        -min_x(ps)
    } else {
        0
    };
    let left = if max_x(ps) + right >= BOARD_WIDTH {
        max_x(ps) + right - (BOARD_WIDTH - 1)
    } else {
        0
    };
    right - left
}

/// Four cells shifted horizontally into the board by `clamp_shift`.
pub open spec fn clamped(ps: Seq<Position>) -> Seq<Position> {
    translate(ps, clamp_shift(ps), 0)
}

impl Tetromino {
    /// The rotation offsets of this piece type in state `rotation`.
    fn deltas(&self, rotation: &Rotation) -> (d: [(i32, i32); 4])
        ensures
            forall|i: int|
                0 <= i < 4 ==> d@[i].0 == rotation_table(*self, *rotation)[i].0 && d@[i].1
                    == rotation_table(*self, *rotation)[i].1,
    {
        match self {
            Tetromino::I => match rotation {
                Rotation::Zero => [(2, 1), (1, 0), (0, -1), (-1, -2)],
                Rotation::Ninety => [(1, -2), (0, -1), (-1, 0), (-2, 1)],
                Rotation::OneEighty => [(-2, -1), (-1, 0), (0, 1), (1, 2)],
                Rotation::TwoHundredSeventy => [(-1, 2), (0, 1), (1, 0), (2, -1)],
            },
            Tetromino::O => [(0, 0), (0, 0), (0, 0), (0, 0)],
            Tetromino::T => match rotation {
                Rotation::Zero => [(1, 1), (0, 0), (-1, -1), (1, -1)],
                Rotation::Ninety => [(1, -1), (0, 0), (-1, 1), (-1, -1)],
                Rotation::OneEighty => [(-1, -1), (0, 0), (1, 1), (-1, 1)],
                Rotation::TwoHundredSeventy => [(-1, 1), (0, 0), (1, -1), (1, 1)],
            },
            Tetromino::S => match rotation {
                Rotation::Zero => [(1, 1), (0, 0), (1, -1), (0, -2)],
                Rotation::Ninety => [(1, -1), (0, 0), (-1, -1), (-2, 0)],
                Rotation::OneEighty => [(-1, -1), (0, 0), (-1, 1), (0, 2)],
                Rotation::TwoHundredSeventy => [(-1, 1), (0, 0), (1, 1), (2, 0)],
            },
            Tetromino::Z => match rotation {
                Rotation::Zero => [(2, 0), (1, -1), (0, 0), (-1, -1)],
                Rotation::Ninety => [(0, -2), (-1, -1), (0, 0), (-1, 1)],
                Rotation::OneEighty => [(-2, 0), (-1, 1), (0, 0), (1, 1)],
                Rotation::TwoHundredSeventy => [(0, 2), (1, 1), (0, 0), (1, -1)],
            },
            Tetromino::J => match rotation {
                Rotation::Zero => [(2, 0), (1, 1), (0, 0), (-1, -1)],
                Rotation::Ninety => [(0, -2), (1, -1), (0, 0), (-1, 1)],
                Rotation::OneEighty => [(-2, 0), (-1, -1), (0, 0), (1, 1)],
                Rotation::TwoHundredSeventy => [(0, 2), (-1, 1), (0, 0), (1, -1)],
            },
            Tetromino::L => match rotation {
                Rotation::Zero => [(1, 1), (0, 0), (-1, -1), (0, -2)],
                Rotation::Ninety => [(1, -1), (0, 0), (-1, 1), (-2, 0)],
                Rotation::OneEighty => [(-1, -1), (0, 0), (1, 1), (0, 2)],
                Rotation::TwoHundredSeventy => [(-1, 1), (0, 0), (1, -1), (2, 0)],
            },
        }
    }

    /// One clockwise rotation step of the four cells `positions`, taken to
    /// be in state `current_rotation`. The O piece keeps its cells.
    pub fn try_basic_rotation(&self, positions: &[Position], current_rotation: &Rotation) -> (r:
        Vec<Position>)
        requires
            positions@.len() == 4,
            cells_within(positions@, COORD_LIMIT as int),
        ensures
            r@ == rotated(*self, *current_rotation, positions@),
    {
        let d = self.deltas(current_rotation);
        let r = vec![
            Position { x: positions[0].x + d[0].0, y: positions[0].y + d[0].1 },
            Position { x: positions[1].x + d[1].0, y: positions[1].y + d[1].1 },
            Position { x: positions[2].x + d[2].0, y: positions[2].y + d[2].1 },
            Position { x: positions[3].x + d[3].0, y: positions[3].y + d[3].1 },
        ];
        assert(r@ =~= rotated(*self, *current_rotation, positions@));
        r
    }
}

/// Moving every cell of `ps` by (`dx`, `dy`) stays within `i32`.
pub open spec fn shift_fits(ps: Seq<Position>, dx: int, dy: int) -> bool {
    forall|i: int|
        0 <= i < ps.len() ==> i32::MIN <= #[trigger] ps[i].x + dx <= i32::MAX && i32::MIN
            <= ps[i].y + dy <= i32::MAX
}

/// Some cell of `ps` lies left of column 0.
pub open spec fn any_left_of_board(ps: Seq<Position>) -> bool {
    exists|i: int| 0 <= i < ps.len() && #[trigger] ps[i].x < 0
}

/// Some cell of `ps` lies right of the last column.
pub open spec fn any_right_of_board(ps: Seq<Position>) -> bool {
    exists|i: int| 0 <= i < ps.len() && #[trigger] ps[i].x >= BOARD_WIDTH
}

/// Every cell of `ps` moved by (`dx`, `dy`).
pub fn translated(ps: &Vec<Position>, dx: i32, dy: i32) -> (r: Vec<Position>)
    requires
        shift_fits(ps@, dx as int, dy as int),
    ensures
        r@ == translate(ps@, dx as int, dy as int),
{
    let mut r: Vec<Position> = Vec::new();
    let mut i: usize = 0;
    while i < ps.len()
        invariant
            i <= ps@.len(),
            shift_fits(ps@, dx as int, dy as int),
            r@ =~= translate(ps@, dx as int, dy as int).take(i as int),
        decreases ps@.len() - i,
    {
        let p = ps[i];
        r.push(Position { x: p.x + dx, y: p.y + dy });
        i = i + 1;
    }
    assert(r@ =~= translate(ps@, dx as int, dy as int));
    r
}

fn any_left_of(ps: &Vec<Position>) -> (r: bool)
    ensures
        r == any_left_of_board(ps@),
{
    let mut i: usize = 0;
    while i < ps.len()
        invariant
            i <= ps@.len(),
            forall|j: int| 0 <= j < i ==> ps@[j].x >= 0,
        decreases ps@.len() - i,
    {
        if ps[i].x < 0 {
            return true;
        }
        i = i + 1;
    }
    false
}

fn any_right_of(ps: &Vec<Position>) -> (r: bool)
    ensures
        r == any_right_of_board(ps@),
{
    let mut i: usize = 0;
    while i < ps.len()
        invariant
            i <= ps@.len(),
            forall|j: int| 0 <= j < i ==> ps@[j].x < BOARD_WIDTH,
        decreases ps@.len() - i,
    {
        if ps[i].x >= BOARD_WIDTH {
            return true;
        }
        i = i + 1;
    }
    false
}

/// Shifts four cells horizontally into the columns of the board.
fn clamp_to_columns(ps: &Vec<Position>) -> (r: Vec<Position>)
    requires
        ps@.len() == 4,
        cells_within(ps@, COORD_LIMIT + 2),
    ensures
        r@ == clamped(ps@),
{
    let mut lo = ps[0].x;
    let mut hi = ps[0].x;
    let mut i: usize = 1;
    while i < 4
        invariant
            1 <= i <= 4,
            ps@.len() == 4,
            cells_within(ps@, COORD_LIMIT + 2),
            lo == ({
                if i == 1 {
                    ps@[0].x as int
                } else if i == 2 {
                    min_int(ps@[0].x as int, ps@[1].x as int)
                } else if i == 3 {
                    min_int(min_int(ps@[0].x as int, ps@[1].x as int), ps@[2].x as int)
                } else {
                    min_x(ps@)
                }
            }),
            hi == ({
                if i == 1 {
                    ps@[0].x as int
                } else if i == 2 {
                    max_int(ps@[0].x as int, ps@[1].x as int)
                } else if i == 3 {
                    max_int(max_int(ps@[0].x as int, ps@[1].x as int), ps@[2].x as int)
                } else {
                    max_x(ps@)
                }
            }),
        decreases 4 - i,
    {
        if ps[i].x < lo {
            lo = ps[i].x;
        }
        if ps[i].x > hi {
            hi = ps[i].x;
        }
        i = i + 1;
    }
    let right: i32 = if lo < 0 {
        -lo
    } else {
        0
    };
    let left: i32 = if hi + right >= BOARD_WIDTH {
        hi + right - (BOARD_WIDTH - 1)
    } else {
        0
    };
    translated(ps, right - left, 0)
}

/// The cells `ps` moved one column left, or `ps` itself when a cell would
/// leave the board.
pub open spec fn left_moved(ps: Seq<Position>) -> Seq<Position> {
    if any_left_of_board(translate(ps, -1, 0)) {
        ps
    } else {
        translate(ps, -1, 0)
    }
}

/// The cells `ps` moved one column right, or `ps` itself when a cell would
/// leave the board.
pub open spec fn right_moved(ps: Seq<Position>) -> Seq<Position> {
    if any_right_of_board(translate(ps, 1, 0)) {
        ps
    } else {
        translate(ps, 1, 0)
    }
}

/// The falling (or settled) piece: its cells, rotation state and type.
pub struct Tetr {
    pub positions: Vec<Position>,
    pub rotation: Rotation,
    pub tetromino: Tetromino,
}

/// What a piece is, as a mathematical value.
pub struct PieceView {
    pub cells: Seq<Position>,
    pub rotation: Rotation,
    pub tetromino: Tetromino,
}

impl View for Tetr {
    type V = PieceView;

    open spec fn view(&self) -> PieceView {
        PieceView { cells: self.positions@, rotation: self.rotation, tetromino: self.tetromino }
    }
}

impl Tetr {
    /// A piece of type `tetromino` at its spawn cells, in the spawn state.
    pub fn new(tetromino: Tetromino) -> (r: Tetr)
        ensures
            r.positions@ == start_cells(tetromino),
            r.rotation == Rotation::Zero,
            r.tetromino == tetromino,
    {
        let positions = tetromino.start_positions();
        Tetr { positions, rotation: Rotation::Zero, tetromino }
    }

    /// Rotates the piece one step clockwise, then shifts it horizontally
    /// into the board, and advances the rotation state.
    pub fn spin(&mut self)
        requires
            old(self).positions@.len() == 4,
            cells_within(old(self).positions@, COORD_LIMIT as int),
        ensures
            final(self).positions@ == clamped(
                rotated(old(self).tetromino, old(self).rotation, old(self).positions@),
            ),
            final(self).rotation == old(self).rotation.next_spec(),
            final(self).tetromino == old(self).tetromino,
    {
        let turned = self.tetromino.try_basic_rotation(self.positions.as_slice(), &self.rotation);
        self.positions = clamp_to_columns(&turned);
        self.rotation = self.rotation.next();
    }

    /// Moves the piece down one row.
    pub fn shift_down(&mut self)
        requires
            shift_fits(old(self).positions@, 0, -1),
        ensures
            final(self).positions@ == translate(old(self).positions@, 0, -1),
            final(self).rotation == old(self).rotation,
            final(self).tetromino == old(self).tetromino,
    {
        self.positions = translated(&self.positions, 0, -1);
    }

    /// Moves the piece one column left, unless a cell would leave the board.
    pub fn move_left(&mut self)
        requires
            shift_fits(old(self).positions@, -1, 0),
        ensures
            final(self).positions@ == left_moved(old(self).positions@),
            (exists|i: int|
                0 <= i < old(self).positions@.len() && #[trigger] old(self).positions@[i].x <= 0)
                ==> final(self).positions@ == old(self).positions@,
            final(self).rotation == old(self).rotation,
            final(self).tetromino == old(self).tetromino,
    {
        let moved = translated(&self.positions, -1, 0);
        if !any_left_of(&moved) {
            self.positions = moved;
        }
        proof {
            let n = old(self).positions@.len();
            if exists|i: int| 0 <= i < n && #[trigger] old(self).positions@[i].x <= 0 {
                let i = choose|i: int| 0 <= i < n && #[trigger] old(self).positions@[i].x <= 0;
                assert(translate(old(self).positions@, -1, 0)[i].x < 0);
            }
        }
    }

    /// Moves the piece one column right, unless a cell would leave the board.
    pub fn move_right(&mut self)
        requires
            shift_fits(old(self).positions@, 1, 0),
        ensures
            final(self).positions@ == right_moved(old(self).positions@),
            (exists|i: int|
                0 <= i < old(self).positions@.len() && #[trigger] old(self).positions@[i].x >= BOARD_WIDTH - 1)
                ==> final(self).positions@ == old(self).positions@,
            final(self).rotation == old(self).rotation,
            final(self).tetromino == old(self).tetromino,
    {
        let moved = translated(&self.positions, 1, 0);
        if !any_right_of(&moved) {
            self.positions = moved;
        }
        proof {
            let n = old(self).positions@.len();
            if exists|i: int| 0 <= i < n && #[trigger] old(self).positions@[i].x >= BOARD_WIDTH - 1 {
                let i = choose|i: int| 0 <= i < n && #[trigger] old(self).positions@[i].x >= BOARD_WIDTH - 1;
                assert(translate(old(self).positions@, 1, 0)[i].x >= BOARD_WIDTH);
            }
        }
    }
}

/// The one-letter name of a piece type.
pub open spec fn letter(t: Tetromino) -> Seq<char> {
    match t {
        Tetromino::I => seq!['I'],
        Tetromino::O => seq!['O'],
        Tetromino::T => seq!['T'],
        Tetromino::S => seq!['S'],
        Tetromino::Z => seq!['Z'],
        Tetromino::J => seq!['J'],
        Tetromino::L => seq!['L'],
    }
}

impl Tetromino {
    /// The one-letter name of this piece type.
    pub fn to_string(&self) -> (r: String)
        ensures
            r@ == letter(*self),
    {
        let s = match self {
            Tetromino::I => "I",
            Tetromino::O => "O",
            Tetromino::T => "T",
            Tetromino::S => "S",
            Tetromino::Z => "Z",
            Tetromino::J => "J",
            Tetromino::L => "L",
        };
        proof {
            reveal_strlit("I");
            reveal_strlit("O");
            reveal_strlit("T");
            reveal_strlit("S");
            reveal_strlit("Z");
            reveal_strlit("J");
            reveal_strlit("L");
        }
        s.to_owned()
    }
}

} // verus!
