//! The orientations that each piece type passes through, and the facts about
//! rotation that the game relies on.
use vstd::prelude::*;
use crate::piece::{
    BOARD_WIDTH, PieceView, Position, Rotation, Tetromino, any_left_of_board, any_right_of_board,
    cells_within, clamp_shift, clamped, distinct_cells, in_columns, left_moved, max_x, min_x, pos,
    right_moved, rotated, start_cells, translate,
};

verus! {

/// The cells of a piece of type `t` in state `r` when it has not been moved
/// since it spawned: the spawn cells rotated step by step (see
/// `lemma_shape_next`).
pub open spec fn shape(t: Tetromino, r: Rotation) -> Seq<Position> {
    match t {
        Tetromino::I => match r {
            Rotation::Zero => seq![pos(3, 21), pos(4, 21), pos(5, 21), pos(6, 21)],
            Rotation::Ninety => seq![pos(5, 22), pos(5, 21), pos(5, 20), pos(5, 19)],
            Rotation::OneEighty => seq![pos(6, 20), pos(5, 20), pos(4, 20), pos(3, 20)],
            Rotation::TwoHundredSeventy => seq![pos(4, 19), pos(4, 20), pos(4, 21), pos(4, 22)],
        },
        Tetromino::O => start_cells(Tetromino::O),
        Tetromino::T => match r {
            Rotation::Zero => seq![pos(3, 21), pos(4, 21), pos(5, 21), pos(4, 22)],
            Rotation::Ninety => seq![pos(4, 22), pos(4, 21), pos(4, 20), pos(5, 21)],
            Rotation::OneEighty => seq![pos(5, 21), pos(4, 21), pos(3, 21), pos(4, 20)],
            Rotation::TwoHundredSeventy => seq![pos(4, 20), pos(4, 21), pos(4, 22), pos(3, 21)],
        },
        Tetromino::S => match r {
            Rotation::Zero => seq![pos(3, 21), pos(4, 21), pos(4, 22), pos(5, 22)],
            Rotation::Ninety => seq![pos(4, 22), pos(4, 21), pos(5, 21), pos(5, 20)],
            Rotation::OneEighty => seq![pos(5, 21), pos(4, 21), pos(4, 20), pos(3, 20)],
            Rotation::TwoHundredSeventy => seq![pos(4, 20), pos(4, 21), pos(3, 21), pos(3, 22)],
        },
        Tetromino::Z => match r {
            Rotation::Zero => seq![pos(3, 22), pos(4, 22), pos(4, 21), pos(5, 21)],
            Rotation::Ninety => seq![pos(5, 22), pos(5, 21), pos(4, 21), pos(4, 20)],
            Rotation::OneEighty => seq![pos(5, 20), pos(4, 20), pos(4, 21), pos(3, 21)],
            Rotation::TwoHundredSeventy => seq![pos(3, 20), pos(3, 21), pos(4, 21), pos(4, 22)],
        },
        Tetromino::J => match r {
            Rotation::Zero => seq![pos(3, 22), pos(3, 21), pos(4, 21), pos(5, 21)],
            Rotation::Ninety => seq![pos(5, 22), pos(4, 22), pos(4, 21), pos(4, 20)],
            Rotation::OneEighty => seq![pos(5, 20), pos(5, 21), pos(4, 21), pos(3, 21)],
            Rotation::TwoHundredSeventy => seq![pos(3, 20), pos(4, 20), pos(4, 21), pos(4, 22)],
        },
        Tetromino::L => match r {
            Rotation::Zero => seq![pos(3, 21), pos(4, 21), pos(5, 21), pos(5, 22)],
            Rotation::Ninety => seq![pos(4, 22), pos(4, 21), pos(4, 20), pos(5, 20)],
            Rotation::OneEighty => seq![pos(5, 21), pos(4, 21), pos(3, 21), pos(3, 20)],
            Rotation::TwoHundredSeventy => seq![pos(4, 20), pos(4, 21), pos(4, 22), pos(3, 22)],
        },
    }
}

/// How far a piece has moved horizontally from the shape of its state.
pub open spec fn shift_x(p: PieceView) -> int {
    p.cells[0].x - shape(p.tetromino, p.rotation)[0].x
}

/// How far a piece has moved vertically from the shape of its state.
pub open spec fn shift_y(p: PieceView) -> int {
    p.cells[0].y - shape(p.tetromino, p.rotation)[0].y
}

/// A piece in play: its four cells are the shape of its state moved as a
/// whole, they lie in the columns of the board, and the piece has not risen
/// above its spawn height nor fallen far below the floor.
#[verifier::opaque]
pub open spec fn placed(p: PieceView) -> bool {
    &&& p.cells.len() == 4
    &&& p.cells == translate(shape(p.tetromino, p.rotation), shift_x(p), shift_y(p))
    &&& in_columns(p.cells)
    &&& -40 <= shift_y(p) <= 0
}

/// Cell bounds of every shape.
pub proof fn lemma_shape_bounds(t: Tetromino, r: Rotation)
    ensures
        shape(t, r).len() == 4,
        forall|i: int| 0 <= i < 4 ==> 3 <= #[trigger] shape(t, r)[i].x <= 6 && 19 <= shape(t, r)[i].y <= 22,
        max_x(shape(t, r)) - min_x(shape(t, r)) <= 3,
{
    match t {
        Tetromino::I => {},
        Tetromino::O => {},
        Tetromino::T => {},
        Tetromino::S => {},
        Tetromino::Z => {},
        Tetromino::J => {},
        Tetromino::L => {},
    }
}

/// Rotating a moved group of cells is moving the rotated group.
pub proof fn lemma_rotated_translate(t: Tetromino, r: Rotation, ps: Seq<Position>, dx: int, dy: int)
    requires
        ps.len() == 4,
        cells_within(ps, 100),
        -100 <= dx <= 100,
        -100 <= dy <= 100,
    ensures
        rotated(t, r, translate(ps, dx, dy)) == translate(rotated(t, r, ps), dx, dy),
{
    assert(rotated(t, r, translate(ps, dx, dy)) =~= translate(rotated(t, r, ps), dx, dy));
}

/// Four clockwise steps from any state bring any four cells back where they
/// were.
pub proof fn lemma_four_rotations_restore(t: Tetromino, r: Rotation, ps: Seq<Position>)
    requires
        ps.len() == 4,
        cells_within(ps, 1000),
    ensures
        rotated(
            t,
            r.next_spec().next_spec().next_spec(),
            rotated(t, r.next_spec().next_spec(), rotated(t, r.next_spec(), rotated(t, r, ps))),
        ) == ps,
{
    let a = rotated(t, r, ps);
    let b = rotated(t, r.next_spec(), a);
    let c = rotated(t, r.next_spec().next_spec(), b);
    let d = rotated(t, r.next_spec().next_spec().next_spec(), c);
    assert(d =~= ps);
}

/// The shape of the next state is the rotated shape of this one.
pub proof fn lemma_shape_next(t: Tetromino, r: Rotation)
    ensures
        shape(t, r.next_spec()) == rotated(t, r, shape(t, r)),
{
    assert(shape(t, r.next_spec()) =~= rotated(t, r, shape(t, r)));
}

/// Four cells in the columns of the board need no horizontal correction.
pub proof fn lemma_clamp_noop(ps: Seq<Position>)
    requires
        ps.len() == 4,
        in_columns(ps),
    ensures
        clamp_shift(ps) == 0,
        clamped(ps) == ps,
{
    assert(clamped(ps) =~= ps);
}

/// Four cells no wider than the board end up inside its columns.
pub proof fn lemma_clamp_in_columns(ps: Seq<Position>, limit: int)
    requires
        ps.len() == 4,
        0 <= limit <= 1000,
        cells_within(ps, limit),
        max_x(ps) - min_x(ps) < BOARD_WIDTH,
    ensures
        in_columns(clamped(ps)),
        -limit <= clamp_shift(ps) <= limit,
{
    let s = clamp_shift(ps);
    assert forall|i: int| 0 <= i < 4 implies 0 <= #[trigger] clamped(ps)[i].x < BOARD_WIDTH by {
        assert(min_x(ps) <= ps[i].x <= max_x(ps));
    }
}

/// Every piece type spawns on four distinct cells, and four spins from the
/// spawn state, each with its horizontal correction, bring the piece back
/// to its spawn cells.
pub proof fn lemma_spawn_spins_restore(t: Tetromino)
    ensures
        start_cells(t).len() == 4,
        distinct_cells(start_cells(t)),
        clamped(
            rotated(
                t,
                Rotation::TwoHundredSeventy,
                clamped(
                    rotated(
                        t,
                        Rotation::OneEighty,
                        clamped(
                            rotated(
                                t,
                                Rotation::Ninety,
                                clamped(rotated(t, Rotation::Zero, start_cells(t))),
                            ),
                        ),
                    ),
                ),
            ),
        ) == start_cells(t),
{
    let z = Rotation::Zero;
    let n = Rotation::Ninety;
    let h = Rotation::OneEighty;
    let w = Rotation::TwoHundredSeventy;
    assert(shape(t, z) == start_cells(t));
    lemma_shape_bounds(t, z);
    lemma_shape_bounds(t, n);
    lemma_shape_bounds(t, h);
    lemma_shape_bounds(t, w);
    lemma_shape_next(t, z);
    lemma_clamp_noop(shape(t, n));
    assert(clamped(rotated(t, z, start_cells(t))) == shape(t, n));
    lemma_shape_next(t, n);
    lemma_clamp_noop(shape(t, h));
    assert(clamped(rotated(t, n, shape(t, n))) == shape(t, h));
    lemma_shape_next(t, h);
    lemma_clamp_noop(shape(t, w));
    assert(clamped(rotated(t, h, shape(t, h))) == shape(t, w));
    lemma_shape_next(t, w);
    lemma_clamp_noop(shape(t, z));
    assert(clamped(rotated(t, w, shape(t, w))) == shape(t, z));
    match t {
        Tetromino::I => {},
        Tetromino::O => {},
        Tetromino::T => {},
        Tetromino::S => {},
        Tetromino::Z => {},
        Tetromino::J => {},
        Tetromino::L => {},
    }
}

/// The O piece keeps its cells under rotation in every state, and a spin
/// leaves an O piece inside the board where it was.
pub proof fn lemma_o_rotation_keeps_cells(r: Rotation, ps: Seq<Position>)
    requires
        ps.len() == 4,
    ensures
        rotated(Tetromino::O, r, ps) == ps,
        in_columns(ps) ==> clamped(rotated(Tetromino::O, r, ps)) == ps,
{
    assert(rotated(Tetromino::O, r, ps) =~= ps);
    if in_columns(ps) {
        lemma_clamp_noop(ps);
    }
}

/// Moving a group of cells twice is moving it once by the sum.
pub proof fn lemma_translate_twice(ps: Seq<Position>, a: int, b: int, c: int, d: int)
    requires
        cells_within(ps, 100),
        -100 <= a <= 100,
        -100 <= b <= 100,
        -100 <= c <= 100,
        -100 <= d <= 100,
    ensures
        translate(translate(ps, a, b), c, d) == translate(ps, a + c, b + d),
{
    assert(translate(translate(ps, a, b), c, d) =~= translate(ps, a + c, b + d));
}

/// The cells of a placed piece are near the board.
pub proof fn lemma_placed_bounds(p: PieceView)
    requires
        placed(p),
    ensures
        p.cells.len() == 4,
        in_columns(p.cells),
        -40 <= shift_y(p) <= 0,
        cells_within(p.cells, 64),
        -14 <= shift_x(p) <= 14,
        forall|i: int| 0 <= i < 4 ==> -21 <= #[trigger] p.cells[i].y <= 22 && 0 <= p.cells[i].x < BOARD_WIDTH,
        forall|i: int|
            0 <= i < 4 ==> 19 <= #[trigger] p.cells[i].y - shift_y(p) <= 22,
{
    reveal(placed);
    lemma_shape_bounds(p.tetromino, p.rotation);
    let s = shape(p.tetromino, p.rotation);
    assert(p.cells[0].x == s[0].x + shift_x(p));
}

/// A placed piece moved as a whole stays placed while it keeps to the
/// columns of the board and to the allowed heights.
pub proof fn lemma_move_keeps_placed(p: PieceView, q: PieceView, dx: int, dy: int)
    requires
        placed(p),
        -1 <= dx <= 1,
        -1 <= dy <= 0,
        q.cells == translate(p.cells, dx, dy),
        q.rotation == p.rotation,
        q.tetromino == p.tetromino,
        in_columns(q.cells),
        -40 <= shift_y(p) + dy,
    ensures
        placed(q),
        shift_y(q) == shift_y(p) + dy,
{
    reveal(placed);
    lemma_placed_bounds(p);
    let s = shape(p.tetromino, p.rotation);
    lemma_shape_bounds(p.tetromino, p.rotation);
    lemma_translate_twice(s, shift_x(p), shift_y(p), dx, dy);
}

/// A spin keeps a placed piece placed, at the same height.
pub proof fn lemma_spin_keeps_placed(p: PieceView, q: PieceView)
    requires
        placed(p),
        q.cells == clamped(rotated(p.tetromino, p.rotation, p.cells)),
        q.rotation == p.rotation.next_spec(),
        q.tetromino == p.tetromino,
    ensures
        placed(q),
        shift_y(q) == shift_y(p),
{
    reveal(placed);
    let t = p.tetromino;
    let r = p.rotation;
    let s = shape(t, r);
    let s2 = shape(t, r.next_spec());
    lemma_placed_bounds(p);
    lemma_shape_bounds(t, r);
    lemma_shape_bounds(t, r.next_spec());
    lemma_rotated_translate(t, r, s, shift_x(p), shift_y(p));
    lemma_shape_next(t, r);
    let turned = translate(s2, shift_x(p), shift_y(p));
    assert(rotated(t, r, p.cells) == turned);
    assert(cells_within(turned, 64)) by {
        assert forall|i: int| 0 <= i < 4 implies -64 <= #[trigger] turned[i].x <= 64 && -64
            <= turned[i].y <= 64 by {
            assert(3 <= s2[i].x <= 6 && 19 <= s2[i].y <= 22);
        }
    }
    assert(max_x(turned) - min_x(turned) == max_x(s2) - min_x(s2));
    lemma_clamp_in_columns(turned, 64);
    let c = clamp_shift(turned);
    lemma_translate_twice(s2, shift_x(p), shift_y(p), c, 0);
    assert(q.cells == translate(s2, shift_x(p) + c, shift_y(p)));
    assert(shift_x(q) == shift_x(p) + c);
}

/// One row down keeps a placed piece placed while it stays within the
/// allowed heights.
pub proof fn lemma_down_keeps_placed(p: PieceView)
    requires
        placed(p),
        shift_y(p) >= -39,
    ensures
        placed(PieceView { cells: translate(p.cells, 0, -1), ..p }),
        shift_y(PieceView { cells: translate(p.cells, 0, -1), ..p }) == shift_y(p) - 1,
{
    reveal(placed);
    let q = PieceView { cells: translate(p.cells, 0, -1), ..p };
    lemma_placed_bounds(p);
    assert forall|i: int| 0 <= i < q.cells.len() implies 0 <= #[trigger] q.cells[i].x < BOARD_WIDTH by {
        assert(q.cells[i].x == p.cells[i].x);
    }
    lemma_move_keeps_placed(p, q, 0, -1);
}

/// A sideways move keeps a placed piece placed, at the same height.
pub proof fn lemma_side_keeps_placed(p: PieceView)
    requires
        placed(p),
    ensures
        placed(PieceView { cells: left_moved(p.cells), ..p }),
        shift_y(PieceView { cells: left_moved(p.cells), ..p }) == shift_y(p),
        placed(PieceView { cells: right_moved(p.cells), ..p }),
        shift_y(PieceView { cells: right_moved(p.cells), ..p }) == shift_y(p),
{
    reveal(placed);
    lemma_placed_bounds(p);
    let l = translate(p.cells, -1, 0);
    if !any_left_of_board(l) {
        let q = PieceView { cells: l, ..p };
        assert forall|i: int| 0 <= i < q.cells.len() implies 0 <= #[trigger] q.cells[i].x < BOARD_WIDTH by {
            assert(q.cells[i].x == p.cells[i].x - 1);
            assert(!(l[i].x < 0));
        }
        lemma_move_keeps_placed(p, q, -1, 0);
    }
    let r = translate(p.cells, 1, 0);
    if !any_right_of_board(r) {
        let q = PieceView { cells: r, ..p };
        assert forall|i: int| 0 <= i < q.cells.len() implies 0 <= #[trigger] q.cells[i].x < BOARD_WIDTH by {
            assert(q.cells[i].x == p.cells[i].x + 1);
            assert(!(r[i].x >= BOARD_WIDTH));
        }
        lemma_move_keeps_placed(p, q, 1, 0);
    }
}

/// A piece at its spawn cells in the spawn state is placed.
pub proof fn lemma_spawn_placed(t: Tetromino)
    ensures
        placed(PieceView { cells: start_cells(t), rotation: Rotation::Zero, tetromino: t }),
        forall|i: int| 0 <= i < 4 ==> #[trigger] start_cells(t)[i].y >= 21,
{
    reveal(placed);
    let p = PieceView { cells: start_cells(t), rotation: Rotation::Zero, tetromino: t };
    lemma_shape_bounds(t, Rotation::Zero);
    assert(shape(t, Rotation::Zero) == start_cells(t));
    assert(translate(start_cells(t), 0, 0) =~= start_cells(t));
}

} // verus!
