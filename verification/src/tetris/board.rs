//! The board as a grid of rows, and what the rules of the game say of it:
//! where a piece fits, where it comes to rest, what locking it changes and
//! which rows a clearing removes.

use crate::tetris::piece::{Piece, PieceColor};
use vstd::prelude::*;

verus! {

/// Number of columns of the board.
pub const BOARD_WIDTH: usize = 10;

/// Number of rows of the board.
pub const BOARD_HEIGHT: usize = 20;

/// The board: `BOARD_HEIGHT` rows from the top down, each of `BOARD_WIDTH`
/// cells from the left.
pub type TetrisBoard = [[PieceColor; BOARD_WIDTH]; BOARD_HEIGHT];

/// The mathematical model of a board: a sequence of rows from the top down.
pub type Grid = Seq<Seq<PieceColor>>;

/// The grid that a board stands for.
pub open spec fn grid(board: TetrisBoard) -> Grid {
    Seq::new(BOARD_HEIGHT as nat, |y: int| board[y]@)
}

/// A grid of the board's size.
pub open spec fn well_formed(g: Grid) -> bool {
    &&& g.len() == BOARD_HEIGHT
    &&& forall|y: int| 0 <= y < BOARD_HEIGHT ==> (#[trigger] g[y]).len() == BOARD_WIDTH
}

/// Whether column `x`, row `y` names a cell of the board.
pub open spec fn in_map(x: int, y: int) -> bool {
    0 <= x < BOARD_WIDTH && 0 <= y < BOARD_HEIGHT
}

/// Whether the cell at column `x`, row `y` holds a colour.
pub open spec fn occupied(g: Grid, x: int, y: int) -> bool {
    g[y][x] != PieceColor::Empty
}

/// Whether a piece's cell may stand at column `x`, row `y`: the cell is on
/// the board and empty.
pub open spec fn free(g: Grid, x: int, y: int) -> bool {
    in_map(x, y) && !occupied(g, x, y)
}

/// Whether all four cells of `shape`, anchored at column `x`, row `y`, are
/// on the board.
pub open spec fn inside(shape: [(i8, i8); 4], x: int, y: int) -> bool {
    &&& in_map(x + shape[0].0, y + shape[0].1)
    &&& in_map(x + shape[1].0, y + shape[1].1)
    &&& in_map(x + shape[2].0, y + shape[2].1)
    &&& in_map(x + shape[3].0, y + shape[3].1)
}

/// Whether `shape`, anchored at column `x`, row `y`, fits: each of its four
/// cells is on the board and empty.
pub open spec fn fits(g: Grid, shape: [(i8, i8); 4], x: int, y: int) -> bool {
    &&& free(g, x + shape[0].0, y + shape[0].1)
    &&& free(g, x + shape[1].0, y + shape[1].1)
    &&& free(g, x + shape[2].0, y + shape[2].1)
    &&& free(g, x + shape[3].0, y + shape[3].1)
}

/// The row at which `shape` comes to rest when it is let fall from row `y`
/// in column `x`: the first row at or below `y` from which one more step
/// down does not fit.
pub open spec fn drop_row(g: Grid, shape: [(i8, i8); 4], x: int, y: int) -> int
    decreases BOARD_HEIGHT + 128 - y,
{
    if fits(g, shape, x, y + 1) {
        drop_row(g, shape, x, y + 1)
    } else {
        y
    }
}

/// Falling from a row ends at or below it, on a row from which the next row
/// does not fit; every row passed on the way fits, and so does the row of
/// rest if the row of the start did.
pub proof fn lemma_drop_row(g: Grid, shape: [(i8, i8); 4], x: int, y: int)
    ensures
        drop_row(g, shape, x, y) >= y,
        !fits(g, shape, x, drop_row(g, shape, x, y) + 1),
        forall|row: int| y < row <= drop_row(g, shape, x, y) ==> fits(g, shape, x, row),
        fits(g, shape, x, y) ==> fits(g, shape, x, drop_row(g, shape, x, y)),
    decreases BOARD_HEIGHT + 128 - y,
{
    if fits(g, shape, x, y + 1) {
        lemma_drop_row(g, shape, x, y + 1);
    }
}

/// Whether `shape`, anchored at column `x`, row `y`, covers the cell at
/// column `c`, row `r`.
pub open spec fn covers(shape: [(i8, i8); 4], x: int, y: int, c: int, r: int) -> bool {
    ||| (c == x + shape[0].0 && r == y + shape[0].1)
    ||| (c == x + shape[1].0 && r == y + shape[1].1)
    ||| (c == x + shape[2].0 && r == y + shape[2].1)
    ||| (c == x + shape[3].0 && r == y + shape[3].1)
}

/// The grid after `shape`, anchored at column `x`, row `y`, is locked onto it
/// in `color`: the covered cells take the colour, every other cell stays.
pub open spec fn locked(g: Grid, shape: [(i8, i8); 4], x: int, y: int, color: PieceColor) -> Grid {
    Seq::new(
        BOARD_HEIGHT as nat,
        |r: int|
            Seq::new(
                BOARD_WIDTH as nat,
                |c: int|
                    if covers(shape, x, y, c, r) {
                        color
                    } else {
                        g[r][c]
                    },
            ),
    )
}

/// A row without a colour in it.
pub open spec fn empty_row() -> Seq<PieceColor> {
    Seq::new(BOARD_WIDTH as nat, |x: int| PieceColor::Empty)
}

/// The grid of a board on which nothing was locked yet.
pub open spec fn empty_grid() -> Grid {
    Seq::new(BOARD_HEIGHT as nat, |y: int| empty_row())
}

/// Whether every cell of the row holds a colour.
pub open spec fn row_full(row: Seq<PieceColor>) -> bool {
    forall|x: int| 0 <= x < BOARD_WIDTH ==> #[trigger] row[x] != PieceColor::Empty
}

/// The rows among the first `n` of `g` that are not full, in their order.
pub open spec fn kept_rows(g: Grid, n: nat) -> Grid
    decreases n,
{
    if n == 0 {
        Seq::empty()
    } else if row_full(g[n - 1]) {
        kept_rows(g, (n - 1) as nat)
    } else {
        kept_rows(g, (n - 1) as nat).push(g[n - 1])
    }
}

/// How many of the first `n` rows of `g` are full.
pub open spec fn full_rows_among(g: Grid, n: nat) -> nat {
    (n - kept_rows(g, n).len()) as nat
}

/// How many rows of `g` are full.
pub open spec fn full_rows(g: Grid) -> nat {
    full_rows_among(g, g.len())
}

/// The first `n` rows of `g` once its full rows among them are cleared: an
/// empty row enters at the top for each full row, and the rows that remain
/// keep their order beneath.
pub open spec fn cleared_among(g: Grid, n: nat) -> Grid {
    Seq::new(full_rows_among(g, n), |i: int| empty_row()) + kept_rows(g, n)
}

/// The grid once its full rows are cleared.
pub open spec fn cleared(g: Grid) -> Grid {
    cleared_among(g, g.len())
}

/// No more rows are kept than were looked at.
pub proof fn lemma_kept_rows_len(g: Grid, n: nat)
    ensures
        kept_rows(g, n).len() <= n,
        cleared_among(g, n).len() == n,
    decreases n,
{
    if n > 0 {
        lemma_kept_rows_len(g, (n - 1) as nat);
    }
}

/// Whether row `r` is the one full row of the grid.
pub open spec fn only_full_row(g: Grid, r: int) -> bool {
    &&& 0 <= r < BOARD_HEIGHT
    &&& forall|y: int| 0 <= y < BOARD_HEIGHT ==> (row_full(#[trigger] g[y]) <==> y == r)
}

/// Whether `after` is `before` with row `r` taken out: the top row is
/// empty, every row down to row `r` is the row that stood above it, and the
/// rows beneath row `r` are as they were.
pub open spec fn row_taken_out(before: Grid, after: Grid, r: int) -> bool {
    &&& after.len() == BOARD_HEIGHT
    &&& after[0] == empty_row()
    &&& forall|y: int| 0 < y <= r ==> #[trigger] after[y] == before[y - 1]
    &&& forall|y: int| r < y < BOARD_HEIGHT ==> #[trigger] after[y] == before[y]
}

/// Clearing a grid with exactly one full row, at row `r`: that row is gone,
/// every row above it has moved down by one, the top row is empty, the rows
/// beneath it stay, and one row is counted.
pub proof fn lemma_clear_single_row(g: Grid, r: int)
    requires
        well_formed(g),
        0 <= r < BOARD_HEIGHT,
        forall|y: int| 0 <= y < BOARD_HEIGHT ==> (row_full(#[trigger] g[y]) <==> y == r),
    ensures
        full_rows(g) == 1,
        cleared(g).len() == BOARD_HEIGHT,
        cleared(g)[0] == empty_row(),
        forall|y: int| 0 < y <= r ==> cleared(g)[y] == g[y - 1],
        forall|y: int| r < y < BOARD_HEIGHT ==> cleared(g)[y] == g[y],
{
    lemma_kept_rows_single(g, r, BOARD_HEIGHT as nat);
}

/// The rows kept among the first `n` of a grid whose only full row is row
/// `r`: all of them up to row `r`, and all but row `r` from there on.
proof fn lemma_kept_rows_single(g: Grid, r: int, n: nat)
    requires
        well_formed(g),
        0 <= r < BOARD_HEIGHT,
        n <= BOARD_HEIGHT,
        forall|y: int| 0 <= y < BOARD_HEIGHT ==> (row_full(#[trigger] g[y]) <==> y == r),
    ensures
        n <= r ==> kept_rows(g, n) == g.subrange(0, n as int),
        n > r ==> kept_rows(g, n) == g.subrange(0, r) + g.subrange(r + 1, n as int),
    decreases n,
{
    if n > 0 {
        lemma_kept_rows_single(g, r, (n - 1) as nat);
        if n <= r {
            assert(g.subrange(0, n as int) =~= g.subrange(0, n - 1).push(g[n - 1]));
        } else if n == r + 1 {
            assert(g.subrange(0, r) + g.subrange(r + 1, n as int) =~= g.subrange(0, n - 1));
        } else {
            assert(g.subrange(0, r) + g.subrange(r + 1, n as int) =~= (g.subrange(0, r)
                + g.subrange(r + 1, n - 1)).push(g[n - 1]));
        }
    } else {
        assert(g.subrange(0, 0) =~= Seq::<Seq<PieceColor>>::empty());
    }
}

/// A row without a colour in it.
fn blank_row() -> (row: [PieceColor; BOARD_WIDTH])
    ensures
        row@ == empty_row(),
{
    let mut row = [PieceColor::Empty; BOARD_WIDTH];
    let mut x: usize = 0;
    while x < BOARD_WIDTH
        invariant
            0 <= x <= BOARD_WIDTH,
            forall|c: int| 0 <= c < x ==> row[c] == PieceColor::Empty,
        decreases BOARD_WIDTH - x,
    {
        row[x] = PieceColor::Empty;
        x += 1;
    }
    assert(row@ =~= empty_row());
    row
}

/// A board without a colour on it.
pub fn empty_board() -> (board: TetrisBoard)
    ensures
        grid(board) == empty_grid(),
{
    let row = blank_row();
    let mut board = [row; BOARD_HEIGHT];
    let mut y: usize = 0;
    while y < BOARD_HEIGHT
        invariant
            0 <= y <= BOARD_HEIGHT,
            row@ == empty_row(),
            forall|r: int| 0 <= r < y ==> board[r] == row,
        decreases BOARD_HEIGHT - y,
    {
        board[y] = row;
        y += 1;
    }
    assert(grid(board) =~= empty_grid());
    board
}

/// Writes `color` into the cell at column `x`, row `y`.
fn paint(board: &mut TetrisBoard, x: i64, y: i64, color: PieceColor)
    requires
        in_map(x as int, y as int),
    ensures
        grid(*final(board)) == Seq::new(
            BOARD_HEIGHT as nat,
            |r: int|
                Seq::new(
                    BOARD_WIDTH as nat,
                    |c: int|
                        if c == x && r == y {
                            color
                        } else {
                            grid(*old(board))[r][c]
                        },
                ),
        ),
{
    board[y as usize][x as usize] = color;
    assert(grid(*board) =~~= Seq::new(
        BOARD_HEIGHT as nat,
        |r: int|
            Seq::new(
                BOARD_WIDTH as nat,
                |c: int|
                    if c == x && r == y {
                        color
                    } else {
                        grid(*old(board))[r][c]
                    },
            ),
    ));
}

/// The board with `piece`, anchored at `pos`, locked onto it: the four cells
/// that the piece covers take its colour. The board is taken by value, so
/// the caller's own board stays as it was.
pub fn with_locked(board: TetrisBoard, pos: [i32; 2], piece: &Piece) -> (after: TetrisBoard)
    requires
        inside(piece.shape, pos[0] as int, pos[1] as int),
    ensures
        grid(after) == locked(grid(board), piece.shape, pos[0] as int, pos[1] as int, piece.color),
{
    let mut after = board;
    let color = piece.color;
    let px: i64 = pos[0] as i64;
    let py: i64 = pos[1] as i64;
    paint(&mut after, px + piece.shape[0].0 as i64, py + piece.shape[0].1 as i64, color);
    paint(&mut after, px + piece.shape[1].0 as i64, py + piece.shape[1].1 as i64, color);
    paint(&mut after, px + piece.shape[2].0 as i64, py + piece.shape[2].1 as i64, color);
    paint(&mut after, px + piece.shape[3].0 as i64, py + piece.shape[3].1 as i64, color);
    assert(grid(after) =~~= locked(
        grid(board),
        piece.shape,
        pos[0] as int,
        pos[1] as int,
        piece.color,
    ));
    after
}

/// Whether every cell of the row holds a colour.
pub fn row_is_full(row: &[PieceColor; BOARD_WIDTH]) -> (full: bool)
    ensures
        full == row_full(row@),
{
    let mut x: usize = 0;
    while x < BOARD_WIDTH
        invariant
            0 <= x <= BOARD_WIDTH,
            forall|c: int| 0 <= c < x ==> row@[c] != PieceColor::Empty,
        decreases BOARD_WIDTH - x,
    {
        if row[x] == PieceColor::Empty {
            return false;
        }
        x += 1;
    }
    true
}

/// Moves the rows above row `y` down by one, over row `y`, and lets an empty
/// row in at the top.
fn drop_rows_onto(board: &mut TetrisBoard, y: usize)
    requires
        y < BOARD_HEIGHT,
    ensures
        grid(*final(board)) == seq![empty_row()] + grid(*old(board)).subrange(0, y as int) + grid(
            *old(board),
        ).subrange(y + 1, BOARD_HEIGHT as int),
{
    let ghost before = *board;
    let mut j: usize = y;
    while j > 0
        invariant
            0 <= j <= y < BOARD_HEIGHT,
            forall|r: int| 0 <= r <= j ==> board[r] == before[r],
            forall|r: int| j < r <= y ==> board[r] == before[r - 1],
            forall|r: int| y < r < BOARD_HEIGHT ==> board[r] == before[r],
        decreases j,
    {
        board[j] = board[j - 1];
        j -= 1;
    }
    board[0] = blank_row();
    assert(grid(*board) =~= seq![empty_row()] + grid(before).subrange(0, y as int) + grid(
        before,
    ).subrange(y + 1, BOARD_HEIGHT as int));
}

/// Clears the full rows of the board, from the top down: each is removed,
/// the rows above it move down by one and an empty row enters at the top.
/// Returns how many rows were cleared.
pub fn clear_lines(board: &mut TetrisBoard) -> (count: u32)
    ensures
        grid(*final(board)) == cleared(grid(*old(board))),
        count == full_rows(grid(*old(board))),
        count <= BOARD_HEIGHT,
        forall|r: int| #[trigger]
            only_full_row(grid(*old(board)), r) ==> count == 1 && row_taken_out(
                grid(*old(board)),
                grid(*final(board)),
                r,
            ),
{
    let ghost before = grid(*board);
    let mut count: u32 = 0;
    let mut y: usize = 0;
    while y < BOARD_HEIGHT
        invariant
            0 <= y <= BOARD_HEIGHT,
            before.len() == BOARD_HEIGHT,
            count == full_rows_among(before, y as nat),
            count <= y,
            grid(*board).subrange(0, y as int) == cleared_among(before, y as nat),
            grid(*board).subrange(y as int, BOARD_HEIGHT as int) == before.subrange(
                y as int,
                BOARD_HEIGHT as int,
            ),
        decreases BOARD_HEIGHT - y,
    {
        let ghost current = grid(*board);
        proof {
            lemma_kept_rows_len(before, y as nat);
            lemma_kept_rows_len(before, (y + 1) as nat);
            assert(current[y as int] == current.subrange(y as int, BOARD_HEIGHT as int)[0]);
            assert(before[y as int] == before.subrange(y as int, BOARD_HEIGHT as int)[0]);
        }
        if row_is_full(&board[y]) {
            drop_rows_onto(board, y);
            count += 1;
            proof {
                let now = grid(*board);
                assert(now.subrange(0, y + 1) =~= seq![empty_row()] + current.subrange(
                    0,
                    y as int,
                ));
                assert(seq![empty_row()] + cleared_among(before, y as nat) =~= cleared_among(
                    before,
                    (y + 1) as nat,
                ));
                assert(now.subrange(y + 1, BOARD_HEIGHT as int) =~= current.subrange(
                    y as int,
                    BOARD_HEIGHT as int,
                ).subrange(1, BOARD_HEIGHT - y));
                assert(before.subrange(y + 1, BOARD_HEIGHT as int) =~= before.subrange(
                    y as int,
                    BOARD_HEIGHT as int,
                ).subrange(1, BOARD_HEIGHT - y));
            }
        } else {
            proof {
                assert(current.subrange(0, y + 1) =~= current.subrange(0, y as int).push(
                    current[y as int],
                ));
                assert(cleared_among(before, y as nat).push(before[y as int]) =~= cleared_among(
                    before,
                    (y + 1) as nat,
                ));
                assert(current.subrange(y + 1, BOARD_HEIGHT as int) =~= current.subrange(
                    y as int,
                    BOARD_HEIGHT as int,
                ).subrange(1, BOARD_HEIGHT - y));
                assert(before.subrange(y + 1, BOARD_HEIGHT as int) =~= before.subrange(
                    y as int,
                    BOARD_HEIGHT as int,
                ).subrange(1, BOARD_HEIGHT - y));
            }
        }
        y += 1;
    }
    proof {
        assert(grid(*board) =~= grid(*board).subrange(0, BOARD_HEIGHT as int));
        assert forall|r: int| #[trigger] only_full_row(before, r) implies count == 1
            && row_taken_out(before, grid(*board), r) by {
            lemma_clear_single_row(before, r);
        }
    }
    count
}

} // verus!
