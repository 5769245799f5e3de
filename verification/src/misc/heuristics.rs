//! Four scores of a board, and the loss that weighs them. Each score counts
//! something unwelcome or welcome on the board; a vector of weights turns
//! the four into one number, and the lower that number the better the board.

use crate::tetris::board::{
    full_rows, full_rows_among, grid, kept_rows, lemma_kept_rows_len, occupied, row_full,
    row_is_full, Grid, TetrisBoard, BOARD_HEIGHT, BOARD_WIDTH,
};
use crate::tetris::piece::PieceColor;
use vstd::prelude::*;

verus! {

/// Number of scores that a board is given.
pub const N_HEURISTICS: usize = 4;

/// The first row at or below row `y` at which column `x` holds a colour, or
/// the board's height if there is none.
pub open spec fn column_top_from(g: Grid, x: int, y: int) -> int
    decreases BOARD_HEIGHT - y,
{
    if y >= BOARD_HEIGHT {
        BOARD_HEIGHT as int
    } else if occupied(g, x, y) {
        y
    } else {
        column_top_from(g, x, y + 1)
    }
}

/// The topmost row at which column `x` holds a colour, or the board's height
/// for a column without one.
pub open spec fn column_top(g: Grid, x: int) -> int {
    column_top_from(g, x, 0)
}

/// The distance between two integers.
pub open spec fn distance(a: int, b: int) -> int {
    if a >= b {
        a - b
    } else {
        b - a
    }
}

/// The sum, over the neighbouring pairs among the first `n` columns, of the
/// distance between the two column tops.
pub open spec fn roughness_among(g: Grid, n: int) -> int
    decreases n,
{
    if n <= 1 {
        0
    } else {
        roughness_among(g, n - 1) + distance(column_top(g, n - 1), column_top(g, n - 2))
    }
}

/// How jagged the skyline is: the sum over all neighbouring columns of the
/// distance between their tops.
pub open spec fn surface_roughness(g: Grid) -> int {
    roughness_among(g, BOARD_WIDTH as int)
}

/// Whether the row holds a colour somewhere.
pub open spec fn row_touched(row: Seq<PieceColor>) -> bool {
    exists|x: int| 0 <= x < BOARD_WIDTH && #[trigger] row[x] != PieceColor::Empty
}

/// The first row at or below row `y` that holds a colour, or the board's
/// height if there is none.
pub open spec fn first_touched_row_from(g: Grid, y: int) -> int
    decreases BOARD_HEIGHT - y,
{
    if y >= BOARD_HEIGHT {
        BOARD_HEIGHT as int
    } else if row_touched(g[y]) {
        y
    } else {
        first_touched_row_from(g, y + 1)
    }
}

/// How high the stack reaches, counted in rows from the floor: zero for an
/// empty board.
pub open spec fn stack_height(g: Grid) -> int {
    BOARD_HEIGHT - first_touched_row_from(g, 0)
}

/// The length of the run of empty cells in column `x` that starts at row `y`
/// and ends before the next colour or at the floor.
pub open spec fn gap_from(g: Grid, x: int, y: int) -> int
    decreases BOARD_HEIGHT - y,
{
    if y >= BOARD_HEIGHT || occupied(g, x, y) {
        0
    } else {
        1 + gap_from(g, x, y + 1)
    }
}

/// What the cell at column `x`, row `y` adds to the count of gaps: the run
/// of empty cells right beneath it if it holds a colour, nothing if not.
pub open spec fn gap_under(g: Grid, x: int, y: int) -> int {
    if occupied(g, x, y) {
        gap_from(g, x, y + 1)
    } else {
        0
    }
}

/// The gaps under the first `n` cells of row `y`.
pub open spec fn row_gaps(g: Grid, y: int, n: int) -> int
    decreases n,
{
    if n <= 0 {
        0
    } else {
        row_gaps(g, y, n - 1) + gap_under(g, n - 1, y)
    }
}

/// The gaps under the cells of the first `n` rows.
pub open spec fn gaps_among(g: Grid, n: int) -> int
    decreases n,
{
    if n <= 0 {
        0
    } else {
        gaps_among(g, n - 1) + row_gaps(g, n - 1, BOARD_WIDTH as int)
    }
}

/// The buried holes: for every cell that holds a colour, the run of empty
/// cells right beneath it, summed over the board.
pub open spec fn ceiling_gaps(g: Grid) -> int {
    gaps_among(g, BOARD_HEIGHT as int)
}

/// The four scores of a grid, in their fixed order: roughness, height,
/// full rows, gaps.
pub open spec fn scores(g: Grid) -> Seq<int> {
    seq![surface_roughness(g), stack_height(g), full_rows(g) as int, ceiling_gaps(g)]
}

/// The loss of a grid under `weights`: the sum of each score times its
/// weight.
pub open spec fn weighted_loss(weights: [i64; N_HEURISTICS], g: Grid) -> int {
    weights[0] * scores(g)[0] + weights[1] * scores(g)[1] + weights[2] * scores(g)[2] + weights[3]
        * scores(g)[3]
}

/// The topmost row at which column `x` holds a colour, or the board's height.
fn top_of_column(board: &TetrisBoard, x: usize) -> (top: usize)
    requires
        x < BOARD_WIDTH,
    ensures
        top == column_top(grid(*board), x as int),
        top <= BOARD_HEIGHT,
{
    let mut y: usize = 0;
    while y < BOARD_HEIGHT
        invariant
            0 <= y <= BOARD_HEIGHT,
            x < BOARD_WIDTH,
            column_top_from(grid(*board), x as int, y as int) == column_top(grid(*board), x as int),
        decreases BOARD_HEIGHT - y,
    {
        if board[y][x] != PieceColor::Empty {
            return y;
        }
        y += 1;
    }
    y
}

/// How jagged the skyline is: the sum over all neighbouring columns of the
/// distance between their topmost coloured rows, where a column without a
/// colour counts as reaching down to the floor.
pub fn surface_roughness_heuristic(board: &TetrisBoard) -> (score: u32)
    ensures
        score == surface_roughness(grid(*board)),
        score <= (BOARD_WIDTH - 1) * BOARD_HEIGHT,
{
    let mut prev: usize = top_of_column(board, 0);
    let mut total: u32 = 0;
    let mut x: usize = 1;
    while x < BOARD_WIDTH
        invariant
            1 <= x <= BOARD_WIDTH,
            prev == column_top(grid(*board), x - 1),
            prev <= BOARD_HEIGHT,
            total == roughness_among(grid(*board), x as int),
            total <= (x - 1) * BOARD_HEIGHT,
        decreases BOARD_WIDTH - x,
    {
        let curr: usize = top_of_column(board, x);
        let step: usize = if curr >= prev {
            curr - prev
        } else {
            prev - curr
        };
        total += step as u32;
        prev = curr;
        x += 1;
    }
    total
}

/// Whether the row holds a colour somewhere.
fn row_is_touched(row: &[PieceColor; BOARD_WIDTH]) -> (touched: bool)
    ensures
        touched == row_touched(row@),
{
    let mut x: usize = 0;
    while x < BOARD_WIDTH
        invariant
            0 <= x <= BOARD_WIDTH,
            forall|c: int| 0 <= c < x ==> row@[c] == PieceColor::Empty,
        decreases BOARD_WIDTH - x,
    {
        if row[x] != PieceColor::Empty {
            return true;
        }
        x += 1;
    }
    false
}

/// How high the stack reaches: the number of rows from the topmost row that
/// holds a colour down to the floor, zero for an empty board.
pub fn height_heuristic(board: &TetrisBoard) -> (score: u32)
    ensures
        score == stack_height(grid(*board)),
        score <= BOARD_HEIGHT,
{
    let mut y: usize = 0;
    while y < BOARD_HEIGHT
        invariant
            0 <= y <= BOARD_HEIGHT,
            first_touched_row_from(grid(*board), y as int) == first_touched_row_from(
                grid(*board),
                0,
            ),
        decreases BOARD_HEIGHT - y,
    {
        if row_is_touched(&board[y]) {
            return (BOARD_HEIGHT - y) as u32;
        }
        y += 1;
    }
    0
}

/// How many rows are full.
pub fn line_completion_heuristic(board: &TetrisBoard) -> (score: u32)
    ensures
        score == full_rows(grid(*board)),
        score <= BOARD_HEIGHT,
{
    let mut n_lines: u32 = 0;
    let mut y: usize = 0;
    while y < BOARD_HEIGHT
        invariant
            0 <= y <= BOARD_HEIGHT,
            n_lines == full_rows_among(grid(*board), y as nat),
            n_lines <= y,
        decreases BOARD_HEIGHT - y,
    {
        proof {
            let g = grid(*board);
            lemma_kept_rows_len(g, y as nat);
            lemma_kept_rows_len(g, (y + 1) as nat);
            assert(g[y as int] == board[y as int]@);
            assert(kept_rows(g, (y + 1) as nat) == if row_full(g[y as int]) {
                kept_rows(g, y as nat)
            } else {
                kept_rows(g, y as nat).push(g[y as int])
            });
        }
        if row_is_full(&board[y]) {
            n_lines += 1;
        }
        y += 1;
    }
    n_lines
}

/// The run of empty cells in column `x` that starts right beneath row `y`.
fn gap_beneath(board: &TetrisBoard, x: usize, y: usize) -> (run: u32)
    requires
        x < BOARD_WIDTH,
        y < BOARD_HEIGHT,
    ensures
        run == gap_from(grid(*board), x as int, y + 1),
        run <= BOARD_HEIGHT,
{
    let mut run: u32 = 0;
    let mut below: usize = y + 1;
    while below < BOARD_HEIGHT
        invariant
            y < below <= BOARD_HEIGHT,
            x < BOARD_WIDTH,
            run + gap_from(grid(*board), x as int, below as int) == gap_from(
                grid(*board),
                x as int,
                y + 1,
            ),
            run == below - (y + 1),
        ensures
            run == gap_from(grid(*board), x as int, y + 1),
        decreases BOARD_HEIGHT - below,
    {
        if board[below][x] != PieceColor::Empty {
            break;
        }
        run += 1;
        below += 1;
    }
    run
}

/// The buried holes: for every cell that holds a colour, the run of empty
/// cells right beneath it, up to the next colour or the floor, summed over
/// the board.
pub fn ceil_gap_heuristic(board: &TetrisBoard) -> (score: u32)
    ensures
        score == ceiling_gaps(grid(*board)),
        score <= BOARD_WIDTH * BOARD_HEIGHT * BOARD_HEIGHT,
{
    let mut total: u32 = 0;
    let mut y: usize = 0;
    while y < BOARD_HEIGHT
        invariant
            0 <= y <= BOARD_HEIGHT,
            total == gaps_among(grid(*board), y as int),
            total <= y * BOARD_WIDTH * BOARD_HEIGHT,
        decreases BOARD_HEIGHT - y,
    {
        let mut in_row: u32 = 0;
        let mut x: usize = 0;
        while x < BOARD_WIDTH
            invariant
                0 <= x <= BOARD_WIDTH,
                y < BOARD_HEIGHT,
                in_row == row_gaps(grid(*board), y as int, x as int),
                in_row <= x * BOARD_HEIGHT,
            decreases BOARD_WIDTH - x,
        {
            if board[y][x] != PieceColor::Empty {
                in_row += gap_beneath(board, x, y);
            }
            x += 1;
        }
        total += in_row;
        y += 1;
    }
    total
}

/// The four scores of a board, in their fixed order: roughness, height,
/// full rows, gaps.
pub fn heuristics(board: &TetrisBoard) -> (all: [u32; N_HEURISTICS])
    ensures
        all@.map_values(|s: u32| s as int) == scores(grid(*board)),
        forall|i: int| 0 <= i < N_HEURISTICS ==> all[i] <= 4000,
{
    let all = [
        surface_roughness_heuristic(board),
        height_heuristic(board),
        line_completion_heuristic(board),
        ceil_gap_heuristic(board),
    ];
    assert(all@.map_values(|s: u32| s as int) =~= scores(grid(*board)));
    all
}

/// One term of the loss: a weight times a score.
fn weigh(weight: i64, score: u32) -> (term: i128)
    requires
        score <= 4000,
    ensures
        term == weight * score,
        -0x2000_0000_0000_0000_0000 <= term <= 0x2000_0000_0000_0000_0000,
{
    assert(-0x2000_0000_0000_0000_0000 <= weight * score <= 0x2000_0000_0000_0000_0000)
        by (nonlinear_arith)
        requires
            -0x8000_0000_0000_0000 <= weight <= 0x8000_0000_0000_0000,
            0 <= score <= 4000,
    ;
    (weight as i128) * (score as i128)
}

/// The loss of a board under `weights`: the sum of each score times its
/// weight. The lower the loss, the better the board.
pub fn loss(weights: &[i64; N_HEURISTICS], board: &TetrisBoard) -> (total: i128)
    ensures
        total == weighted_loss(*weights, grid(*board)),
{
    let all = heuristics(board);
    proof {
        let s = all@.map_values(|s: u32| s as int);
        assert(s[0] == all[0] && s[1] == all[1] && s[2] == all[2] && s[3] == all[3]);
    }
    weigh(weights[0], all[0]) + weigh(weights[1], all[1]) + weigh(weights[2], all[2]) + weigh(
        weights[3],
        all[3],
    )
}

} // verus!
