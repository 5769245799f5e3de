//! Pieces: four cells around an anchor, a turning centre and a colour.

use crate::misc::sampling::choose_one;
use rand::rngs::SmallRng;
use vstd::prelude::*;

verus! {

/// What a board cell holds: nothing, or the colour of the piece that was
/// locked there. The rules of the game only ever ask whether a cell is empty.
#[derive(Clone, Copy, PartialEq, Eq, Structural, Debug)]
pub enum PieceColor {
    Teal,
    Blue,
    Orange,
    Yellow,
    Green,
    Purple,
    Red,
    Empty,
}

impl PieceColor {
    /// The colour as a packed `0xRRGGBB` value.
    pub open spec fn rgb(self) -> u32 {
        match self {
            PieceColor::Teal => 0x008080,
            PieceColor::Blue => 0x0341AE,
            PieceColor::Orange => 0xFF971C,
            PieceColor::Yellow => 0xFFD500,
            PieceColor::Green => 0x72CB3B,
            PieceColor::Purple => 0x800080,
            PieceColor::Red => 0xFF3213,
            PieceColor::Empty => 0,
        }
    }

    /// The colour to paint a cell with, packed as `0xRRGGBB`. An empty cell
    /// is never painted, so `Empty` has no colour to give.
    pub fn to_color(&self) -> (packed: u32)
        requires
            *self != PieceColor::Empty,
        ensures
            packed == self.rgb(),
            packed <= 0xFFFFFF,
    {
        match self {
            PieceColor::Teal => 0x008080,
            PieceColor::Blue => 0x0341AE,
            PieceColor::Orange => 0xFF971C,
            PieceColor::Yellow => 0xFFD500,
            PieceColor::Green => 0x72CB3B,
            PieceColor::Purple => 0x800080,
            PieceColor::Red => 0xFF3213,
            PieceColor::Empty => 0,
        }
    }
}

/// A piece: the offsets of its four cells from the anchor, the centre it
/// turns about and its colour.
///
/// The centre is stored in half cells, so `(3, 2)` is the point one and a
/// half cells right of the anchor and one cell below it. This keeps centres
/// that lie between cells exact.
#[derive(Clone, Copy, PartialEq, Eq, Debug)]
pub struct Piece {
    pub color: PieceColor,
    pub shape: [(i8, i8); 4],
    pub center: (i8, i8),
}

/// Number of canonical pieces.
pub const N_PIECES: usize = 7;

/// The seven canonical pieces, in their fixed order.
pub open spec fn canonical_pieces() -> Seq<Piece> {
    seq![
        Piece { color: PieceColor::Teal, shape: [(0, 0), (1, 0), (2, 0), (3, 0)], center: (4, 2) },
        Piece { color: PieceColor::Blue, shape: [(0, 0), (0, 1), (1, 1), (2, 1)], center: (2, 2) },
        Piece { color: PieceColor::Orange, shape: [(2, 0), (0, 1), (1, 1), (2, 1)], center: (4, 2) },
        Piece { color: PieceColor::Yellow, shape: [(0, 0), (1, 0), (0, 1), (1, 1)], center: (2, 2) },
        Piece { color: PieceColor::Green, shape: [(1, 0), (2, 0), (0, 1), (1, 1)], center: (2, 2) },
        Piece { color: PieceColor::Purple, shape: [(1, 0), (0, 1), (1, 1), (2, 1)], center: (2, 2) },
        Piece { color: PieceColor::Red, shape: [(0, 0), (1, 0), (1, 1), (2, 1)], center: (2, 2) },
    ]
}

/// The seven canonical pieces as an array.
pub fn pieces() -> (all: [Piece; N_PIECES])
    ensures
        all@ == canonical_pieces(),
{
    let all = [
        Piece { color: PieceColor::Teal, shape: [(0, 0), (1, 0), (2, 0), (3, 0)], center: (4, 2) },
        Piece { color: PieceColor::Blue, shape: [(0, 0), (0, 1), (1, 1), (2, 1)], center: (2, 2) },
        Piece { color: PieceColor::Orange, shape: [(2, 0), (0, 1), (1, 1), (2, 1)], center: (4, 2) },
        Piece { color: PieceColor::Yellow, shape: [(0, 0), (1, 0), (0, 1), (1, 1)], center: (2, 2) },
        Piece { color: PieceColor::Green, shape: [(1, 0), (2, 0), (0, 1), (1, 1)], center: (2, 2) },
        Piece { color: PieceColor::Purple, shape: [(1, 0), (0, 1), (1, 1), (2, 1)], center: (2, 2) },
        Piece { color: PieceColor::Red, shape: [(0, 0), (1, 0), (1, 1), (2, 1)], center: (2, 2) },
    ];
    assert(all@ =~= canonical_pieces());
    all
}

/// Half of `n`, rounded toward zero.
#[verifier::opaque]
pub open spec fn half_toward_zero(n: int) -> int {
    if n >= 0 {
        n / 2
    } else {
        -((-n) / 2)
    }
}

/// `n` brought into the range of an `i8`.
pub open spec fn clamp_i8(n: int) -> int {
    if n < -128 {
        -128
    } else if n > 127 {
        127
    } else {
        n
    }
}

/// Where a quarter turn about `center` (in half cells) sends `cell`, before
/// the result is clamped: the exact image, each coordinate rounded toward
/// zero.
pub open spec fn turned(cell: (int, int), center: (int, int)) -> (int, int) {
    (
        half_toward_zero(center.0 + center.1 - 2 * cell.1),
        half_toward_zero(2 * cell.0 - center.0 + center.1),
    )
}

/// Where a quarter turn about `center` sends a stored cell.
pub open spec fn turned_cell(cell: (i8, i8), center: (i8, i8)) -> (i8, i8) {
    let t = turned((cell.0 as int, cell.1 as int), (center.0 as int, center.1 as int));
    (clamp_i8(t.0) as i8, clamp_i8(t.1) as i8)
}

/// Where `turns` quarter turns about `center` send `cell` if no coordinate
/// is ever clamped.
pub open spec fn turned_by(cell: (int, int), center: (int, int), turns: nat) -> (int, int)
    decreases turns,
{
    if turns == 0 {
        cell
    } else {
        turned(turned_by(cell, center, (turns - 1) as nat), center)
    }
}

/// Whether both coordinates of the cell are in the range of an `i8`.
pub open spec fn in_range(cell: (int, int)) -> bool {
    -128 <= cell.0 <= 127 && -128 <= cell.1 <= 127
}

/// Whether the cell stays in the range of an `i8` all through four quarter
/// turns about `center`, so that no turn clamps it.
pub open spec fn turns_in_range(cell: (i8, i8), center: (i8, i8)) -> bool {
    let c = (cell.0 as int, cell.1 as int);
    let o = (center.0 as int, center.1 as int);
    in_range(turned_by(c, o, 1)) && in_range(turned_by(c, o, 2)) && in_range(turned_by(c, o, 3))
        && in_range(turned_by(c, o, 4))
}

/// Whether `a` and `b` lie within `tolerance` of each other in each
/// coordinate.
pub open spec fn within(a: (int, int), b: (int, int), tolerance: int) -> bool {
    -tolerance <= a.0 - b.0 <= tolerance && -tolerance <= a.1 - b.1 <= tolerance
}

/// A quarter turn is exact when the coordinates of the centre have an even
/// sum, and otherwise sends each coordinate to the exact image less a half
/// or plus a half.
pub proof fn lemma_turned(cell: (int, int), center: (int, int))
    ensures
        ({
            let s = center.0 + center.1;
            let d = center.1 - center.0;
            let t = turned(cell, center);
            &&& s % 2 == 0 ==> d % 2 == 0 && t == (s / 2 - cell.1, cell.0 + d / 2)
            &&& s % 2 != 0 ==> {
                &&& d % 2 != 0
                &&& (s - 1) / 2 - cell.1 <= t.0 <= (s - 1) / 2 - cell.1 + 1
                &&& cell.0 + (d - 1) / 2 <= t.1 <= cell.0 + (d - 1) / 2 + 1
            }
        }),
{
    reveal(half_toward_zero);
}

/// Four quarter turns bring a cell back to within two cells of where it
/// was, and exactly back if the two coordinates of the centre, in half
/// cells, have an even sum.
pub proof fn lemma_cell_four_turns(cell: (int, int), center: (int, int))
    ensures
        within(turned_by(cell, center, 4), cell, 2),
        (center.0 + center.1) % 2 == 0 ==> turned_by(cell, center, 4) == cell,
{
    reveal_with_fuel(turned_by, 5);
    let t1 = turned_by(cell, center, 1);
    let t2 = turned_by(cell, center, 2);
    let t3 = turned_by(cell, center, 3);
    let t4 = turned_by(cell, center, 4);
    assert(t1 == turned(cell, center) && t2 == turned(t1, center) && t3 == turned(t2, center)
        && t4 == turned(t3, center));
    lemma_turned(cell, center);
    lemma_turned(t1, center);
    lemma_turned(t2, center);
    lemma_turned(t3, center);
}

/// Half of `n`, rounded toward zero and brought into the range of an `i8`.
fn half_clamped(n: i32) -> (h: i8)
    requires
        -1024 <= n <= 1024,
    ensures
        h == clamp_i8(half_toward_zero(n as int)),
{
    reveal(half_toward_zero);
    let half: i32 = if n >= 0 {
        n / 2
    } else {
        -((-n) / 2)
    };
    if half < -128 {
        -128
    } else if half > 127 {
        127
    } else {
        half as i8
    }
}

impl Piece {
    /// The piece after one quarter turn.
    pub open spec fn rotated(self) -> Piece {
        Piece {
            color: self.color,
            shape: [
                turned_cell(self.shape[0], self.center),
                turned_cell(self.shape[1], self.center),
                turned_cell(self.shape[2], self.center),
                turned_cell(self.shape[3], self.center),
            ],
            center: self.center,
        }
    }

    /// The piece after `turns` quarter turns.
    pub open spec fn rotated_by(self, turns: nat) -> Piece
        decreases turns,
    {
        if turns == 0 {
            self
        } else {
            self.rotated_by((turns - 1) as nat).rotated()
        }
    }

    /// The cell at place `i`, with its coordinates as integers.
    pub open spec fn cell(self, i: int) -> (int, int) {
        (self.shape[i].0 as int, self.shape[i].1 as int)
    }

    /// The centre, in half cells, with its coordinates as integers.
    pub open spec fn pivot(self) -> (int, int) {
        (self.center.0 as int, self.center.1 as int)
    }

    /// Whether four quarter turns never clamp a coordinate of the piece.
    pub open spec fn turns_freely(self) -> bool {
        forall|i: int| 0 <= i < 4 ==> turns_in_range(#[trigger] self.shape[i], self.center)
    }

    /// Turning a piece four times brings it back to its shape, within the
    /// tolerance that rounding toward zero leaves: no cell ends more than
    /// two cells from where it was in either coordinate, and when the two
    /// coordinates of the centre, in half cells, have an even sum, every
    /// cell ends exactly where it was. Colour and centre never change.
    pub proof fn lemma_four_turns(self)
        requires
            self.turns_freely(),
        ensures
            self.rotated_by(4).color == self.color,
            self.rotated_by(4).center == self.center,
            forall|i: int| 0 <= i < 4 ==> within(self.rotated_by(4).cell(i), self.cell(i), 2),
            (self.center.0 + self.center.1) % 2 == 0 ==> self.rotated_by(4) == self,
    {
        reveal_with_fuel(Piece::rotated_by, 5);
        let once = self.rotated();
        let twice = once.rotated();
        let thrice = twice.rotated();
        let back = thrice.rotated();
        assert(self.rotated_by(4) == back);
        assert forall|i: int| 0 <= i < 4 implies back.cell(i) == turned_by(
            self.cell(i),
            self.pivot(),
            4,
        ) by {
            reveal_with_fuel(turned_by, 5);
            assert(turns_in_range(self.shape[i], self.center));
            self.lemma_rotated_cell(i);
            once.lemma_rotated_cell(i);
            twice.lemma_rotated_cell(i);
            thrice.lemma_rotated_cell(i);
        }
        assert forall|i: int| 0 <= i < 4 implies within(back.cell(i), self.cell(i), 2) by {
            lemma_cell_four_turns(self.cell(i), self.pivot());
        }
        if (self.center.0 + self.center.1) % 2 == 0 {
            assert forall|i: int| 0 <= i < 4 implies back.shape[i] == self.shape[i] by {
                lemma_cell_four_turns(self.cell(i), self.pivot());
                assert(back.cell(i) == self.cell(i));
            }
            assert(back.shape =~= self.shape);
        }
    }

    /// A quarter turn sends each cell to its rounded image, as long as the
    /// image is in range.
    pub proof fn lemma_rotated_cell(self, i: int)
        requires
            0 <= i < 4,
        ensures
            self.rotated().color == self.color,
            self.rotated().center == self.center,
            in_range(turned(self.cell(i), self.pivot())) ==> self.rotated().cell(i) == turned(
                self.cell(i),
                self.pivot(),
            ),
    {
    }

    /// The smallest column offset among the four cells.
    pub open spec fn min_x(self) -> int {
        let s = self.shape;
        vstd::math::min(
            vstd::math::min(s[0].0 as int, s[1].0 as int),
            vstd::math::min(s[2].0 as int, s[3].0 as int),
        )
    }

    /// The largest column offset among the four cells.
    pub open spec fn max_x(self) -> int {
        let s = self.shape;
        vstd::math::max(
            vstd::math::max(s[0].0 as int, s[1].0 as int),
            vstd::math::max(s[2].0 as int, s[3].0 as int),
        )
    }

    /// One of the seven canonical pieces, picked by the generator.
    pub fn random(rng: &mut SmallRng) -> (piece: Piece)
        ensures
            canonical_pieces().contains(piece),
    {
        let all = pieces();
        match choose_one(all.as_slice(), rng) {
            Some(piece) => piece,
            None => all[0],
        }
    }

    /// Turns the piece a quarter turn about its centre, in place. Each new
    /// coordinate is the exact image rounded toward zero, so a centre whose
    /// two coordinates sum to a whole number of cells turns the piece
    /// exactly, and any other centre may move a cell by up to half a cell.
    pub fn rotate(&mut self)
        ensures
            *final(self) == old(self).rotated(),
    {
        let cx: i32 = self.center.0 as i32;
        let cy: i32 = self.center.1 as i32;
        let ghost before = *self;
        let mut i: usize = 0;
        while i < 4
            invariant
                0 <= i <= 4,
                cx == before.center.0,
                cy == before.center.1,
                self.center == before.center,
                self.color == before.color,
                forall|k: int|
                    0 <= k < i ==> self.shape[k] == turned_cell(before.shape[k], before.center),
                forall|k: int| i <= k < 4 ==> self.shape[k] == before.shape[k],
            decreases 4 - i,
        {
            let x: i32 = self.shape[i].0 as i32;
            let y: i32 = self.shape[i].1 as i32;
            let nx: i8 = half_clamped(cx + cy - 2 * y);
            let ny: i8 = half_clamped(2 * x - cx + cy);
            self.shape[i] = (nx, ny);
            i += 1;
        }
        assert(self.shape =~= before.rotated().shape);
    }

    /// The smallest and the largest column offset of the four cells.
    pub fn x_bounds(&self) -> (bounds: (i32, i32))
        ensures
            bounds.0 == self.min_x(),
            bounds.1 == self.max_x(),
    {
        let mut xmin: i8 = self.shape[0].0;
        let mut xmax: i8 = self.shape[0].0;
        let mut i: usize = 1;
        while i < 4
            invariant
                1 <= i <= 4,
                forall|k: int| 0 <= k < i ==> xmin <= (#[trigger] self.shape[k]).0 <= xmax,
                exists|k: int| 0 <= k < i && (#[trigger] self.shape[k]).0 == xmin,
                exists|k: int| 0 <= k < i && (#[trigger] self.shape[k]).0 == xmax,
            decreases 4 - i,
        {
            let x: i8 = self.shape[i].0;
            if x < xmin {
                xmin = x;
            }
            if x > xmax {
                xmax = x;
            }
            i += 1;
        }
        (xmin as i32, xmax as i32)
    }
}

} // verus!
