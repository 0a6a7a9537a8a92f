//! The playing field: a fixed grid of occupied cells, placement checks,
//! locking of a piece and removal of completed lines.

use vstd::prelude::*;
use crate::block::{Block, BLOCK_SIZE};

verus! {

/// Number of columns of the playing field.
pub const SCREEN_WIDTH: usize = 12;

/// Number of rows of the playing field.
pub const SCREEN_HEIGHT: usize = 20;

/// The grid, row-major from the top: `cells[y][x]` is true when the cell in
/// row `y` and column `x` is occupied.
#[derive(Clone, Copy, Debug)]
pub struct Board {
    pub cells: [[bool; SCREEN_WIDTH]; SCREEN_HEIGHT],
}

impl View for Board {
    type V = Seq<Seq<bool>>;

    open spec fn view(&self) -> Seq<Seq<bool>> {
        Seq::new(SCREEN_HEIGHT as nat, |y: int| self.cells[y]@)
    }
}

/// A grid of `SCREEN_HEIGHT` rows of `SCREEN_WIDTH` cells.
pub open spec fn is_board(board: Seq<Seq<bool>>) -> bool {
    &&& board.len() == SCREEN_HEIGHT
    &&& forall|y: int| 0 <= y < SCREEN_HEIGHT ==> (#[trigger] board[y]).len() == SCREEN_WIDTH
}

/// A row without any occupied cell.
pub open spec fn empty_row() -> Seq<bool> {
    Seq::new(SCREEN_WIDTH as nat, |x: int| false)
}

/// The grid without any occupied cell.
pub open spec fn empty_board() -> Seq<Seq<bool>> {
    Seq::new(SCREEN_HEIGHT as nat, |y: int| empty_row())
}

/// Whether a piece cell may not be at column `x`, row `y`: the column is off
/// the field, the row is below it, or the cell is on the field and occupied.
/// Rows above the field block nothing.
pub open spec fn cell_blocked(board: Seq<Seq<bool>>, x: int, y: int) -> bool {
    x < 0 || x >= SCREEN_WIDTH || y >= SCREEN_HEIGHT || (y >= 0 && board[y][x])
}

/// Whether `block`, anchored at column `x` and row `y`, has no sub-cell at a
/// blocked position. Sub-cell (`i`, `j`) lies at column `x + j`, row `y + i`.
pub open spec fn placement_valid(board: Seq<Seq<bool>>, x: int, y: int, block: Seq<Seq<bool>>) -> bool {
    forall|i: int, j: int|
        0 <= i < BLOCK_SIZE && 0 <= j < BLOCK_SIZE && #[trigger] block[i][j] ==> !cell_blocked(
            board,
            x + j,
            y + i,
        )
}

/// Whether every sub-cell of `block`, anchored at (`x`, `y`), lies on the field.
pub open spec fn placement_on_field(x: int, y: int, block: Seq<Seq<bool>>) -> bool {
    forall|i: int, j: int|
        0 <= i < BLOCK_SIZE && 0 <= j < BLOCK_SIZE && #[trigger] block[i][j] ==> 0 <= x + j
            < SCREEN_WIDTH && 0 <= y + i < SCREEN_HEIGHT
}

/// Whether `block`, anchored at (`x`, `y`), has a sub-cell at column `cx`, row `cy`.
pub open spec fn covers(block: Seq<Seq<bool>>, x: int, y: int, cx: int, cy: int) -> bool {
    0 <= cy - y < BLOCK_SIZE && 0 <= cx - x < BLOCK_SIZE && block[cy - y][cx - x]
}

/// The grid after `block`, anchored at (`x`, `y`), has been locked into it:
/// a cell is occupied when it was occupied or the block covers it.
pub open spec fn locked(board: Seq<Seq<bool>>, block: Seq<Seq<bool>>, x: int, y: int) -> Seq<Seq<bool>> {
    Seq::new(
        SCREEN_HEIGHT as nat,
        |cy: int| Seq::new(SCREEN_WIDTH as nat, |cx: int| board[cy][cx] || covers(block, x, y, cx, cy)),
    )
}

/// A placement with a sub-cell at a blocked position is not valid: the
/// sub-cell is off the field to the left or right, below the field, or on an
/// occupied cell of the field.
pub proof fn lemma_blocked_cell_rejects(
    board: Seq<Seq<bool>>,
    x: int,
    y: int,
    block: Seq<Seq<bool>>,
    i: int,
    j: int,
)
    requires
        0 <= i < BLOCK_SIZE,
        0 <= j < BLOCK_SIZE,
        block[i][j],
        x + j < 0 || x + j >= SCREEN_WIDTH || y + i >= SCREEN_HEIGHT || (y + i >= 0 && board[y + i][x
            + j]),
    ensures
        !placement_valid(board, x, y, block),
{
}

impl Board {
    /// The empty field.
    pub fn new() -> (b: Board)
        ensures
            b@ == empty_board(),
    {
        let b = Board { cells: [[false; SCREEN_WIDTH]; SCREEN_HEIGHT] };
        assert(b@ =~~= empty_board());
        b
    }

    /// Whether the cell in column `x`, row `y` is occupied.
    pub fn occupied(&self, x: i32, y: i32) -> (r: bool)
        requires
            0 <= x < SCREEN_WIDTH,
            0 <= y < SCREEN_HEIGHT,
        ensures
            r == self@[y as int][x as int],
    {
        self.cells[y as usize][x as usize]
    }

    /// Whether `block` may be placed with its anchor at column `x`, row `y`.
    pub fn is_movable(&self, x: i32, y: i32, block: &Block) -> (r: bool)
        ensures
            r == placement_valid(self@, x as int, y as int, block@),
    {
        for i in 0..BLOCK_SIZE
            invariant
                forall|a: int, b: int|
                    0 <= a < i && 0 <= b < BLOCK_SIZE && #[trigger] block@[a][b] ==> !cell_blocked(
                        self@,
                        x + b,
                        y + a,
                    ),
        {
            for j in 0..BLOCK_SIZE
                invariant
                    0 <= i < BLOCK_SIZE,
                    forall|a: int, b: int|
                        0 <= a < i && 0 <= b < BLOCK_SIZE && #[trigger] block@[a][b]
                            ==> !cell_blocked(self@, x + b, y + a),
                    forall|b: int|
                        0 <= b < j && #[trigger] block@[i as int][b] ==> !cell_blocked(
                            self@,
                            x + b,
                            y + i,
                        ),
            {
                if block.cells[i][j] {
                    let new_x: i64 = x as i64 + j as i64;
                    let new_y: i64 = y as i64 + i as i64;
                    if new_x < 0 || new_x >= SCREEN_WIDTH as i64 || new_y >= SCREEN_HEIGHT as i64 || (
                    new_y >= 0 && self.cells[new_y as usize][new_x as usize]) {
                        assert(block@[i as int][j as int]);
                        return false;
                    }
                }
            }
        }
        true
    }

    /// Marks every cell that `block`, anchored at (`x`, `y`), covers as
    /// occupied. Nothing is checked for overlap.
    pub fn lock(&mut self, block: &Block, x: i32, y: i32)
        requires
            placement_on_field(x as int, y as int, block@),
        ensures
            final(self)@ == locked(old(self)@, block@, x as int, y as int),
    {
        for i in 0..BLOCK_SIZE
            invariant
                placement_on_field(x as int, y as int, block@),
                forall|cy: int, cx: int|
                    0 <= cy < SCREEN_HEIGHT && 0 <= cx < SCREEN_WIDTH ==> #[trigger] self@[cy][cx] == (
                    old(self)@[cy][cx] || (covers(block@, x as int, y as int, cx, cy) && cy - y < i)),
        {
            for j in 0..BLOCK_SIZE
                invariant
                    0 <= i < BLOCK_SIZE,
                    placement_on_field(x as int, y as int, block@),
                    forall|cy: int, cx: int|
                        0 <= cy < SCREEN_HEIGHT && 0 <= cx < SCREEN_WIDTH ==> #[trigger] self@[cy][cx]
                            == (old(self)@[cy][cx] || (covers(block@, x as int, y as int, cx, cy) && (cy
                            - y < i || (cy - y == i && cx - x < j)))),
            {
                let ghost before = self@;
                assert(block@[i as int][j as int] == block.cells[i as int][j as int]);
                if block.cells[i][j] {
                    let cx: usize = (x + j as i32) as usize;
                    let cy: usize = (y + i as i32) as usize;
                    self.cells[cy][cx] = true;
                    assert(self@ =~~= before.update(
                        y + i,
                        before[y + i].update(x + j, true),
                    ));
                }
                assert forall|cy: int, cx: int|
                    0 <= cy < SCREEN_HEIGHT && 0 <= cx < SCREEN_WIDTH implies #[trigger] self@[cy][cx]
                    == (old(self)@[cy][cx] || (covers(block@, x as int, y as int, cx, cy) && (cy - y
                    < i || (cy - y == i && cx - x < j + 1)))) by {
                    assert(before[cy][cx] == (old(self)@[cy][cx] || (covers(
                        block@,
                        x as int,
                        y as int,
                        cx,
                        cy,
                    ) && (cy - y < i || (cy - y == i && cx - x < j)))));
                }
            }
        }
        assert(self@ =~~= locked(old(self)@, block@, x as int, y as int));
    }
}

} // verus!
