//! Tetrominoes: the seven shapes and the 4x4 occupancy matrix of a piece.

use vstd::prelude::*;

verus! {

/// Side length of the square matrix that holds a piece.
pub const BLOCK_SIZE: usize = 4;

/// Number of tetromino variants.
pub const SHAPE_COUNT: i32 = 7;

/// The seven tetromino variants.
#[derive(Clone, Copy, Debug, PartialEq, Eq, Structural)]
pub enum Shape {
    I,
    J,
    L,
    O,
    S,
    T,
    Z,
}

/// Occupancy matrix of a piece, row-major: `cells[i][j]` is the sub-cell in
/// row `i` (downwards) and column `j` (rightwards) relative to the anchor.
#[derive(Clone, Copy, Debug)]
pub struct Block {
    pub cells: [[bool; BLOCK_SIZE]; BLOCK_SIZE],
}

impl View for Block {
    type V = Seq<Seq<bool>>;

    open spec fn view(&self) -> Seq<Seq<bool>> {
        Seq::new(BLOCK_SIZE as nat, |i: int| self.cells[i]@)
    }
}

/// Whether sub-cell (`i`, `j`) belongs to `shape` in its spawn orientation.
pub open spec fn shape_cell(shape: Shape, i: int, j: int) -> bool {
    match shape {
        Shape::I => i == 1 && 0 <= j < 4,
        Shape::J => (i == 0 && j == 0) || (i == 1 && 0 <= j < 3),
        Shape::L => (i == 0 && j == 2) || (i == 1 && 0 <= j < 3),
        Shape::O => 0 <= i < 2 && 0 <= j < 2,
        Shape::S => (i == 0 && 1 <= j < 3) || (i == 1 && 0 <= j < 2),
        Shape::T => (i == 0 && j == 1) || (i == 1 && 0 <= j < 3),
        Shape::Z => (i == 0 && 0 <= j < 2) || (i == 1 && 1 <= j < 3),
    }
}

/// The matrix of `shape` in its spawn orientation.
pub open spec fn shape_matrix(shape: Shape) -> Seq<Seq<bool>> {
    Seq::new(BLOCK_SIZE as nat, |i: int| Seq::new(BLOCK_SIZE as nat, |j: int| shape_cell(shape, i, j)))
}

/// A square matrix of side `BLOCK_SIZE`.
pub open spec fn is_block(m: Seq<Seq<bool>>) -> bool {
    &&& m.len() == BLOCK_SIZE
    &&& forall|i: int| 0 <= i < BLOCK_SIZE ==> (#[trigger] m[i]).len() == BLOCK_SIZE
}

/// Whether the matrix has an occupied sub-cell.
pub open spec fn has_cell(m: Seq<Seq<bool>>) -> bool {
    exists|i: int, j: int| 0 <= i < BLOCK_SIZE && 0 <= j < BLOCK_SIZE && #[trigger] m[i][j]
}

/// The matrix turned by a quarter: entry (`i`, `j`) of the result is entry
/// (`BLOCK_SIZE - 1 - j`, `i`) of `m`.
pub open spec fn rotated(m: Seq<Seq<bool>>) -> Seq<Seq<bool>> {
    Seq::new(
        BLOCK_SIZE as nat,
        |i: int| Seq::new(BLOCK_SIZE as nat, |j: int| m[BLOCK_SIZE - 1 - j][i]),
    )
}

/// The shape with the given number, counting I, J, L, O, S, T, Z from 0.
pub open spec fn shape_of_index(index: int) -> Option<Shape> {
    if index == 0 {
        Some(Shape::I)
    } else if index == 1 {
        Some(Shape::J)
    } else if index == 2 {
        Some(Shape::L)
    } else if index == 3 {
        Some(Shape::O)
    } else if index == 4 {
        Some(Shape::S)
    } else if index == 5 {
        Some(Shape::T)
    } else if index == 6 {
        Some(Shape::Z)
    } else {
        None
    }
}

impl Shape {
    /// The shape with the given number, counting I, J, L, O, S, T, Z from 0.
    pub fn from_index(index: i32) -> (r: Option<Shape>)
        ensures
            r == shape_of_index(index as int),
    {
        match index {
            0 => Some(Shape::I),
            1 => Some(Shape::J),
            2 => Some(Shape::L),
            3 => Some(Shape::O),
            4 => Some(Shape::S),
            5 => Some(Shape::T),
            6 => Some(Shape::Z),
            _ => None,
        }
    }
}

impl Block {
    /// The matrix of `shape` in its spawn orientation.
    pub fn generate(shape: Shape) -> (b: Block)
        ensures
            b@ == shape_matrix(shape),
    {
        let mut cells = [[false; BLOCK_SIZE]; BLOCK_SIZE];
        match shape {
            Shape::I => {
                cells[1][0] = true;
                cells[1][1] = true;
                cells[1][2] = true;
                cells[1][3] = true;
            },
            Shape::J => {
                cells[0][0] = true;
                cells[1][0] = true;
                cells[1][1] = true;
                cells[1][2] = true;
            },
            Shape::L => {
                cells[0][2] = true;
                cells[1][0] = true;
                cells[1][1] = true;
                cells[1][2] = true;
            },
            Shape::O => {
                cells[0][0] = true;
                cells[0][1] = true;
                cells[1][0] = true;
                cells[1][1] = true;
            },
            Shape::S => {
                cells[0][1] = true;
                cells[0][2] = true;
                cells[1][0] = true;
                cells[1][1] = true;
            },
            Shape::T => {
                cells[0][1] = true;
                cells[1][0] = true;
                cells[1][1] = true;
                cells[1][2] = true;
            },
            Shape::Z => {
                cells[0][0] = true;
                cells[0][1] = true;
                cells[1][1] = true;
                cells[1][2] = true;
            },
        }
        let b = Block { cells };
        assert(b@ =~~= shape_matrix(shape));
        b
    }

    /// The block turned by a quarter. The block itself is left as it is.
    pub fn rotate(&self) -> (r: Block)
        ensures
            r@ == rotated(self@),
    {
        let mut cells = self.cells;
        for i in 0..BLOCK_SIZE
            invariant
                forall|a: int, b: int|
                    0 <= a < i && 0 <= b < BLOCK_SIZE ==> #[trigger] cells[a][b] == self.cells[BLOCK_SIZE
                        - 1 - b][a],
        {
            for j in 0..BLOCK_SIZE
                invariant
                    0 <= i < BLOCK_SIZE,
                    forall|a: int, b: int|
                        0 <= a < i && 0 <= b < BLOCK_SIZE ==> #[trigger] cells[a][b]
                            == self.cells[BLOCK_SIZE - 1 - b][a],
                    forall|b: int|
                        0 <= b < j ==> #[trigger] cells[i as int][b] == self.cells[BLOCK_SIZE - 1
                            - b][i as int],
            {
                cells[i][j] = self.cells[BLOCK_SIZE - j - 1][i];
            }
        }
        let r = Block { cells };
        assert(r@ =~~= rotated(self@));
        r
    }
}

/// Four quarter turns give the matrix back.
pub proof fn lemma_rotated_four_times(m: Seq<Seq<bool>>)
    requires
        is_block(m),
    ensures
        rotated(rotated(rotated(rotated(m)))) == m,
{
    assert(rotated(rotated(rotated(rotated(m)))) =~~= m);
}

} // verus!
