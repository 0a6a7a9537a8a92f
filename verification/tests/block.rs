use tetris::block::{Block, Shape, BLOCK_SIZE, SHAPE_COUNT};

const ALL_SHAPES: [Shape; 7] =
    [Shape::I, Shape::J, Shape::L, Shape::O, Shape::S, Shape::T, Shape::Z];

fn matrix(cells: [(usize, usize); 4]) -> [[bool; BLOCK_SIZE]; BLOCK_SIZE] {
    let mut m = [[false; BLOCK_SIZE]; BLOCK_SIZE];
    for (i, j) in cells {
        m[i][j] = true;
    }
    m
}

#[test]
fn block_size_is_four() {
    assert_eq!(BLOCK_SIZE, 4);
    assert_eq!(SHAPE_COUNT, 7);
}

#[test]
fn generate_i() {
    assert_eq!(Block::generate(Shape::I).cells, matrix([(1, 0), (1, 1), (1, 2), (1, 3)]));
}

#[test]
fn generate_j() {
    assert_eq!(Block::generate(Shape::J).cells, matrix([(0, 0), (1, 0), (1, 1), (1, 2)]));
}

#[test]
fn generate_l() {
    assert_eq!(Block::generate(Shape::L).cells, matrix([(0, 2), (1, 0), (1, 1), (1, 2)]));
}

#[test]
fn generate_o() {
    assert_eq!(Block::generate(Shape::O).cells, matrix([(0, 0), (0, 1), (1, 0), (1, 1)]));
}

#[test]
fn generate_s() {
    assert_eq!(Block::generate(Shape::S).cells, matrix([(0, 1), (0, 2), (1, 0), (1, 1)]));
}

#[test]
fn generate_t() {
    assert_eq!(Block::generate(Shape::T).cells, matrix([(0, 1), (1, 0), (1, 1), (1, 2)]));
}

#[test]
fn generate_z() {
    assert_eq!(Block::generate(Shape::Z).cells, matrix([(0, 0), (0, 1), (1, 1), (1, 2)]));
}

#[test]
fn every_shape_has_four_cells() {
    for shape in ALL_SHAPES {
        let block = Block::generate(shape);
        let count = block.cells.iter().flatten().filter(|c| **c).count();
        assert_eq!(count, 4);
    }
}

#[test]
fn from_index_counts_the_shapes_from_zero() {
    assert_eq!(Shape::from_index(0), Some(Shape::I));
    assert_eq!(Shape::from_index(1), Some(Shape::J));
    assert_eq!(Shape::from_index(2), Some(Shape::L));
    assert_eq!(Shape::from_index(3), Some(Shape::O));
    assert_eq!(Shape::from_index(4), Some(Shape::S));
    assert_eq!(Shape::from_index(5), Some(Shape::T));
    assert_eq!(Shape::from_index(6), Some(Shape::Z));
}

#[test]
fn from_index_knows_no_other_number() {
    assert_eq!(Shape::from_index(7), None);
    assert_eq!(Shape::from_index(-1), None);
    assert_eq!(Shape::from_index(i32::MAX), None);
    assert_eq!(Shape::from_index(i32::MIN), None);
}

#[test]
fn rotate_follows_the_index_rule() {
    let mut cells = [[false; BLOCK_SIZE]; BLOCK_SIZE];
    cells[0][1] = true;
    cells[2][3] = true;
    cells[3][0] = true;
    let block = Block { cells };
    let turned = block.rotate();
    for i in 0..BLOCK_SIZE {
        for j in 0..BLOCK_SIZE {
            assert_eq!(turned.cells[i][j], cells[BLOCK_SIZE - 1 - j][i]);
        }
    }
    // the block itself is not touched
    assert_eq!(block.cells, cells);
}

#[test]
fn rotate_i_once_stands_upright_in_column_two() {
    let turned = Block::generate(Shape::I).rotate();
    assert_eq!(turned.cells, matrix([(0, 2), (1, 2), (2, 2), (3, 2)]));
}

#[test]
fn rotate_t_once() {
    // T: (0,1),(1,0),(1,1),(1,2); a cell (a,b) goes to (b, 3-a)
    let turned = Block::generate(Shape::T).rotate();
    assert_eq!(turned.cells, matrix([(1, 3), (0, 2), (1, 2), (2, 2)]));
}

#[test]
fn rotate_four_times_is_identity_for_every_shape() {
    for shape in ALL_SHAPES {
        let block = Block::generate(shape);
        let back = block.rotate().rotate().rotate().rotate();
        assert_eq!(back.cells, block.cells);
    }
}

#[test]
fn rotate_four_times_is_identity_for_every_matrix_of_two_rows() {
    // all 256 fillings of the two upper rows, mirrored into the lower ones
    for bits in 0u32..256 {
        let mut cells = [[false; BLOCK_SIZE]; BLOCK_SIZE];
        for k in 0..8 {
            let on = bits & (1 << k) != 0;
            cells[k / 4][k % 4] = on;
            cells[3 - k / 4][k % 4] = on && k % 3 == 0;
        }
        let block = Block { cells };
        assert_eq!(block.rotate().rotate().rotate().rotate().cells, cells);
    }
}

#[test]
fn rotate_twice_is_a_half_turn() {
    let block = Block::generate(Shape::L);
    let half = block.rotate().rotate();
    for i in 0..BLOCK_SIZE {
        for j in 0..BLOCK_SIZE {
            assert_eq!(half.cells[i][j], block.cells[BLOCK_SIZE - 1 - i][BLOCK_SIZE - 1 - j]);
        }
    }
}

#[test]
fn rotate_empty_matrix_stays_empty() {
    let block = Block { cells: [[false; BLOCK_SIZE]; BLOCK_SIZE] };
    assert_eq!(block.rotate().cells, [[false; BLOCK_SIZE]; BLOCK_SIZE]);
}
