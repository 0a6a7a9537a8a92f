//! The game: a playing field, the falling piece, and the transitions of one
//! frame.

use vstd::prelude::*;
use crate::block::{has_cell, is_block, rotated, shape_matrix, Block, Shape, BLOCK_SIZE};
use crate::board::{
    empty_board, is_board, locked, placement_on_field, placement_valid, Board, SCREEN_HEIGHT,
    SCREEN_WIDTH,
};
use crate::lines::{cleared, lemma_cleared_is_board};
use crate::random::random_shape;

verus! {

/// Column of the anchor of a freshly spawned piece: the piece's matrix is
/// centred on the field.
pub const SPAWN_X: i32 = (SCREEN_WIDTH / 2 - BLOCK_SIZE / 2) as i32;

/// Row of the anchor of a freshly spawned piece.
pub const SPAWN_Y: i32 = 0;

/// What the player asks for in a frame.
#[derive(Clone, Copy, Debug, PartialEq, Eq, Structural)]
pub enum Command {
    /// One column to the left.
    Left,
    /// One column to the right.
    Right,
    /// One row down.
    Down,
    /// A quarter turn.
    Rotate,
}

/// Whether the game goes on.
#[derive(Clone, Copy, Debug, PartialEq, Eq, Structural)]
pub enum GameStatus {
    /// A piece is falling.
    Running,
    /// A spawned piece found no room; nothing changes any more.
    GameOver,
}

/// The command that a key stands for.
pub open spec fn command_for_key(key: int) -> Option<Command> {
    if key == 'a' as int {
        Some(Command::Left)
    } else if key == 'd' as int {
        Some(Command::Right)
    } else if key == 's' as int {
        Some(Command::Down)
    } else if key == 'w' as int {
        Some(Command::Rotate)
    } else {
        None
    }
}

impl Command {
    /// Reads a key code: `a` moves left, `d` moves right, `s` drops by one
    /// row, `w` turns the piece. Any other code, such as the one that stands
    /// for "no key", gives no command.
    pub fn from_key(key: i32) -> (r: Option<Command>)
        ensures
            r == command_for_key(key as int),
    {
        if key == 'a' as i32 {
            Some(Command::Left)
        } else if key == 'd' as i32 {
            Some(Command::Right)
        } else if key == 's' as i32 {
            Some(Command::Down)
        } else if key == 'w' as i32 {
            Some(Command::Rotate)
        } else {
            None
        }
    }
}

/// The game as a mathematical value.
pub struct GameView {
    /// The playing field, rows from the top.
    pub board: Seq<Seq<bool>>,
    /// The matrix of the active piece.
    pub block: Seq<Seq<bool>>,
    /// Column of the piece's anchor.
    pub x: int,
    /// Row of the piece's anchor.
    pub y: int,
    /// Whether the game is over.
    pub over: bool,
}

/// What holds of every game: the grids have their sizes, the piece has a
/// cell and lies on the field, and while the game runs the piece overlaps no
/// occupied cell.
pub open spec fn consistent(g: GameView) -> bool {
    &&& is_board(g.board)
    &&& is_block(g.block)
    &&& has_cell(g.block)
    &&& g.y >= 0
    &&& placement_on_field(g.x, g.y, g.block)
    &&& !g.over ==> placement_valid(g.board, g.x, g.y, g.block)
}

/// A piece of the given shape put at the spawn position of `board`. The game
/// is over when the piece has no room there.
pub open spec fn spawned(board: Seq<Seq<bool>>, shape: Shape) -> GameView {
    GameView {
        board,
        block: shape_matrix(shape),
        x: SPAWN_X as int,
        y: SPAWN_Y as int,
        over: !placement_valid(board, SPAWN_X as int, SPAWN_Y as int, shape_matrix(shape)),
    }
}

/// The piece moved by (`dx`, `dy`) if it has room there, else the game unchanged.
pub open spec fn shifted(g: GameView, dx: int, dy: int) -> GameView {
    if placement_valid(g.board, g.x + dx, g.y + dy, g.block) {
        GameView { x: g.x + dx, y: g.y + dy, ..g }
    } else {
        g
    }
}

/// The piece turned by a quarter if it has room so, else the game unchanged.
pub open spec fn turned(g: GameView) -> GameView {
    if placement_valid(g.board, g.x, g.y, rotated(g.block)) {
        GameView { block: rotated(g.block), ..g }
    } else {
        g
    }
}

/// The game after a command. A game that is over takes no command.
pub open spec fn after_command(g: GameView, command: Command) -> GameView {
    if g.over {
        g
    } else {
        match command {
            Command::Left => shifted(g, -1, 0),
            Command::Right => shifted(g, 1, 0),
            Command::Down => shifted(g, 0, 1),
            Command::Rotate => turned(g),
        }
    }
}

/// The game after the input of a frame, which may be no command at all.
pub open spec fn after_input(g: GameView, input: Option<Command>) -> GameView {
    match input {
        Some(command) => after_command(g, command),
        None => g,
    }
}

/// The piece locked into the field, the completed lines removed, and a piece
/// of shape `next` spawned.
pub open spec fn settled(g: GameView, next: Shape) -> GameView {
    spawned(cleared(locked(g.board, g.block, g.x, g.y)), next)
}

/// The game after one frame: the input is applied, then the piece falls by
/// one row, or, where it cannot, settles and a piece of shape `next` spawns.
/// A game that is over stays as it is.
pub open spec fn after_tick(g: GameView, input: Option<Command>, next: Shape) -> GameView {
    if g.over {
        g
    } else {
        let h = after_input(g, input);
        if placement_valid(h.board, h.x, h.y + 1, h.block) {
            GameView { y: h.y + 1, ..h }
        } else {
            settled(h, next)
        }
    }
}

/// The status that goes with a game.
pub open spec fn status_of(g: GameView) -> GameStatus {
    if g.over {
        GameStatus::GameOver
    } else {
        GameStatus::Running
    }
}

/// A frame leaves a consistent game consistent, whatever the input and the
/// shape of the next piece.
pub proof fn lemma_tick_keeps_consistent(g: GameView, input: Option<Command>, next: Shape)
    requires
        consistent(g),
    ensures
        consistent(after_input(g, input)),
        consistent(after_tick(g, input, next)),
{
    let h = after_input(g, input);
    lemma_rotated_has_cell(g.block);
    assert(consistent(h));
    if !g.over && !placement_valid(h.board, h.x, h.y + 1, h.block) {
        lemma_cleared_is_board(locked(h.board, h.block, h.x, h.y));
        lemma_shape_at_spawn(next);
    }
}

/// The anchor of a piece that has a cell on the field is at most
/// `BLOCK_SIZE - 1` columns left of the field and in one of its rows.
proof fn lemma_anchor_range(g: GameView)
    requires
        consistent(g),
    ensures
        -(BLOCK_SIZE as int) < g.x < SCREEN_WIDTH,
        0 <= g.y < SCREEN_HEIGHT,
{
    let (i, j) = choose|i: int, j: int|
        0 <= i < BLOCK_SIZE && 0 <= j < BLOCK_SIZE && #[trigger] g.block[i][j];
    assert(g.block[i][j]);
}

/// A valid placement with its anchor on or below the top row lies on the field.
proof fn lemma_valid_on_field(board: Seq<Seq<bool>>, x: int, y: int, block: Seq<Seq<bool>>)
    requires
        y >= 0,
        placement_valid(board, x, y, block),
    ensures
        placement_on_field(x, y, block),
{
}

/// Every shape has a cell, lies on the field at the spawn position and has
/// room there on the empty field.
proof fn lemma_shape_at_spawn(shape: Shape)
    ensures
        is_block(shape_matrix(shape)),
        has_cell(shape_matrix(shape)),
        placement_on_field(SPAWN_X as int, SPAWN_Y as int, shape_matrix(shape)),
        placement_valid(empty_board(), SPAWN_X as int, SPAWN_Y as int, shape_matrix(shape)),
{
    assert(shape_matrix(shape)[1][1]);
}

/// A quarter turn of a matrix with a cell has a cell.
proof fn lemma_rotated_has_cell(m: Seq<Seq<bool>>)
    requires
        has_cell(m),
    ensures
        is_block(rotated(m)),
        has_cell(rotated(m)),
{
    let (i, j) = choose|i: int, j: int|
        0 <= i < BLOCK_SIZE && 0 <= j < BLOCK_SIZE && #[trigger] m[i][j];
    assert(rotated(m)[j][BLOCK_SIZE - 1 - i]);
}

/// A game of falling blocks: the field, the active piece with its anchor,
/// and whether the game is over.
pub struct TetrisGame {
    player_x: i32,
    player_y: i32,
    board: Board,
    current_block: Block,
    game_over: bool,
}

impl View for TetrisGame {
    type V = GameView;

    closed spec fn view(&self) -> GameView {
        GameView {
            board: self.board@,
            block: self.current_block@,
            x: self.player_x as int,
            y: self.player_y as int,
            over: self.game_over,
        }
    }
}

impl TetrisGame {
    #[verifier::type_invariant]
    spec fn inv(self) -> bool {
        consistent(self@)
    }

    /// Puts a piece of the given shape at the spawn position of `board`.
    /// The game is over at once when the piece has no room there.
    pub fn spawn(board: Board, shape: Shape) -> (g: TetrisGame)
        ensures
            g@ == spawned(board@, shape),
            consistent(g@),
    {
        let block = Block::generate(shape);
        let over = !board.is_movable(SPAWN_X, SPAWN_Y, &block);
        proof {
            lemma_shape_at_spawn(shape);
        }
        TetrisGame { player_x: SPAWN_X, player_y: SPAWN_Y, board, current_block: block, game_over: over }
    }

    /// A game on an empty field, with a piece of a shape drawn at random.
    pub fn new() -> (g: TetrisGame)
        ensures
            exists|shape: Shape| g@ == #[trigger] spawned(empty_board(), shape),
            !g@.over,
            consistent(g@),
    {
        let shape = random_shape();
        let g = TetrisGame::spawn(Board::new(), shape);
        proof {
            lemma_shape_at_spawn(shape);
        }
        g
    }

    /// Column of the piece's anchor.
    pub fn player_x(&self) -> (x: i32)
        ensures
            x == self@.x,
    {
        self.player_x
    }

    /// Row of the piece's anchor.
    pub fn player_y(&self) -> (y: i32)
        ensures
            y == self@.y,
    {
        self.player_y
    }

    /// The playing field, without the active piece.
    pub fn board(&self) -> (b: Board)
        ensures
            b@ == self@.board,
    {
        self.board
    }

    /// The matrix of the active piece.
    pub fn current_block(&self) -> (b: Block)
        ensures
            b@ == self@.block,
    {
        self.current_block
    }

    /// Whether the game goes on.
    pub fn status(&self) -> (s: GameStatus)
        ensures
            s == status_of(self@),
            consistent(self@),
    {
        proof {
            use_type_invariant(self);
        }
        if self.game_over {
            GameStatus::GameOver
        } else {
            GameStatus::Running
        }
    }

    /// Whether `block` may be placed on the field with its anchor at
    /// column `x`, row `y`.
    pub fn is_movable(&self, x: i32, y: i32, block: &Block) -> (r: bool)
        ensures
            r == placement_valid(self@.board, x as int, y as int, block@),
    {
        self.board.is_movable(x, y, block)
    }

    /// Turns the piece by a quarter if it has room so; else the piece stays
    /// as it is. A game that is over is not changed.
    pub fn rotate_block(&mut self)
        ensures
            final(self)@ == after_command(old(self)@, Command::Rotate),
            consistent(final(self)@),
    {
        proof {
            use_type_invariant(&*self);
        }
        if self.game_over {
            return ;
        }
        let new_block = self.current_block.rotate();
        if self.is_movable(self.player_x, self.player_y, &new_block) {
            proof {
                lemma_rotated_has_cell(self@.block);
                lemma_valid_on_field(self@.board, self@.x, self@.y, new_block@);
            }
            self.current_block = new_block;
        }
    }

    /// Carries out a command if the piece has room for it; else nothing
    /// changes. A game that is over is not changed.
    pub fn apply_command(&mut self, command: Command)
        ensures
            final(self)@ == after_command(old(self)@, command),
            consistent(final(self)@),
    {
        proof {
            use_type_invariant(&*self);
            lemma_anchor_range(self@);
        }
        if self.game_over {
            return ;
        }
        match command {
            Command::Left => {
                if self.is_movable(self.player_x - 1, self.player_y, &self.current_block) {
                    proof {
                        lemma_valid_on_field(self@.board, self@.x - 1, self@.y, self@.block);
                    }
                    self.player_x -= 1;
                }
            },
            Command::Right => {
                if self.is_movable(self.player_x + 1, self.player_y, &self.current_block) {
                    proof {
                        lemma_valid_on_field(self@.board, self@.x + 1, self@.y, self@.block);
                    }
                    self.player_x += 1;
                }
            },
            Command::Down => {
                if self.is_movable(self.player_x, self.player_y + 1, &self.current_block) {
                    proof {
                        lemma_valid_on_field(self@.board, self@.x, self@.y + 1, self@.block);
                    }
                    self.player_y += 1;
                }
            },
            Command::Rotate => {
                self.rotate_block();
            },
        }
    }

    /// Lets the piece fall by one row if it has room below. Returns whether
    /// it has landed, that is, could not fall.
    fn fall(&mut self) -> (landed: bool)
        requires
            !old(self)@.over,
        ensures
            landed == !placement_valid(
                old(self)@.board,
                old(self)@.x,
                old(self)@.y + 1,
                old(self)@.block,
            ),
            landed ==> final(self)@ == old(self)@,
            !landed ==> final(self)@ == (GameView { y: old(self)@.y + 1, ..old(self)@ }),
    {
        proof {
            use_type_invariant(&*self);
            lemma_anchor_range(self@);
        }
        if self.is_movable(self.player_x, self.player_y + 1, &self.current_block) {
            proof {
                lemma_valid_on_field(self@.board, self@.x, self@.y + 1, self@.block);
            }
            self.player_y += 1;
            false
        } else {
            true
        }
    }

    /// Locks the piece into the field, removes the completed lines and
    /// spawns a piece of shape `next`.
    fn settle(&mut self, next: Shape)
        ensures
            final(self)@ == settled(old(self)@, next),
    {
        proof {
            use_type_invariant(&*self);
        }
        let mut board = self.board;
        board.lock(&self.current_block, self.player_x, self.player_y);
        board.clear_completed_lines();
        *self = TetrisGame::spawn(board, next);
    }

    /// One frame with the shape of the next piece given: the input is
    /// applied, then the piece falls by one row; a piece that cannot fall is
    /// locked, completed lines are removed and a piece of shape `next`
    /// spawns. Returns `GameOver` when the game is over after the frame.
    pub fn advance(&mut self, input: Option<Command>, next: Shape) -> (status: GameStatus)
        ensures
            final(self)@ == after_tick(old(self)@, input, next),
            status == status_of(final(self)@),
            consistent(final(self)@),
    {
        if self.game_over {
            proof {
                use_type_invariant(&*self);
            }
            return GameStatus::GameOver;
        }
        match input {
            Some(command) => {
                self.apply_command(command);
            },
            None => {},
        }
        if self.fall() {
            self.settle(next);
        }
        proof {
            use_type_invariant(&*self);
        }
        self.status()
    }

    /// One frame, as `advance` runs it, with the shape of the next piece
    /// drawn at random when a piece is to spawn.
    pub fn tick(&mut self, input: Option<Command>) -> (status: GameStatus)
        ensures
            exists|next: Shape| final(self)@ == #[trigger] after_tick(old(self)@, input, next),
            status == status_of(final(self)@),
            consistent(final(self)@),
    {
        if self.game_over {
            proof {
                use_type_invariant(&*self);
                assert(self@ == after_tick(old(self)@, input, Shape::I));
            }
            return GameStatus::GameOver;
        }
        match input {
            Some(command) => {
                self.apply_command(command);
            },
            None => {},
        }
        if self.fall() {
            let next = random_shape();
            self.settle(next);
            assert(self@ == after_tick(old(self)@, input, next));
        } else {
            assert(self@ == after_tick(old(self)@, input, Shape::I));
        }
        proof {
            use_type_invariant(&*self);
        }
        self.status()
    }

    /// What a frame shows: the field with the cells of the active piece
    /// marked as occupied.
    pub fn frame(&self) -> (f: Board)
        ensures
            f@ == locked(self@.board, self@.block, self@.x, self@.y),
    {
        proof {
            use_type_invariant(self);
        }
        let mut board = self.board;
        board.lock(&self.current_block, self.player_x, self.player_y);
        board
    }
}

} // verus!
