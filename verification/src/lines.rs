//! Removal of completed lines from the playing field.

use vstd::prelude::*;
use crate::board::{empty_row, is_board, Board, SCREEN_HEIGHT, SCREEN_WIDTH};

verus! {

/// Whether every cell of the row is occupied.
pub open spec fn row_complete(row: Seq<bool>) -> bool {
    forall|x: int| 0 <= x < SCREEN_WIDTH ==> row[x]
}

/// The rows that a sweep keeps: those with at least one free cell.
pub open spec fn row_incomplete() -> spec_fn(Seq<bool>) -> bool {
    |row: Seq<bool>| !row_complete(row)
}

/// The grid after row `r` has been taken out: the rows above it have moved
/// down by one and the top row is empty.
pub open spec fn line_removed(board: Seq<Seq<bool>>, r: int) -> Seq<Seq<bool>> {
    Seq::new(
        SCREEN_HEIGHT as nat,
        |y: int|
            if y == 0 {
                empty_row()
            } else if y <= r {
                board[y - 1]
            } else {
                board[y]
            },
    )
}

/// The grid after every complete row has been taken out: the incomplete rows
/// in their order, at the bottom, under as many empty rows as were complete.
pub open spec fn cleared(board: Seq<Seq<bool>>) -> Seq<Seq<bool>> {
    let kept = board.filter(row_incomplete());
    Seq::new((board.len() - kept.len()) as nat, |y: int| empty_row()) + kept
}

/// Number of occupied cells of a row.
pub open spec fn row_count(row: Seq<bool>) -> nat
    decreases row.len(),
{
    if row.len() == 0 {
        0
    } else {
        row_count(row.drop_last()) + if row.last() {
            1nat
        } else {
            0nat
        }
    }
}

/// Number of occupied cells of a grid.
pub open spec fn occupied_count(board: Seq<Seq<bool>>) -> nat
    decreases board.len(),
{
    if board.len() == 0 {
        0
    } else {
        occupied_count(board.drop_last()) + row_count(board.last())
    }
}

/// Number of complete rows of a grid.
pub open spec fn complete_rows(board: Seq<Seq<bool>>) -> nat {
    (board.len() - board.filter(row_incomplete()).len()) as nat
}

impl Board {
    /// Whether every cell of row `y` is occupied.
    pub fn is_line_full(&self, y: usize) -> (r: bool)
        requires
            y < SCREEN_HEIGHT,
        ensures
            r == row_complete(self@[y as int]),
    {
        for x in 0..SCREEN_WIDTH
            invariant
                y < SCREEN_HEIGHT,
                forall|k: int| 0 <= k < x ==> self@[y as int][k],
        {
            if !self.cells[y][x] {
                return false;
            }
        }
        true
    }

    /// Takes row `r` out: every row above it moves down by one and the top
    /// row becomes empty. Of a complete row this removes `SCREEN_WIDTH`
    /// occupied cells.
    pub fn clear_line(&mut self, r: usize)
        requires
            r < SCREEN_HEIGHT,
        ensures
            final(self)@ == line_removed(old(self)@, r as int),
            r >= 1 ==> final(self)@[r as int] == old(self)@[r - 1],
            row_complete(old(self)@[r as int]) ==> occupied_count(final(self)@) + SCREEN_WIDTH
                == occupied_count(old(self)@),
    {
        let mut i: usize = r;
        while i >= 1
            invariant
                i <= r < SCREEN_HEIGHT,
                forall|y: int| 0 <= y <= i ==> #[trigger] self@[y] == old(self)@[y],
                forall|y: int| i < y <= r ==> #[trigger] self@[y] == old(self)@[y - 1],
                forall|y: int| r < y < SCREEN_HEIGHT ==> #[trigger] self@[y] == old(self)@[y],
            decreases i,
        {
            for j in 0..SCREEN_WIDTH
                invariant
                    1 <= i <= r < SCREEN_HEIGHT,
                    forall|y: int| 0 <= y < i ==> #[trigger] self@[y] == old(self)@[y],
                    forall|x: int| 0 <= x < j ==> self@[i as int][x] == old(self)@[i - 1][x],
                    forall|y: int| i < y <= r ==> #[trigger] self@[y] == old(self)@[y - 1],
                    forall|y: int| r < y < SCREEN_HEIGHT ==> #[trigger] self@[y] == old(self)@[y],
            {
                let ghost before = self@;
                self.cells[i][j] = self.cells[i - 1][j];
                assert(self@ =~~= before.update(
                    i as int,
                    before[i as int].update(j as int, before[i - 1][j as int]),
                ));
            }
            i -= 1;
        }
        for j in 0..SCREEN_WIDTH
            invariant
                r < SCREEN_HEIGHT,
                forall|x: int| 0 <= x < j ==> !self@[0][x],
                forall|y: int| 0 < y <= r ==> #[trigger] self@[y] == old(self)@[y - 1],
                forall|y: int| r < y < SCREEN_HEIGHT ==> #[trigger] self@[y] == old(self)@[y],
        {
            let ghost before = self@;
            self.cells[0][j] = false;
            assert(self@ =~~= before.update(0, before[0].update(j as int, false)));
        }
        proof {
            assert(self@[0] =~= empty_row());
            if row_complete(old(self)@[r as int]) {
                lemma_complete_line_removed(old(self)@, r as int);
            }
        }
    }

    /// Sweeps the rows from the bottom to the top and takes every complete
    /// row out. A row that has moved into the place of a removed one is
    /// tested in its turn.
    pub fn clear_completed_lines(&mut self)
        ensures
            final(self)@ == cleared(old(self)@),
            occupied_count(final(self)@) + SCREEN_WIDTH * complete_rows(old(self)@) == occupied_count(
                old(self)@,
            ),
    {
        let mut y: usize = SCREEN_HEIGHT;
        while y > 0
            invariant
                y <= SCREEN_HEIGHT,
                forall|k: int| y <= k < SCREEN_HEIGHT ==> !row_complete(#[trigger] self@[k]),
                cleared(self@) == cleared(old(self)@),
                self@.filter(row_incomplete()).len() <= SCREEN_HEIGHT,
            decreases y + SCREEN_HEIGHT - self@.filter(row_incomplete()).len(),
        {
            if self.is_line_full(y - 1) {
                proof {
                    lemma_line_removed_kept(self@, y - 1);
                }
                self.clear_line(y - 1);
            } else {
                y -= 1;
            }
        }
        proof {
            lemma_cleared_without_complete_rows(self@);
            lemma_cleared_count(old(self)@);
        }
    }
}

/// Taking a complete row out of a grid removes exactly `SCREEN_WIDTH`
/// occupied cells, and a row that was right above it takes its place.
pub proof fn lemma_complete_line_removed(board: Seq<Seq<bool>>, r: int)
    requires
        is_board(board),
        0 <= r < SCREEN_HEIGHT,
        row_complete(board[r]),
    ensures
        occupied_count(line_removed(board, r)) + SCREEN_WIDTH == occupied_count(board),
        r >= 1 ==> line_removed(board, r)[r] == board[r - 1],
{
    lemma_line_removed_count(board, r);
    lemma_row_count_uniform(board[r], true);
}

/// A sweep leaves a grid without a complete row as it is.
pub proof fn lemma_cleared_without_complete_rows(board: Seq<Seq<bool>>)
    requires
        forall|y: int| 0 <= y < board.len() ==> !row_complete(#[trigger] board[y]),
    ensures
        cleared(board) == board,
{
    lemma_filter_all_kept(board);
}

/// After a sweep no row is complete, so a second sweep changes nothing.
pub proof fn lemma_cleared_idempotent(board: Seq<Seq<bool>>)
    ensures
        forall|y: int| 0 <= y < cleared(board).len() ==> !row_complete(#[trigger] cleared(board)[y]),
        cleared(cleared(board)) == cleared(board),
{
    let kept = board.filter(row_incomplete());
    let empties = board.len() - kept.len();
    assert forall|y: int| 0 <= y < cleared(board).len() implies !row_complete(
        #[trigger] cleared(board)[y],
    ) by {
        if y < empties {
            assert(!empty_row()[0]);
        } else {
            board.lemma_filter_pred(row_incomplete(), y - empties);
        }
    }
    lemma_cleared_without_complete_rows(cleared(board));
}

/// A sweep keeps the size of the grid.
pub proof fn lemma_cleared_is_board(board: Seq<Seq<bool>>)
    requires
        is_board(board),
    ensures
        is_board(cleared(board)),
{
    let kept = board.filter(row_incomplete());
    let empties = board.len() - kept.len();
    board.lemma_filter_len(row_incomplete());
    assert forall|y: int| 0 <= y < SCREEN_HEIGHT implies (#[trigger] cleared(board)[y]).len()
        == SCREEN_WIDTH by {
        if y >= empties {
            let row = kept[y - empties];
            assert(kept.contains(row));
            board.lemma_filter_contains_rev(row_incomplete(), row);
            let k = choose|k: int| 0 <= k < board.len() && board[k] == row;
            assert(board[k].len() == SCREEN_WIDTH);
        }
    }
}

/// A sweep removes `SCREEN_WIDTH` occupied cells for each complete row.
pub proof fn lemma_cleared_count(board: Seq<Seq<bool>>)
    requires
        forall|y: int| 0 <= y < board.len() ==> (#[trigger] board[y]).len() == SCREEN_WIDTH,
    ensures
        occupied_count(cleared(board)) + SCREEN_WIDTH * complete_rows(board) == occupied_count(board),
{
    let kept = board.filter(row_incomplete());
    let empties = Seq::new((board.len() - kept.len()) as nat, |y: int| empty_row());
    lemma_count_concat(empties, kept);
    lemma_count_empties(empties);
    lemma_count_kept(board);
}

/// A row whose cells all hold `v` has as many occupied cells as it is long,
/// or none.
proof fn lemma_row_count_uniform(row: Seq<bool>, v: bool)
    requires
        forall|x: int| 0 <= x < row.len() ==> row[x] == v,
    ensures
        row_count(row) == if v {
            row.len()
        } else {
            0
        },
    decreases row.len(),
{
    if row.len() > 0 {
        lemma_row_count_uniform(row.drop_last(), v);
    }
}

/// The cells of two grids, one put under the other, add up.
proof fn lemma_count_concat(a: Seq<Seq<bool>>, b: Seq<Seq<bool>>)
    ensures
        occupied_count(a + b) == occupied_count(a) + occupied_count(b),
    decreases b.len(),
{
    if b.len() > 0 {
        assert((a + b).drop_last() =~= a + b.drop_last());
        lemma_count_concat(a, b.drop_last());
    }
}

proof fn lemma_count_single(row: Seq<bool>)
    ensures
        occupied_count(seq![row]) == row_count(row),
{
    assert(seq![row].drop_last() =~= Seq::<Seq<bool>>::empty());
    assert(occupied_count(Seq::<Seq<bool>>::empty()) == 0);
}

proof fn lemma_count_empties(rows: Seq<Seq<bool>>)
    requires
        forall|y: int| 0 <= y < rows.len() ==> #[trigger] rows[y] == empty_row(),
    ensures
        occupied_count(rows) == 0,
    decreases rows.len(),
{
    if rows.len() > 0 {
        lemma_count_empties(rows.drop_last());
        lemma_row_count_uniform(empty_row(), false);
    }
}

/// The rows that a sweep keeps hold all cells of the grid but those of the
/// complete rows.
proof fn lemma_count_kept(board: Seq<Seq<bool>>)
    requires
        forall|y: int| 0 <= y < board.len() ==> (#[trigger] board[y]).len() == SCREEN_WIDTH,
    ensures
        board.filter(row_incomplete()).len() <= board.len(),
        occupied_count(board.filter(row_incomplete())) + SCREEN_WIDTH * (board.len() - board.filter(
            row_incomplete(),
        ).len()) == occupied_count(board),
    decreases board.len(),
{
    reveal(Seq::filter);
    if board.len() > 0 {
        let front = board.drop_last();
        lemma_count_kept(front);
        if row_complete(board.last()) {
            lemma_row_count_uniform(board.last(), true);
        } else {
            assert(front.filter(row_incomplete()).push(board.last()).drop_last()
                =~= front.filter(row_incomplete()));
        }
    }
}

proof fn lemma_filter_single(row: Seq<bool>)
    ensures
        seq![row].filter(row_incomplete()) == if row_complete(row) {
            Seq::<Seq<bool>>::empty()
        } else {
            seq![row]
        },
{
    reveal(Seq::filter);
    assert(seq![row].drop_last() =~= Seq::<Seq<bool>>::empty());
    assert(Seq::<Seq<bool>>::empty().filter(row_incomplete()) =~= Seq::<Seq<bool>>::empty());
}

proof fn lemma_filter_all_kept(board: Seq<Seq<bool>>)
    requires
        forall|y: int| 0 <= y < board.len() ==> !row_complete(#[trigger] board[y]),
    ensures
        board.filter(row_incomplete()) == board,
    decreases board.len(),
{
    reveal(Seq::filter);
    if board.len() > 0 {
        lemma_filter_all_kept(board.drop_last());
    }
}

/// Splits a grid around row `r`, and the grid without that row likewise.
proof fn lemma_line_removed_parts(board: Seq<Seq<bool>>, r: int)
    requires
        is_board(board),
        0 <= r < SCREEN_HEIGHT,
    ensures
        board == board.subrange(0, r) + seq![board[r]] + board.subrange(r + 1, SCREEN_HEIGHT as int),
        line_removed(board, r) == seq![empty_row()] + board.subrange(0, r) + board.subrange(
            r + 1,
            SCREEN_HEIGHT as int,
        ),
{
    assert(board =~= board.subrange(0, r) + seq![board[r]] + board.subrange(
        r + 1,
        SCREEN_HEIGHT as int,
    ));
    assert(line_removed(board, r) =~= seq![empty_row()] + board.subrange(0, r) + board.subrange(
        r + 1,
        SCREEN_HEIGHT as int,
    ));
}

/// Taking a row out of a grid removes as many occupied cells as the row has.
proof fn lemma_line_removed_count(board: Seq<Seq<bool>>, r: int)
    requires
        is_board(board),
        0 <= r < SCREEN_HEIGHT,
    ensures
        occupied_count(line_removed(board, r)) + row_count(board[r]) == occupied_count(board),
{
    let above = board.subrange(0, r);
    let below = board.subrange(r + 1, SCREEN_HEIGHT as int);
    lemma_line_removed_parts(board, r);
    lemma_count_concat(above + seq![board[r]], below);
    lemma_count_concat(above, seq![board[r]]);
    lemma_count_single(board[r]);
    lemma_count_concat(seq![empty_row()] + above, below);
    lemma_count_concat(seq![empty_row()], above);
    lemma_count_single(empty_row());
    lemma_row_count_uniform(empty_row(), false);
}

/// Taking a complete row out of a grid keeps the incomplete rows in their
/// order and puts one more empty row above them, so a sweep of either grid
/// ends in the same grid.
proof fn lemma_line_removed_kept(board: Seq<Seq<bool>>, r: int)
    requires
        is_board(board),
        0 <= r < SCREEN_HEIGHT,
        row_complete(board[r]),
    ensures
        line_removed(board, r).filter(row_incomplete()) == seq![empty_row()] + board.filter(
            row_incomplete(),
        ),
        board.filter(row_incomplete()).len() < SCREEN_HEIGHT,
        cleared(line_removed(board, r)) == cleared(board),
{
    let keep = row_incomplete();
    let above = board.subrange(0, r);
    let below = board.subrange(r + 1, SCREEN_HEIGHT as int);
    lemma_line_removed_parts(board, r);
    lemma_filter_single(board[r]);
    lemma_filter_single(empty_row());
    assert(!empty_row()[0]);
    assert(board.filter(keep) =~= above.filter(keep) + below.filter(keep)) by {
        Seq::filter_distributes_over_add(above + seq![board[r]], below, keep);
        Seq::filter_distributes_over_add(above, seq![board[r]], keep);
    }
    assert(line_removed(board, r).filter(keep) =~= seq![empty_row()] + board.filter(keep)) by {
        Seq::filter_distributes_over_add(seq![empty_row()] + above, below, keep);
        Seq::filter_distributes_over_add(seq![empty_row()], above, keep);
    }
    line_removed(board, r).lemma_filter_len(keep);
    assert(cleared(line_removed(board, r)) =~= cleared(board));
}

} // verus!
