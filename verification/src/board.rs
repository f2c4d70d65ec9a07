//! The mathematics of the board: a grid is a sequence of rows, a row a
//! sequence of cells, and a cell holds 0 when it is empty.

use vstd::prelude::*;

verus! {

/// Number of rows of the playing board.
pub const BOARD_HEIGHT: usize = 16;

/// Number of cells in each row of the playing board.
pub const BOARD_WIDTH: usize = 10;

/// A shape is a grid of four rows of four cells with at least one occupied
/// cell.
pub open spec fn is_shape(shape: Seq<Seq<u8>>) -> bool {
    &&& shape.len() == 4
    &&& forall|r: int| 0 <= r < 4 ==> (#[trigger] shape[r]).len() == 4
    &&& exists|r: int, c: int| 0 <= r < 4 && 0 <= c < 4 && #[trigger] shape[r][c] != 0
}

/// The cell at (`row`, `col`) lies on the board and is empty.
pub open spec fn cell_free(board: Seq<Seq<u8>>, row: int, col: int) -> bool {
    &&& 0 <= row < board.len()
    &&& 0 <= col < board[row].len()
    &&& board[row][col] == 0
}

/// A shape whose top-left corner stands at column `x` and row `y` is legal
/// there: each of its occupied cells falls on a free cell of the board.
pub open spec fn fits(shape: Seq<Seq<u8>>, board: Seq<Seq<u8>>, x: int, y: int) -> bool {
    forall|dy: int, dx: int|
        0 <= dy < 4 && 0 <= dx < 4 && #[trigger] shape[dy][dx] != 0 ==> cell_free(
            board,
            y + dy,
            x + dx,
        )
}

/// A legal position keeps the shape's corner within three columns of the
/// left edge and above the last row.
pub proof fn lemma_fits_bounds(shape: Seq<Seq<u8>>, board: Seq<Seq<u8>>, x: int, y: int)
    requires
        is_shape(shape),
        fits(shape, board, x, y),
    ensures
        -3 <= x,
        -3 <= y < board.len(),
{
    let (r, c) = choose|r: int, c: int| 0 <= r < 4 && 0 <= c < 4 && #[trigger] shape[r][c] != 0;
    assert(cell_free(board, y + r, x + c));
}

/// The board has its full height and every row its full width.
pub open spec fn is_board(board: Seq<Seq<u8>>) -> bool {
    &&& board.len() == BOARD_HEIGHT
    &&& forall|r: int| 0 <= r < board.len() ==> (#[trigger] board[r]).len() == BOARD_WIDTH
}

/// What the cell at (`row`, `col`) holds once the first `n` cells of the
/// shape, counted row by row, have been written onto the board with the
/// shape's corner at (`x`, `y`): the shape's cell where that cell is among
/// them and occupied, and the board's own cell otherwise.
pub open spec fn stamped_cell(
    board: Seq<Seq<u8>>,
    shape: Seq<Seq<u8>>,
    x: int,
    y: int,
    n: int,
    row: int,
    col: int,
) -> u8 {
    let dy = row - y;
    let dx = col - x;
    if 0 <= dy < 4 && 0 <= dx < 4 && 4 * dy + dx < n && shape[dy][dx] != 0 {
        shape[dy][dx]
    } else {
        board[row][col]
    }
}

/// The board after the first `n` cells of the shape have been written.
pub open spec fn stamped_upto(board: Seq<Seq<u8>>, shape: Seq<Seq<u8>>, x: int, y: int, n: int) -> Seq<
    Seq<u8>,
> {
    Seq::new(
        board.len(),
        |row: int|
            Seq::new(board[row].len(), |col: int| stamped_cell(board, shape, x, y, n, row, col)),
    )
}

/// The board with the shape locked into it at (`x`, `y`): every occupied
/// cell of the shape that falls on the board replaces the cell under it;
/// those that fall outside are dropped.
pub open spec fn stamped(board: Seq<Seq<u8>>, shape: Seq<Seq<u8>>, x: int, y: int) -> Seq<Seq<u8>> {
    stamped_upto(board, shape, x, y, 16)
}

/// A row is complete when none of its cells is empty.
pub open spec fn row_complete(row: Seq<u8>) -> bool {
    forall|c: int| 0 <= c < row.len() ==> #[trigger] row[c] != 0
}

/// The rows that are not complete, in their order.
pub open spec fn surviving(rows: Seq<Seq<u8>>) -> Seq<Seq<u8>>
    decreases rows.len(),
{
    if rows.len() == 0 {
        rows
    } else if row_complete(rows.last()) {
        surviving(rows.drop_last())
    } else {
        surviving(rows.drop_last()).push(rows.last())
    }
}

/// The number of complete rows.
pub open spec fn complete_count(rows: Seq<Seq<u8>>) -> nat
    decreases rows.len(),
{
    if rows.len() == 0 {
        0
    } else if row_complete(rows.last()) {
        complete_count(rows.drop_last()) + 1
    } else {
        complete_count(rows.drop_last())
    }
}

/// A row of full width with every cell empty.
pub open spec fn blank_row() -> Seq<u8> {
    Seq::new(BOARD_WIDTH as nat, |c: int| 0u8)
}

/// `n` blank rows.
pub open spec fn blank_rows(n: int) -> Seq<Seq<u8>> {
    Seq::new(n as nat, |r: int| blank_row())
}

/// The number of blank rows that bring `rows` back to the full height.
pub open spec fn padding(rows: Seq<Seq<u8>>) -> int {
    if rows.len() < BOARD_HEIGHT {
        BOARD_HEIGHT - rows.len()
    } else {
        0
    }
}

/// The board after line clearing: the complete rows are gone, the others
/// keep their order, and blank rows on top restore the full height.
pub open spec fn cleared(rows: Seq<Seq<u8>>) -> Seq<Seq<u8>> {
    blank_rows(padding(surviving(rows))) + surviving(rows)
}

/// Row `i` either joins the surviving rows of those before it or is counted
/// as complete.
pub proof fn lemma_scan_step(rows: Seq<Seq<u8>>, i: int)
    requires
        0 <= i < rows.len(),
    ensures
        row_complete(rows[i]) ==> surviving(rows.take(i + 1)) == surviving(rows.take(i))
            && complete_count(rows.take(i + 1)) == complete_count(rows.take(i)) + 1,
        !row_complete(rows[i]) ==> surviving(rows.take(i + 1)) == surviving(rows.take(i)).push(
            rows[i],
        ) && complete_count(rows.take(i + 1)) == complete_count(rows.take(i)),
{
    assert(rows.take(i + 1).drop_last() =~= rows.take(i));
    assert(rows.take(i + 1).last() == rows[i]);
}

/// Every row either survives or is counted as complete.
pub proof fn lemma_scan_total(rows: Seq<Seq<u8>>)
    ensures
        surviving(rows).len() + complete_count(rows) == rows.len(),
    decreases rows.len(),
{
    if rows.len() > 0 {
        lemma_scan_total(rows.drop_last());
    }
}

/// The first `i` rows hold no more complete rows than all of them.
pub proof fn lemma_prefix_count(rows: Seq<Seq<u8>>, i: int)
    requires
        0 <= i <= rows.len(),
    ensures
        complete_count(rows.take(i)) <= complete_count(rows),
    decreases rows.len() - i,
{
    if i < rows.len() {
        lemma_prefix_count(rows, i + 1);
        lemma_scan_step(rows, i);
    } else {
        assert(rows.take(i) =~= rows);
    }
}

/// No surviving row is complete, and each has the width of a row it came
/// from.
pub proof fn lemma_surviving_rows(rows: Seq<Seq<u8>>)
    ensures
        surviving(rows).len() <= rows.len(),
        forall|r: int|
            0 <= r < surviving(rows).len() ==> !row_complete(#[trigger] surviving(rows)[r]),
        (forall|r: int| 0 <= r < rows.len() ==> (#[trigger] rows[r]).len() == BOARD_WIDTH)
            ==> (forall|r: int|
            0 <= r < surviving(rows).len() ==> (#[trigger] surviving(rows)[r]).len()
                == BOARD_WIDTH),
    decreases rows.len(),
{
    if rows.len() > 0 {
        lemma_surviving_rows(rows.drop_last());
    }
}

/// Clearing a board gives a board, none of whose rows is complete.
pub proof fn lemma_cleared_board(board: Seq<Seq<u8>>)
    requires
        is_board(board),
    ensures
        is_board(cleared(board)),
        forall|r: int| 0 <= r < cleared(board).len() ==> !row_complete(#[trigger] cleared(board)[r]),
        complete_count(board) == 0 ==> cleared(board) == board,
{
    lemma_surviving_rows(board);
    lemma_scan_total(board);
    let kept = surviving(board);
    let pad = padding(kept);
    assert forall|r: int| 0 <= r < cleared(board).len() implies !row_complete(
        #[trigger] cleared(board)[r],
    ) && cleared(board)[r].len() == BOARD_WIDTH by {
        if r < pad {
            assert(cleared(board)[r] == blank_row());
            assert(blank_row()[0] == 0);
        } else {
            assert(cleared(board)[r] == kept[r - pad]);
        }
    }
    if complete_count(board) == 0 {
        lemma_no_complete_rows(board);
        assert(cleared(board) =~= board);
    }
}

/// Where no row is complete, every row survives.
pub proof fn lemma_no_complete_rows(rows: Seq<Seq<u8>>)
    requires
        complete_count(rows) == 0,
    ensures
        surviving(rows) == rows,
    decreases rows.len(),
{
    if rows.len() > 0 {
        lemma_no_complete_rows(rows.drop_last());
        assert(rows.drop_last().push(rows.last()) =~= rows);
    }
}

} // verus!
