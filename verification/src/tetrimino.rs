//! The active piece: its rotation states, its position, and the moves that
//! the board allows it.

use vstd::prelude::*;
use crate::board::{cell_free, fits, is_shape, lemma_fits_bounds};
use crate::kind::PieceKind;

verus! {

/// What a piece is, mathematically: its rotation states, the index of the
/// state it is in, and the board position of the top-left corner of its
/// four-by-four box.
pub struct PieceModel {
    pub states: Seq<Seq<Seq<u8>>>,
    pub state: int,
    pub x: int,
    pub y: int,
}

/// The sideways shifts that a rotation tries, in the order in which it
/// tries them.
pub open spec fn kick_offsets() -> Seq<int> {
    seq![0, -1, 1, -2, 2, -3]
}

impl PieceModel {
    /// Every state is a shape, the current state is one of them, and the
    /// row is not negative.
    pub open spec fn wf(self) -> bool {
        &&& 0 < self.states.len() <= u8::MAX
        &&& 0 <= self.state < self.states.len()
        &&& 0 <= self.y
        &&& forall|s: int| 0 <= s < self.states.len() ==> is_shape(#[trigger] self.states[s])
    }

    /// A fresh piece of `kind`: first state, spawn column, top row.
    pub open spec fn spawn(kind: PieceKind) -> PieceModel {
        PieceModel { states: kind.states(), state: 0, x: kind.spawn_column(), y: 0 }
    }

    /// The grid of the current state.
    pub open spec fn shape(self) -> Seq<Seq<u8>> {
        self.states[self.state]
    }

    /// The piece in state `state` would be legal at (`x`, `y`).
    pub open spec fn fits_at(self, board: Seq<Seq<u8>>, state: int, x: int, y: int) -> bool {
        fits(self.states[state], board, x, y)
    }

    /// The piece is legal where it stands.
    pub open spec fn legal(self, board: Seq<Seq<u8>>) -> bool {
        self.fits_at(board, self.state, self.x, self.y)
    }

    /// The piece, moved to (`x`, `y`) if it is legal there in its current
    /// state, and unchanged otherwise.
    pub open spec fn moved(self, board: Seq<Seq<u8>>, x: int, y: int) -> PieceModel {
        if self.fits_at(board, self.state, x, y) {
            PieceModel { x, y, ..self }
        } else {
            self
        }
    }

    /// The state that follows the current one, the first state following
    /// the last.
    pub open spec fn next_state(self) -> int {
        if self.state + 1 >= self.states.len() {
            0
        } else {
            self.state + 1
        }
    }

    /// The piece would be legal in its next state, shifted sideways by the
    /// kick of rank `k`.
    pub open spec fn kick_fits(self, board: Seq<Seq<u8>>, k: int) -> bool {
        self.fits_at(board, self.next_state(), self.x + kick_offsets()[k], self.y)
    }

    /// The rank of the first kick, from rank `from` on, with which the next
    /// state is legal; the number of kicks where there is none.
    pub open spec fn first_kick(self, board: Seq<Seq<u8>>, from: int) -> int
        decreases kick_offsets().len() - from,
    {
        if from < 0 || from >= kick_offsets().len() {
            kick_offsets().len() as int
        } else if self.kick_fits(board, from) {
            from
        } else {
            self.first_kick(board, from + 1)
        }
    }

    /// The piece after a rotation attempt: in its next state, shifted by
    /// the first kick that makes it legal; unchanged where no kick does.
    pub open spec fn rotated(self, board: Seq<Seq<u8>>) -> PieceModel {
        let k = self.first_kick(board, 0);
        if k < kick_offsets().len() {
            PieceModel { state: self.next_state(), x: self.x + kick_offsets()[k], ..self }
        } else {
            self
        }
    }

    /// The row on which the piece comes to rest when it falls from row `y`
    /// for as long as the row below is legal.
    pub open spec fn landing_row(self, board: Seq<Seq<u8>>, y: int) -> int
        decreases board.len() - y,
    {
        if y < board.len() && self.fits_at(board, self.state, self.x, y + 1) {
            self.landing_row(board, y + 1)
        } else {
            y
        }
    }

    /// The piece, fallen as far as it can.
    pub open spec fn dropped(self, board: Seq<Seq<u8>>) -> PieceModel {
        PieceModel { y: self.landing_row(board, self.y), ..self }
    }
}

/// Asking twice for the same position is asking once: the second request
/// is granted exactly where the first was, and leaves the piece where the
/// first left it.
pub proof fn lemma_move_twice(piece: PieceModel, board: Seq<Seq<u8>>, x: int, y: int)
    ensures
        piece.moved(board, x, y).fits_at(board, piece.moved(board, x, y).state, x, y)
            == piece.fits_at(board, piece.state, x, y),
        piece.moved(board, x, y).moved(board, x, y) == piece.moved(board, x, y),
{
}

/// The first kick from rank `from` on is the lowest rank from there that
/// makes the next state legal: no rank before it does.
pub proof fn lemma_first_kick(piece: PieceModel, board: Seq<Seq<u8>>, from: int)
    requires
        0 <= from <= kick_offsets().len(),
    ensures
        from <= piece.first_kick(board, from) <= kick_offsets().len(),
        piece.first_kick(board, from) < kick_offsets().len() ==> piece.kick_fits(
            board,
            piece.first_kick(board, from),
        ),
        forall|k: int| from <= k < piece.first_kick(board, from) ==> !piece.kick_fits(board, k),
    decreases kick_offsets().len() - from,
{
    if from < kick_offsets().len() && !piece.kick_fits(board, from) {
        lemma_first_kick(piece, board, from + 1);
    }
}

/// A fall from a legal row `y` ends: the landing row is `y` or lies below
/// it on the board, the piece is legal on every row from `y` to the landing
/// row, and it is not legal on the row after.
pub proof fn lemma_landing(piece: PieceModel, board: Seq<Seq<u8>>, y: int)
    requires
        piece.wf(),
        0 <= y,
        piece.fits_at(board, piece.state, piece.x, y),
    ensures
        y <= piece.landing_row(board, y) < board.len(),
        forall|row: int|
            y <= row <= piece.landing_row(board, y) ==> #[trigger] piece.fits_at(
                board,
                piece.state,
                piece.x,
                row,
            ),
        !piece.fits_at(board, piece.state, piece.x, piece.landing_row(board, y) + 1),
    decreases board.len() - y,
{
    lemma_fits_bounds(piece.shape(), board, piece.x, y);
    if y < board.len() && piece.fits_at(board, piece.state, piece.x, y + 1) {
        lemma_landing(piece, board, y + 1);
    }
}

/// A hard drop ends within the height of the board: from a legal position,
/// probing one row lower at a time meets a row on which the piece is not
/// legal after at most as many steps as the board has rows.
pub proof fn lemma_drop_ends(piece: PieceModel, board: Seq<Seq<u8>>)
    requires
        piece.wf(),
        piece.legal(board),
    ensures
        exists|row: int|
            piece.y < row <= piece.y + board.len() && !#[trigger] piece.fits_at(
                board,
                piece.state,
                piece.x,
                row,
            ),
        piece.dropped(board).legal(board),
        piece.y <= piece.dropped(board).y < board.len(),
{
    lemma_landing(piece, board, piece.y);
    let landing = piece.landing_row(board, piece.y);
    assert(piece.fits_at(board, piece.state, piece.x, landing));
    assert(!piece.fits_at(board, piece.state, piece.x, landing + 1));
}

/// The active piece.
pub struct Tetrimino {
    /// The rotation states, each four rows of four cells.
    pub states: Vec<Vec<Vec<u8>>>,
    /// Column of the top-left corner of the piece's box; may be negative.
    pub x: isize,
    /// Row of the top-left corner of the piece's box.
    pub y: usize,
    /// Index of the rotation state the piece is in.
    pub current_state: u8,
}

impl View for Tetrimino {
    type V = PieceModel;

    open spec fn view(&self) -> PieceModel {
        PieceModel {
            states: self.states.deep_view(),
            state: self.current_state as int,
            x: self.x as int,
            y: self.y as int,
        }
    }
}

/// The column `x + dx`, or `None` where it lies left of column 0.
pub(crate) fn column(x: isize, dx: usize) -> (col: Option<usize>)
    requires
        dx < 4,
    ensures
        match col {
            Some(c) => c == x + dx,
            None => x + dx < 0,
        },
{
    if x >= 0 {
        Some(x as usize + dx)
    } else {
        let shifted: isize = x + dx as isize;
        if shifted < 0 {
            None
        } else {
            Some(shifted as usize)
        }
    }
}

/// Whether `state` is a shape: four rows of four cells, one of them
/// occupied at least.
fn check_shape(state: &Vec<Vec<u8>>) -> (valid: bool)
    ensures
        valid == is_shape(state.deep_view()),
{
    let ghost shape = state.deep_view();
    if state.len() != 4 {
        return false;
    }
    let mut occupied = false;
    let mut r: usize = 0;
    while r < 4
        invariant
            r <= 4,
            state.len() == 4,
            shape == state.deep_view(),
            forall|i: int| 0 <= i < r ==> (#[trigger] shape[i]).len() == 4,
            occupied == exists|i: int, c: int|
                0 <= i < r && 0 <= c < 4 && #[trigger] shape[i][c] != 0,
        decreases 4 - r,
    {
        let row = &state[r];
        assert(row@ =~= shape[r as int]);
        if row.len() != 4 {
            return false;
        }
        let mut c: usize = 0;
        while c < 4
            invariant
                c <= 4,
                r < 4,
                row.len() == 4,
                row@ == shape[r as int],
                occupied == ((exists|i: int, k: int|
                    0 <= i < r && 0 <= k < 4 && #[trigger] shape[i][k] != 0) || (exists|k: int|
                    0 <= k < c && #[trigger] shape[r as int][k] != 0)),
            decreases 4 - c,
        {
            if row[c] != 0 {
                occupied = true;
            }
            c += 1;
        }
        r += 1;
    }
    occupied
}

impl Tetrimino {
    /// The piece's model is well formed.
    pub open spec fn wf(&self) -> bool {
        self@.wf()
    }

    /// Whether the piece is well formed. A fresh piece is, and no move
    /// changes that; a piece whose fields were written from outside may
    /// not be.
    pub fn is_well_formed(&self) -> (valid: bool)
        ensures
            valid == self.wf(),
    {
        let ghost states = self@.states;
        if self.states.len() == 0 || self.states.len() > 255 || self.current_state as usize
            >= self.states.len() {
            return false;
        }
        let mut s: usize = 0;
        while s < self.states.len()
            invariant
                s <= self.states.len(),
                states == self@.states,
                forall|i: int| 0 <= i < s ==> is_shape(#[trigger] states[i]),
            decreases self.states.len() - s,
        {
            if !check_shape(&self.states[s]) {
                assert(!is_shape(states[s as int]));
                return false;
            }
            s += 1;
        }
        true
    }

    /// Whether the piece, in rotation state `tmp_state`, would be legal with
    /// its corner at column `x` and row `y`: every occupied cell of that
    /// state must fall on a cell of `game_map` that exists and is empty.
    pub fn test_position(&self, game_map: &[Vec<u8>], tmp_state: usize, x: isize, y: usize) -> (legal: bool)
        requires
            self.wf(),
            tmp_state < self.states.len(),
        ensures
            legal == self@.fits_at(game_map.deep_view(), tmp_state as int, x as int, y as int),
    {
        let ghost shape = self@.states[tmp_state as int];
        let ghost board = game_map.deep_view();
        assert(is_shape(shape));
        let mut decal_y: usize = 0;
        while decal_y < 4
            invariant
                decal_y <= 4,
                self.wf(),
                tmp_state < self.states.len(),
                shape == self@.states[tmp_state as int],
                board == game_map.deep_view(),
                is_shape(shape),
                forall|r: int, c: int|
                    0 <= r < decal_y && 0 <= c < 4 && #[trigger] shape[r][c] != 0 ==> cell_free(
                        board,
                        y + r,
                        x + c,
                    ),
            decreases 4 - decal_y,
        {
            let mut decal_x: usize = 0;
            while decal_x < 4
                invariant
                    decal_y < 4,
                    decal_x <= 4,
                    self.wf(),
                    tmp_state < self.states.len(),
                    shape == self@.states[tmp_state as int],
                    board == game_map.deep_view(),
                    is_shape(shape),
                    forall|r: int, c: int|
                        0 <= r < decal_y && 0 <= c < 4 && #[trigger] shape[r][c] != 0
                            ==> cell_free(board, y + r, x + c),
                    forall|c: int|
                        0 <= c < decal_x && #[trigger] shape[decal_y as int][c] != 0 ==> cell_free(
                            board,
                            y + decal_y,
                            x + c,
                        ),
                decreases 4 - decal_x,
            {
                assert(shape[decal_y as int].len() == 4);
                let cell = self.states[tmp_state][decal_y][decal_x];
                assert(cell == shape[decal_y as int][decal_x as int]);
                if cell != 0 {
                    if y >= game_map.len() || decal_y >= game_map.len() - y {
                        assert(!cell_free(board, y + decal_y, x + decal_x));
                        return false;
                    }
                    let row = &game_map[y + decal_y];
                    assert(row@ == board[y + decal_y]);
                    match column(x, decal_x) {
                        None => {
                            assert(!cell_free(board, y + decal_y, x + decal_x));
                            return false;
                        },
                        Some(col) => {
                            if col >= row.len() || row[col] != 0 {
                                assert(!cell_free(board, y + decal_y, x + decal_x));
                                return false;
                            }
                        },
                    }
                }
                decal_x += 1;
            }
            decal_y += 1;
        }
        true
    }

    /// Whether the piece is legal where it stands.
    pub fn test_current_position(&self, game_map: &[Vec<u8>]) -> (legal: bool)
        requires
            self.wf(),
        ensures
            legal == self@.legal(game_map.deep_view()),
    {
        self.test_position(game_map, self.current_state as usize, self.x, self.y)
    }

    /// Moves the piece to (`new_x`, `new_y`) if it is legal there in its
    /// current rotation state, and says whether it moved.
    pub fn change_position(&mut self, game_map: &[Vec<u8>], new_x: isize, new_y: usize) -> (moved: bool)
        requires
            old(self).wf(),
        ensures
            moved == old(self)@.fits_at(
                game_map.deep_view(),
                old(self)@.state,
                new_x as int,
                new_y as int,
            ),
            final(self)@ == old(self)@.moved(game_map.deep_view(), new_x as int, new_y as int),
            final(self).states == old(self).states,
            final(self).wf(),
    {
        if self.test_position(game_map, self.current_state as usize, new_x, new_y) {
            self.x = new_x;
            self.y = new_y;
            true
        } else {
            false
        }
    }

    /// Turns the piece into its next rotation state. Where that state is not
    /// legal in place, the piece is shifted sideways by the first of the
    /// kicks 0, -1, +1, -2, +2, -3 that makes it legal. Where none does, the
    /// piece stays as it is. The row never changes.
    pub fn rotate(&mut self, game_map: &[Vec<u8>])
        requires
            old(self).wf(),
            isize::MIN + 3 <= old(self).x <= isize::MAX - 2,
        ensures
            final(self)@ == old(self)@.rotated(game_map.deep_view()),
            final(self).states == old(self).states,
            final(self).wf(),
    {
        let ghost board = game_map.deep_view();
        let ghost start = self@;
        let tmp_state: u8 = if self.current_state as usize + 1 >= self.states.len() {
            0
        } else {
            self.current_state + 1
        };
        let x_pos: [isize; 6] = [0, -1, 1, -2, 2, -3];
        assert(x_pos@.len() == 6);
        assert(forall|k: int| 0 <= k < 6 ==> x_pos@[k] as int == #[trigger] kick_offsets()[k]);
        let mut i: usize = 0;
        while i < 6
            invariant
                i <= 6,
                self@ == start,
                start == old(self)@,
                self.states == old(self).states,
                start.wf(),
                board == game_map.deep_view(),
                tmp_state == start.next_state(),
                isize::MIN + 3 <= self.x <= isize::MAX - 2,
                x_pos@.len() == 6,
                forall|k: int| 0 <= k < 6 ==> x_pos@[k] as int == #[trigger] kick_offsets()[k],
                start.first_kick(board, 0) == start.first_kick(board, i as int),
            decreases 6 - i,
        {
            let x: isize = x_pos[i];
            assert(x as int == kick_offsets()[i as int]);
            if self.test_position(game_map, tmp_state as usize, self.x + x, self.y) {
                assert(start.kick_fits(board, i as int));
                self.current_state = tmp_state;
                self.x += x;
                return;
            }
            assert(!start.kick_fits(board, i as int));
            i += 1;
        }
    }
}

} // verus!
