//! The session: the board, the active piece, and the counters of a game.

use vstd::prelude::*;
use crate::board::{
    blank_row, blank_rows, cleared, complete_count, is_board, is_shape, lemma_cleared_board,
    lemma_prefix_count, lemma_scan_step, lemma_scan_total, row_complete, stamped, stamped_cell,
    stamped_upto, surviving, BOARD_HEIGHT, BOARD_WIDTH,
};
use crate::kind::PieceKind;
use crate::tetrimino::{column, PieceModel, Tetrimino};

verus! {

/// Points that are added on top of the line points when a clearing leaves
/// no row of the board behind.
pub const EMPTY_BOARD_BONUS: u32 = 1000;

/// The points that a clearing earns: the level for each complete row, and
/// the bonus where no row survives.
pub open spec fn line_points(level: nat, board: Seq<Seq<u8>>) -> nat {
    let bonus: nat = if surviving(board).len() == 0 {
        EMPTY_BOARD_BONUS as nat
    } else {
        0
    };
    level * complete_count(board) + bonus
}

/// What a session is, mathematically.
pub struct SessionModel {
    pub board: Seq<Seq<u8>>,
    pub level: nat,
    pub score: nat,
    pub lines: nat,
    pub piece: Option<PieceModel>,
    pub previous: Option<PieceKind>,
}

impl SessionModel {
    /// The board has its full size, the level is at least 1, and the active
    /// piece, if there is one, is well formed.
    pub open spec fn wf(self) -> bool {
        &&& is_board(self.board)
        &&& self.level >= 1
        &&& self.piece matches Some(p) ==> p.wf()
    }

    /// A session at its start.
    pub open spec fn initial() -> SessionModel {
        SessionModel {
            board: blank_rows(BOARD_HEIGHT as int),
            level: 1,
            score: 0,
            lines: 0,
            piece: None,
            previous: None,
        }
    }

    /// The session after line clearing: the board cleared, the line points
    /// added to the score, the complete rows added to the line count.
    pub open spec fn lines_cleared(self) -> SessionModel {
        SessionModel {
            board: cleared(self.board),
            score: self.score + line_points(self.level, self.board),
            lines: self.lines + complete_count(self.board),
            ..self
        }
    }

    /// The session with the active piece written into the board and the
    /// level added to the score; unchanged where there is no active piece.
    pub open spec fn placed(self) -> SessionModel {
        match self.piece {
            Some(p) => SessionModel {
                board: stamped(self.board, p.shape(), p.x, p.y),
                score: self.score + self.level,
                ..self
            },
            None => self,
        }
    }

    /// The session after lock-in: the active piece placed, the lines
    /// cleared, and no active piece left.
    pub open spec fn locked(self) -> SessionModel {
        SessionModel { piece: None, ..self.placed().lines_cleared() }
    }

    /// The score and the line count fit in 32 bits.
    pub open spec fn countable(self) -> bool {
        self.score <= u32::MAX && self.lines <= u32::MAX
    }

    /// The session once `piece` has asked to enter: it becomes the active
    /// piece where it is legal on the board, and is turned away otherwise.
    pub open spec fn entered(self, piece: PieceModel) -> SessionModel {
        if piece.legal(self.board) {
            SessionModel { piece: Some(piece), ..self }
        } else {
            self
        }
    }
}

/// The kind that two rolls select after `previous`: that of the first
/// roll, unless it repeats `previous`; then that of the second roll,
/// whatever it is.
pub open spec fn spec_choose_kind(
    previous: Option<PieceKind>,
    first_roll: u8,
    second_roll: u8,
) -> PieceKind {
    if previous == Some(PieceKind::of_roll(first_roll)) {
        PieceKind::of_roll(second_roll)
    } else {
        PieceKind::of_roll(first_roll)
    }
}

/// Whether `kind` repeats `previous`.
fn repeats(previous: Option<PieceKind>, kind: PieceKind) -> (same: bool)
    ensures
        same == (previous == Some(kind)),
{
    match previous {
        Some(p) => p == kind,
        None => false,
    }
}

/// Draws one byte from `rand::random::<u8>()`, which reads the thread-local
/// generator of the `rand` crate. Nothing is claimed of the byte: any value
/// may come back, and two calls may differ. The call takes no input; it
/// panics only where the generator cannot be seeded by the system.
#[verifier::external_body]
fn random_roll() -> (roll: u8) {
    rand::random::<u8>()
}

/// The kind that two rolls select after `previous`. The second roll counts
/// only where the first repeats `previous`, so the kind repeats only where
/// both rolls do.
pub fn choose_kind(previous: Option<PieceKind>, first_roll: u8, second_roll: u8) -> (kind:
    PieceKind)
    ensures
        kind == spec_choose_kind(previous, first_roll, second_roll),
        previous == Some(kind) ==> PieceKind::of_roll(first_roll) == kind && PieceKind::of_roll(
            second_roll,
        ) == kind,
{
    let first = PieceKind::from_roll(first_roll);
    if repeats(previous, first) {
        PieceKind::from_roll(second_roll)
    } else {
        first
    }
}

/// The session.
pub struct Tetris {
    /// The board, top row first.
    pub game_map: Vec<Vec<u8>>,
    /// The level, from 1.
    pub current_level: u32,
    /// The score.
    pub score: u32,
    /// The number of lines cleared so far.
    pub nb_lines: u32,
    /// The active piece, if there is one.
    pub current_piece: Option<Tetrimino>,
    /// The kind of the piece that was made last, if one was made.
    pub previous_kind: Option<PieceKind>,
}

impl View for Tetris {
    type V = SessionModel;

    open spec fn view(&self) -> SessionModel {
        SessionModel {
            board: self.game_map.deep_view(),
            level: self.current_level as nat,
            score: self.score as nat,
            lines: self.nb_lines as nat,
            piece: match self.current_piece {
                Some(p) => Some(p@),
                None => None,
            },
            previous: self.previous_kind,
        }
    }
}

/// A row of full width with every cell empty.
fn new_row() -> (row: Vec<u8>)
    ensures
        row@ == blank_row(),
{
    let mut row: Vec<u8> = Vec::new();
    while row.len() < BOARD_WIDTH
        invariant
            row.len() <= BOARD_WIDTH,
            forall|c: int| 0 <= c < row.len() ==> row[c] == 0,
        decreases BOARD_WIDTH - row.len(),
    {
        row.push(0);
    }
    assert(row@ =~= blank_row());
    row
}

/// Whether no cell of `row` is empty.
fn is_complete(row: &Vec<u8>) -> (complete: bool)
    ensures
        complete == row_complete(row@),
{
    let mut x: usize = 0;
    while x < row.len()
        invariant
            x <= row.len(),
            forall|c: int| 0 <= c < x ==> row[c] != 0,
        decreases row.len() - x,
    {
        if row[x] == 0 {
            return false;
        }
        x += 1;
    }
    true
}

/// Writes the occupied cells of the piece's current rotation state into
/// `game_map` at the piece's position. Cells that fall outside the board
/// are skipped.
pub fn stamp(game_map: &mut Vec<Vec<u8>>, piece: &Tetrimino)
    requires
        piece.wf(),
    ensures
        final(game_map).deep_view() == stamped(
            old(game_map).deep_view(),
            piece@.shape(),
            piece@.x,
            piece@.y,
        ),
{
    let ghost board = game_map.deep_view();
    let ghost shape = piece@.shape();
    let ghost x = piece@.x;
    let ghost y = piece@.y;
    let state = piece.current_state as usize;
    assert(is_shape(shape));
    assert(game_map.deep_view() =~~= stamped_upto(board, shape, x, y, 0));
    let mut shift_y: usize = 0;
    while shift_y < 4 && piece.y < game_map.len() && shift_y < game_map.len() - piece.y
        invariant
            shift_y <= 4,
            piece.wf(),
            state == piece.current_state,
            shape == piece@.shape(),
            x == piece@.x,
            y == piece@.y,
            is_shape(shape),
            game_map.deep_view() == stamped_upto(board, shape, x, y, 4 * shift_y),
        decreases 4 - shift_y,
    {
        let mut shift_x: usize = 0;
        while shift_x < 4
            invariant
                shift_y < 4,
                shift_x <= 4,
                piece.wf(),
                state == piece.current_state,
                shape == piece@.shape(),
                x == piece@.x,
                y == piece@.y,
                is_shape(shape),
                piece.y + shift_y < game_map.len(),
                game_map.deep_view() == stamped_upto(board, shape, x, y, 4 * shift_y + shift_x),
            decreases 4 - shift_x,
        {
            let ghost before = game_map.deep_view();
            let ghost done = 4 * shift_y + shift_x;
            assert(shape[shift_y as int].len() == 4);
            let cell = piece.states[state][shift_y][shift_x];
            assert(cell == shape[shift_y as int][shift_x as int]);
            let ghost mut written = false;
            if cell != 0 {
                match column(piece.x, shift_x) {
                    Some(col) => {
                        if col < game_map[piece.y + shift_y].len() {
                            game_map[piece.y + shift_y][col] = cell;
                            proof {
                                written = true;
                            }
                        }
                    },
                    None => {},
                }
            }
            proof {
                let after = game_map.deep_view();
                let target = stamped_upto(board, shape, x, y, done + 1);
                let row0 = y + shift_y;
                let col0 = x + shift_x;
                assert(after.len() == before.len());
                assert forall|r: int| 0 <= r < after.len() implies #[trigger] after[r]
                    =~= target[r] by {
                    assert(before[r] == stamped_upto(board, shape, x, y, done)[r]);
                    assert(after[r].len() == before[r].len());
                    assert forall|c: int| 0 <= c < after[r].len() implies after[r][c]
                        == target[r][c] by {
                        assert(before[r][c] == stamped_cell(
                            board,
                            shape,
                            x,
                            y,
                            done,
                            r,
                            c,
                        ));
                        if written && r == row0 && c == col0 {
                            assert(after[r][c] == cell);
                        } else {
                            assert(after[r][c] == before[r][c]);
                        }
                    }
                }
                assert(after =~= target);
            }
            shift_x += 1;
        }
        shift_y += 1;
    }
    assert(game_map.deep_view() =~~= stamped(board, shape, x, y));
}

/// Where two sequences agree from `i` and from `j` on, they hold the same
/// item there and agree from the next places on.
proof fn lemma_skip_step<A>(a: Seq<A>, i: int, b: Seq<A>, j: int)
    requires
        0 <= i < a.len(),
        0 <= j <= b.len(),
        a.skip(i) == b.skip(j),
    ensures
        j < b.len(),
        a[i] == b[j],
        a.skip(i + 1) == b.skip(j + 1),
{
    assert(a.skip(i).len() == a.len() - i);
    assert(b.skip(j).len() == b.len() - j);
    assert(a[i] == a.skip(i)[0]);
    assert(b[j] == b.skip(j)[0]);
    assert(a.skip(i + 1) =~= a.skip(i).skip(1));
    assert(b.skip(j + 1) =~= b.skip(j).skip(1));
}

impl Tetris {
    /// The session's model is well formed.
    pub open spec fn wf(&self) -> bool {
        self@.wf()
    }

    /// A session at its start: an empty board, level 1, no points, no
    /// lines, no active piece.
    pub fn new() -> (tetris: Tetris)
        ensures
            tetris@ == SessionModel::initial(),
            tetris.wf(),
    {
        let mut game_map: Vec<Vec<u8>> = Vec::new();
        while game_map.len() < BOARD_HEIGHT
            invariant
                game_map.len() <= BOARD_HEIGHT,
                forall|r: int| 0 <= r < game_map.len() ==> (#[trigger] game_map[r])@ == blank_row(),
            decreases BOARD_HEIGHT - game_map.len(),
        {
            game_map.push(new_row());
        }
        assert(game_map.deep_view() =~~= blank_rows(BOARD_HEIGHT as int));
        Tetris {
            game_map,
            current_level: 1,
            score: 0,
            nb_lines: 0,
            current_piece: None,
            previous_kind: None,
        }
    }

    /// Makes the next piece. Its kind is drawn at random among the seven;
    /// where the draw repeats the kind made last, it is drawn once more and
    /// then taken as it comes. The session remembers the kind.
    pub fn create_new_tetrimino(&mut self) -> (piece: Tetrimino)
        ensures
            final(self).previous_kind matches Some(kind) && piece@ == PieceModel::spawn(kind)
                && final(self)@ == (SessionModel { previous: Some(kind), ..old(self)@ }),
            piece.wf(),
            final(self).game_map == old(self).game_map,
            final(self).current_piece == old(self).current_piece,
    {
        let first_roll = random_roll();
        let second_roll = if repeats(self.previous_kind, PieceKind::from_roll(first_roll)) {
            random_roll()
        } else {
            first_roll
        };
        let kind = choose_kind(self.previous_kind, first_roll, second_roll);
        self.previous_kind = Some(kind);
        Tetrimino::spawn(kind)
    }

    /// Lets `piece` enter: it becomes the active piece where it is legal on
    /// the board. Where it is not, the session stays as it is, and the game
    /// is over.
    pub fn install(&mut self, piece: Tetrimino) -> (installed: bool)
        requires
            old(self).wf(),
            piece.wf(),
        ensures
            installed == piece@.legal(old(self)@.board),
            final(self)@ == old(self)@.entered(piece@),
            final(self).wf(),
            final(self).game_map == old(self).game_map,
    {
        if piece.test_current_position(&self.game_map) {
            self.current_piece = Some(piece);
            true
        } else {
            false
        }
    }

    /// Makes the next piece and lets it enter. Returns `false` where the
    /// piece is not legal at its spawn position: the game is over, and no
    /// piece was installed.
    pub fn spawn_next(&mut self) -> (alive: bool)
        requires
            old(self).wf(),
        ensures
            final(self).previous_kind matches Some(kind) && alive == PieceModel::spawn(kind).legal(
                old(self)@.board,
            ) && final(self)@ == (SessionModel { previous: Some(kind), ..old(self)@ }).entered(
                PieceModel::spawn(kind),
            ),
            final(self).wf(),
            final(self).game_map == old(self).game_map,
    {
        let piece = self.create_new_tetrimino();
        self.install(piece)
    }

    /// Adds `to_add` points to the score.
    pub fn update_score(&mut self, to_add: u32)
        requires
            old(self).score + to_add <= u32::MAX,
        ensures
            final(self)@ == (SessionModel { score: old(self)@.score + to_add as nat, ..old(self)@ }),
            final(self).game_map == old(self).game_map,
            final(self).current_piece == old(self).current_piece,
    {
        self.score += to_add;
    }

    /// Counts one more cleared line.
    pub fn increase_line(&mut self)
        requires
            old(self).nb_lines < u32::MAX,
        ensures
            final(self)@ == (SessionModel { lines: old(self)@.lines + 1, ..old(self)@ }),
            final(self).game_map == old(self).game_map,
            final(self).current_piece == old(self).current_piece,
    {
        self.nb_lines += 1;
    }

    /// Clears the complete rows. The rows are scanned from the top; each
    /// complete row is taken out, earns the level in points and counts as
    /// one line. Where no row is left, the bonus is added. Blank rows on top
    /// then bring the board back to its full height.
    pub fn check_lines(&mut self)
        requires
            old(self).wf(),
            old(self)@.lines_cleared().score <= u32::MAX,
            old(self)@.lines_cleared().lines <= u32::MAX,
        ensures
            final(self)@ == old(self)@.lines_cleared(),
            final(self).wf(),
            final(self).current_piece == old(self).current_piece,
            final(self).game_map.len() == BOARD_HEIGHT,
            forall|r: int|
                0 <= r < BOARD_HEIGHT ==> !row_complete(#[trigger] final(self)@.board[r]),
    {
        let ghost start = self@;
        let ghost orig = self.game_map.deep_view();
        let mut y: usize = 0;
        let mut score_add: u32 = 0;
        let ghost mut seen: int = 0;
        proof {
            assert(orig.take(0) =~= Seq::<Seq<u8>>::empty());
            assert(orig.skip(0) =~= orig);
            assert(self.game_map.deep_view().take(0) =~= surviving(orig.take(0)));
            assert(complete_count(orig.take(0)) == 0);
        }
        while y < self.game_map.len()
            invariant
                0 <= seen <= orig.len(),
                y <= self.game_map.len(),
                self.game_map.len() - y == orig.len() - seen,
                self.game_map.deep_view().take(y as int) == surviving(orig.take(seen)),
                self.game_map.deep_view().skip(y as int) == orig.skip(seen),
                score_add == start.level * complete_count(orig.take(seen)),
                self.nb_lines == start.lines + complete_count(orig.take(seen)),
                self.score == start.score,
                self.current_level == start.level,
                self.current_piece == old(self).current_piece,
                self.previous_kind == old(self).previous_kind,
                start.score + line_points(start.level, orig) <= u32::MAX,
                start.lines + complete_count(orig) <= u32::MAX,
            decreases orig.len() - seen,
        {
            let ghost rows = self.game_map.deep_view();
            let complete = is_complete(&self.game_map[y]);
            proof {
                assert(self.game_map[y as int]@ =~= rows[y as int]);
                lemma_skip_step(rows, y as int, orig, seen);
                lemma_scan_step(orig, seen);
                lemma_prefix_count(orig, seen + 1);
                let n = complete_count(orig.take(seen + 1));
                let total = complete_count(orig);
                let level = start.level;
                assert(level * n <= level * total) by (nonlinear_arith)
                    requires
                        n <= total,
                ;
                assert(level * (n - 1) + level == level * n) by (nonlinear_arith);
            }
            if complete {
                score_add += self.current_level;
                self.game_map.remove(y);
                self.increase_line();
                proof {
                    let now = self.game_map.deep_view();
                    assert(now =~= rows.remove(y as int));
                    assert(now.take(y as int) =~= rows.take(y as int));
                    assert(now.skip(y as int) =~= rows.skip(y + 1));
                }
            } else {
                y += 1;
                proof {
                    assert(rows.take(y as int) =~= rows.take(y - 1).push(rows[y - 1]));
                }
            }
            proof {
                seen = seen + 1;
            }
        }
        proof {
            assert(orig.take(seen) =~= orig);
            assert(self.game_map.deep_view() =~= self.game_map.deep_view().take(y as int));
            lemma_scan_total(orig);
        }
        if self.game_map.len() == 0 {
            score_add += EMPTY_BOARD_BONUS;
        }
        self.update_score(score_add);
        let ghost kept = surviving(orig);
        proof {
            assert(self.game_map.deep_view() =~= blank_rows(0) + kept);
        }
        while self.game_map.len() < BOARD_HEIGHT
            invariant
                kept.len() <= self.game_map.len(),
                self.game_map.len() <= BOARD_HEIGHT || self.game_map.len() == kept.len(),
                self.game_map.deep_view() == blank_rows(self.game_map.len() - kept.len()) + kept,
                self@ == (SessionModel { board: self.game_map.deep_view(), ..start.lines_cleared() }),
                self.current_piece == old(self).current_piece,
            decreases BOARD_HEIGHT - self.game_map.len(),
        {
            let ghost rows = self.game_map.deep_view();
            let row = new_row();
            assert(row.deep_view() =~= blank_row());
            self.game_map.insert(0, row);
            proof {
                let now = self.game_map.deep_view();
                assert(now =~= rows.insert(0, blank_row()));
                assert(now =~= blank_rows(self.game_map.len() - kept.len()) + kept);
            }
        }
        proof {
            assert(self.game_map.deep_view() == cleared(orig));
            lemma_cleared_board(orig);
        }
    }

    /// Locks the active piece: its occupied cells are written into the
    /// board where they fall on it, the level is added to the score, the
    /// complete rows are cleared, and the session is left without an active
    /// piece. Without an active piece only the rows are cleared.
    pub fn make_permanent(&mut self)
        requires
            old(self).wf(),
            old(self)@.locked().score <= u32::MAX,
            old(self)@.locked().lines <= u32::MAX,
        ensures
            final(self)@ == old(self)@.locked(),
            final(self).wf(),
            final(self).current_piece is None,
            old(self).current_piece is Some && complete_count(old(self)@.placed().board) == 0
                ==> final(self).score == old(self).score + old(self).current_level
                && final(self)@.board == old(self)@.placed().board,
            old(self).current_piece is Some && complete_count(old(self)@.placed().board)
                == BOARD_HEIGHT ==> final(self).score == old(self).score + old(self).current_level
                + BOARD_HEIGHT * old(self).current_level + EMPTY_BOARD_BONUS,
    {
        let mut to_add: u32 = 0;
        if let Some(ref piece) = self.current_piece {
            stamp(&mut self.game_map, piece);
            to_add += self.current_level;
        }
        proof {
            let placed = old(self)@.placed();
            assert(self.game_map.deep_view() == placed.board);
            assert(is_board(placed.board));
            lemma_scan_total(placed.board);
            lemma_cleared_board(placed.board);
            let n = complete_count(placed.board);
            let level = placed.level;
            assert(n == 0 ==> level * n == 0) by (nonlinear_arith);
            assert(n == BOARD_HEIGHT ==> level * n == BOARD_HEIGHT * level) by (nonlinear_arith);
        }
        self.update_score(to_add);
        self.check_lines();
        self.current_piece = None;
    }
}

} // verus!
