//! The moves of a game: what each intent of the player and each tick of
//! gravity does to the session, and what the driver has to do next.

use vstd::prelude::*;
use crate::board::{
    cell_free, complete_count, is_board, lemma_fits_bounds, lemma_scan_total, BOARD_HEIGHT,
    BOARD_WIDTH,
};
use crate::tetrimino::{kick_offsets, lemma_first_kick, PieceModel};
use crate::tetris_struct::{SessionModel, Tetris, EMPTY_BOARD_BONUS};

verus! {

/// What the player asks for.
#[derive(Clone, Copy, Debug, PartialEq, Eq, Structural)]
pub enum Intent {
    MoveLeft,
    MoveRight,
    RotateCW,
    SoftDrop,
    HardDrop,
    Quit,
}

/// What the driver has to do after a move.
#[derive(Clone, Copy, Debug, PartialEq, Eq, Structural)]
pub enum Reaction {
    /// Nothing.
    Continue,
    /// Start the gravity interval anew.
    ResetTimer,
    /// The active piece was locked: start the gravity interval anew and
    /// bring the next piece.
    Locked,
    /// End the game.
    Quit,
}

/// The fall interval of `level`, in milliseconds, for the levels 1 to 10.
pub open spec fn spec_gravity_interval(level: int) -> int {
    if level == 1 {
        1000
    } else if level == 2 {
        850
    } else if level == 3 {
        700
    } else if level == 4 {
        600
    } else if level == 5 {
        500
    } else if level == 6 {
        400
    } else if level == 7 {
        300
    } else if level == 8 {
        250
    } else if level == 9 {
        221
    } else {
        190
    }
}

/// The number of cleared lines that ends `level`, for the levels 1 to 10.
pub open spec fn spec_line_goal(level: int) -> int {
    20 * level
}

/// The fall interval of `level`, in milliseconds.
pub fn gravity_interval(level: u32) -> (millis: u32)
    requires
        1 <= level <= 10,
    ensures
        millis == spec_gravity_interval(level as int),
{
    match level {
        1 => 1000,
        2 => 850,
        3 => 700,
        4 => 600,
        5 => 500,
        6 => 400,
        7 => 300,
        8 => 250,
        9 => 221,
        _ => 190,
    }
}

/// The number of cleared lines that ends `level`.
pub fn line_goal(level: u32) -> (lines: u32)
    requires
        1 <= level <= 10,
    ensures
        lines == spec_line_goal(level as int),
{
    20 * level
}

impl SessionModel {
    /// The session with the active piece shifted sideways by `dx` columns,
    /// where that is legal; unchanged where it is not, or where there is no
    /// active piece.
    pub open spec fn shifted(self, dx: int) -> SessionModel {
        match self.piece {
            Some(p) => SessionModel { piece: Some(p.moved(self.board, p.x + dx, p.y)), ..self },
            None => self,
        }
    }

    /// The session with the active piece turned, as far as the board lets
    /// it.
    pub open spec fn turned(self) -> SessionModel {
        match self.piece {
            Some(p) => SessionModel { piece: Some(p.rotated(self.board)), ..self },
            None => self,
        }
    }

    /// The active piece can go one row down.
    pub open spec fn can_fall(self) -> bool {
        self.piece matches Some(p) && p.fits_at(self.board, p.state, p.x, p.y + 1)
    }

    /// The session after one step down: the active piece one row lower
    /// where that is legal, locked where it is not.
    pub open spec fn stepped_down(self) -> SessionModel {
        match self.piece {
            Some(p) => if self.can_fall() {
                SessionModel { piece: Some(PieceModel { y: p.y + 1, ..p }), ..self }
            } else {
                self.locked()
            },
            None => self,
        }
    }

    /// The session after a hard drop: the active piece fallen as far as it
    /// can, and locked there.
    pub open spec fn hard_dropped(self) -> SessionModel {
        match self.piece {
            Some(p) => (SessionModel { piece: Some(p.dropped(self.board)), ..self }).locked(),
            None => self,
        }
    }

    /// Gravity is due once the fall interval of the level has passed.
    pub open spec fn gravity_due(self, elapsed_millis: int) -> bool {
        elapsed_millis >= spec_gravity_interval(self.level as int)
    }

    /// The session after a tick: one step down where gravity is due.
    pub open spec fn ticked(self, elapsed_millis: int) -> SessionModel {
        if self.gravity_due(elapsed_millis) {
            self.stepped_down()
        } else {
            self
        }
    }

    /// The session after an intent. Without an active piece no intent
    /// changes anything; a soft drop and a quit never do.
    pub open spec fn after(self, intent: Intent) -> SessionModel {
        match intent {
            Intent::MoveLeft => self.shifted(-1),
            Intent::MoveRight => self.shifted(1),
            Intent::RotateCW => self.turned(),
            Intent::SoftDrop => self,
            Intent::HardDrop => self.hard_dropped(),
            Intent::Quit => self,
        }
    }

    /// What the driver has to do after an intent.
    pub open spec fn reaction(self, intent: Intent) -> Reaction {
        match intent {
            Intent::Quit => Reaction::Quit,
            Intent::SoftDrop => if self.piece is Some {
                Reaction::ResetTimer
            } else {
                Reaction::Continue
            },
            Intent::HardDrop => if self.piece is Some {
                Reaction::Locked
            } else {
                Reaction::Continue
            },
            _ => Reaction::Continue,
        }
    }

    /// The session can take any move: it is well formed, its level is one
    /// of the ten, and the score and the line count have room for what one
    /// lock-in can add at most.
    pub open spec fn ready(self) -> bool {
        &&& self.wf()
        &&& self.level <= 10
        &&& self.score + (BOARD_HEIGHT + 1) * self.level + EMPTY_BOARD_BONUS <= u32::MAX
        &&& self.lines + BOARD_HEIGHT <= u32::MAX
    }

    /// What the driver has to do after a tick.
    pub open spec fn tick_reaction(self, elapsed_millis: int) -> Reaction {
        if !self.gravity_due(elapsed_millis) {
            Reaction::Continue
        } else if self.piece is Some && !self.can_fall() {
            Reaction::Locked
        } else {
            Reaction::ResetTimer
        }
    }
}

/// A session that is ready can take every move: none of them brings the
/// score or the line count out of range.
pub proof fn lemma_ready(session: SessionModel)
    requires
        session.ready(),
    ensures
        session.lines_cleared().countable(),
        session.locked().countable(),
        session.stepped_down().countable(),
        session.hard_dropped().countable(),
        forall|elapsed_millis: int| (#[trigger] session.ticked(elapsed_millis)).countable(),
        forall|intent: Intent| (#[trigger] session.after(intent)).countable(),
{
    lemma_lock_gain(session);
    if let Some(p) = session.piece {
        lemma_lock_gain(SessionModel { piece: Some(p.dropped(session.board)), ..session });
    }
}

/// No move takes points or lines away, and none changes the level.
pub proof fn lemma_counters_grow(session: SessionModel)
    ensures
        forall|intent: Intent|
            {
                let next = #[trigger] session.after(intent);
                next.score >= session.score && next.lines >= session.lines && next.level
                    == session.level
            },
        forall|elapsed_millis: int|
            {
                let next = #[trigger] session.ticked(elapsed_millis);
                next.score >= session.score && next.lines >= session.lines && next.level
                    == session.level
            },
{
}

/// A legal piece stays legal: after any intent and after any tick the
/// active piece, where there still is one, is legal on the board.
pub proof fn lemma_moves_keep_legal(session: SessionModel)
    requires
        session.wf(),
        session.piece matches Some(p) && p.legal(session.board),
    ensures
        forall|intent: Intent|
            {
                let next = #[trigger] session.after(intent);
                next.piece matches Some(p) ==> p.legal(next.board)
            },
        forall|elapsed_millis: int|
            {
                let next = #[trigger] session.ticked(elapsed_millis);
                next.piece matches Some(p) ==> p.legal(next.board)
            },
{
    let p = session.piece->0;
    lemma_first_kick(p, session.board, 0);
}

/// A lock-in adds at most the level for the piece, the level for each row
/// of the board, and the bonus; and at most one line for each row.
pub proof fn lemma_lock_gain(session: SessionModel)
    requires
        is_board(session.board),
    ensures
        session.lines_cleared().score <= session.score + BOARD_HEIGHT * session.level
            + EMPTY_BOARD_BONUS,
        session.lines_cleared().lines <= session.lines + BOARD_HEIGHT,
        session.locked().score <= session.score + (BOARD_HEIGHT + 1) * session.level
            + EMPTY_BOARD_BONUS,
        session.locked().lines <= session.lines + BOARD_HEIGHT,
{
    let level = session.level;
    lemma_scan_total(session.board);
    let n = complete_count(session.board);
    assert(level * n <= BOARD_HEIGHT * level) by (nonlinear_arith)
        requires
            n <= BOARD_HEIGHT,
    ;
    let placed = session.placed();
    assert(is_board(placed.board));
    lemma_scan_total(placed.board);
    let m = complete_count(placed.board);
    assert(level * m <= BOARD_HEIGHT * level) by (nonlinear_arith)
        requires
            m <= BOARD_HEIGHT,
    ;
    assert((BOARD_HEIGHT + 1) * level == BOARD_HEIGHT * level + level) by (nonlinear_arith);
}

impl Tetris {
    /// Whether the session can take any move. A session made by `new` and
    /// changed by moves alone is well formed; this also tells whether the
    /// level is one of the ten and whether the counters have room left.
    pub fn is_ready(&self) -> (ready: bool)
        ensures
            ready == self@.ready(),
    {
        let ghost board = self.game_map.deep_view();
        if self.game_map.len() != BOARD_HEIGHT {
            return false;
        }
        let mut r: usize = 0;
        while r < BOARD_HEIGHT
            invariant
                r <= BOARD_HEIGHT,
                self.game_map.len() == BOARD_HEIGHT,
                board == self.game_map.deep_view(),
                forall|i: int| 0 <= i < r ==> (#[trigger] board[i]).len() == BOARD_WIDTH,
            decreases BOARD_HEIGHT - r,
        {
            assert(self.game_map[r as int]@ =~= board[r as int]);
            if self.game_map[r].len() != BOARD_WIDTH {
                return false;
            }
            r += 1;
        }
        let piece_ok = match &self.current_piece {
            Some(piece) => piece.is_well_formed(),
            None => true,
        };
        let level = self.current_level as u64;
        piece_ok && 1 <= level && level <= 10 && self.score as u64 + 17 * level
            + EMPTY_BOARD_BONUS as u64 <= u32::MAX as u64 && self.nb_lines as u64
            + BOARD_HEIGHT as u64 <= u32::MAX as u64
    }

    /// Whether more lines were cleared than the level asks for. This is what
    /// a rule for going up a level would look at; the session itself never
    /// changes its level.
    pub fn line_goal_passed(&self) -> (passed: bool)
        requires
            1 <= self.current_level <= 10,
        ensures
            passed == (self.nb_lines > spec_line_goal(self.current_level as int)),
    {
        self.nb_lines > line_goal(self.current_level)
    }

    /// Whether gravity is due after `elapsed_millis` milliseconds.
    pub fn is_time_over(&self, elapsed_millis: u64) -> (due: bool)
        requires
            1 <= self.current_level <= 10,
        ensures
            due == self@.gravity_due(elapsed_millis as int),
    {
        elapsed_millis >= gravity_interval(self.current_level) as u64
    }

    /// Moves the active piece one column to the left where that is legal,
    /// and says whether it moved.
    pub fn move_left(&mut self) -> (moved: bool)
        requires
            old(self).wf(),
        ensures
            final(self)@ == old(self)@.shifted(-1),
            moved == (old(self)@.piece matches Some(p) && p.fits_at(
                old(self)@.board,
                p.state,
                p.x - 1,
                p.y,
            )),
            final(self).wf(),
            final(self).game_map == old(self).game_map,
    {
        let mut moved = false;
        if let Some(ref mut piece) = self.current_piece {
            proof {
                if piece@.fits_at(self.game_map.deep_view(), piece@.state, piece@.x - 1, piece@.y) {
                    lemma_fits_bounds(
                        piece@.shape(),
                        self.game_map.deep_view(),
                        piece@.x - 1,
                        piece@.y,
                    );
                }
            }
            if piece.x > isize::MIN {
                moved = piece.change_position(&self.game_map, piece.x - 1, piece.y);
            }
        }
        moved
    }

    /// Moves the active piece one column to the right where that is legal,
    /// and says whether it moved.
    pub fn move_right(&mut self) -> (moved: bool)
        requires
            old(self).wf(),
        ensures
            final(self)@ == old(self)@.shifted(1),
            moved == (old(self)@.piece matches Some(p) && p.fits_at(
                old(self)@.board,
                p.state,
                p.x + 1,
                p.y,
            )),
            final(self).wf(),
            final(self).game_map == old(self).game_map,
    {
        let mut moved = false;
        if let Some(ref mut piece) = self.current_piece {
            proof {
                let board = self.game_map.deep_view();
                if piece@.fits_at(board, piece@.state, piece@.x + 1, piece@.y) {
                    lemma_fits_on_board(piece@, board, piece@.state, piece@.x + 1, piece@.y);
                }
            }
            if piece.x < isize::MAX {
                moved = piece.change_position(&self.game_map, piece.x + 1, piece.y);
            }
        }
        moved
    }

    /// Turns the active piece, with a sideways kick where the board asks
    /// for one. Where no kick makes the turn legal, nothing changes.
    pub fn rotate_active(&mut self)
        requires
            old(self).wf(),
        ensures
            final(self)@ == old(self)@.turned(),
            final(self).wf(),
            final(self).game_map == old(self).game_map,
    {
        if let Some(ref mut piece) = self.current_piece {
            if piece.x >= isize::MIN + 3 && piece.x <= isize::MAX - 2 {
                piece.rotate(&self.game_map);
            } else {
                proof {
                    let board = self.game_map.deep_view();
                    let p = piece@;
                    assert forall|k: int| 0 <= k < kick_offsets().len() implies !p.kick_fits(
                        board,
                        k,
                    ) by {
                        if p.kick_fits(board, k) {
                            lemma_fits_on_board(
                                p,
                                board,
                                p.next_state(),
                                p.x + kick_offsets()[k],
                                p.y,
                            );
                        }
                    }
                    lemma_first_kick(p, board, 0);
                }
            }
        }
    }

    /// Moves the active piece one row down. Where the row below is not
    /// legal, the piece is locked instead. Returns whether it was locked.
    pub fn soft_drop_step(&mut self) -> (locked: bool)
        requires
            old(self).wf(),
            old(self)@.stepped_down().countable(),
        ensures
            final(self)@ == old(self)@.stepped_down(),
            locked == (old(self)@.piece is Some && !old(self)@.can_fall()),
            final(self).wf(),
    {
        let mut make_permanent = false;
        if let Some(ref mut piece) = self.current_piece {
            proof {
                let board = self.game_map.deep_view();
                if piece@.fits_at(board, piece@.state, piece@.x, piece@.y + 1) {
                    lemma_fits_on_board(piece@, board, piece@.state, piece@.x, piece@.y + 1);
                }
            }
            let moved = if piece.y < usize::MAX {
                piece.change_position(&self.game_map, piece.x, piece.y + 1)
            } else {
                false
            };
            make_permanent = !moved;
        }
        if make_permanent {
            self.make_permanent();
        }
        make_permanent
    }

    /// Lets the active piece fall as far as it can and locks it there.
    /// Returns whether there was a piece to drop.
    pub fn hard_drop(&mut self) -> (locked: bool)
        requires
            old(self).wf(),
            old(self)@.hard_dropped().countable(),
        ensures
            final(self)@ == old(self)@.hard_dropped(),
            locked == (old(self)@.piece is Some),
            final(self).wf(),
    {
        let mut make_permanent = false;
        if let Some(ref mut piece) = self.current_piece {
            let ghost board = self.game_map.deep_view();
            let ghost start = piece@;
            let x = piece.x;
            let mut falling = true;
            while falling
                invariant
                    piece.wf(),
                    board == self.game_map.deep_view(),
                    is_board(board),
                    piece@ == (PieceModel { y: piece@.y, ..start }),
                    x == start.x,
                    falling ==> start.landing_row(board, start.y) == start.landing_row(
                        board,
                        piece@.y,
                    ),
                    !falling ==> start.landing_row(board, start.y) == piece@.y,
                    falling ==> piece@.y == start.y || piece@.y < board.len(),
                decreases BOARD_HEIGHT + 3 - piece@.y, falling as int,
            {
                let ghost before = piece@;
                proof {
                    if before.fits_at(board, before.state, x as int, before.y + 1) {
                        lemma_fits_on_board(before, board, before.state, x as int, before.y + 1);
                    }
                }
                if piece.y < self.game_map.len() {
                    falling = piece.change_position(&self.game_map, x, piece.y + 1);
                } else {
                    falling = false;
                }
            }
            make_permanent = true;
        }
        if make_permanent {
            self.make_permanent();
        }
        make_permanent
    }

    /// One tick of the clock: where gravity is due after `elapsed_millis`
    /// milliseconds, the active piece goes one row down or is locked.
    pub fn tick(&mut self, elapsed_millis: u64) -> (reaction: Reaction)
        requires
            old(self).wf(),
            old(self).current_level <= 10,
            old(self)@.ticked(elapsed_millis as int).countable(),
        ensures
            final(self)@ == old(self)@.ticked(elapsed_millis as int),
            reaction == old(self)@.tick_reaction(elapsed_millis as int),
            final(self).wf(),
    {
        if self.is_time_over(elapsed_millis) {
            if self.soft_drop_step() {
                Reaction::Locked
            } else {
                Reaction::ResetTimer
            }
        } else {
            Reaction::Continue
        }
    }

    /// Carries out one intent of the player and says what the driver has
    /// to do next.
    pub fn handle_intent(&mut self, intent: Intent) -> (reaction: Reaction)
        requires
            old(self).wf(),
            old(self)@.after(intent).countable(),
        ensures
            final(self)@ == old(self)@.after(intent),
            reaction == old(self)@.reaction(intent),
            final(self).wf(),
    {
        match intent {
            Intent::MoveLeft => {
                self.move_left();
                Reaction::Continue
            },
            Intent::MoveRight => {
                self.move_right();
                Reaction::Continue
            },
            Intent::RotateCW => {
                self.rotate_active();
                Reaction::Continue
            },
            Intent::SoftDrop => {
                if self.current_piece.is_some() {
                    Reaction::ResetTimer
                } else {
                    Reaction::Continue
                }
            },
            Intent::HardDrop => {
                if self.hard_drop() {
                    Reaction::Locked
                } else {
                    Reaction::Continue
                }
            },
            Intent::Quit => Reaction::Quit,
        }
    }
}

/// On a board of full size a legal position keeps the piece's corner
/// within reach of the board.
pub proof fn lemma_fits_on_board(piece: PieceModel, board: Seq<Seq<u8>>, state: int, x: int, y: int)
    requires
        piece.wf(),
        is_board(board),
        0 <= state < piece.states.len(),
        piece.fits_at(board, state, x, y),
    ensures
        -3 <= x < BOARD_WIDTH,
        -3 <= y < BOARD_HEIGHT,
{
    let shape = piece.states[state];
    let (r, c) = choose|r: int, c: int| 0 <= r < 4 && 0 <= c < 4 && #[trigger] shape[r][c] != 0;
    assert(cell_free(board, y + r, x + c));
}

} // verus!
