use tetris::play::{gravity_interval, line_goal};
use tetris::tetris_struct::{choose_kind, stamp};
use tetris::{
    Intent, PieceKind, Reaction, Tetrimino, TetriminoGenerator, TetriminoI, TetriminoO,
    TetriminoT, Tetris,
};

fn occupied(row: &[u8]) -> usize {
    row.iter().filter(|c| **c != 0).count()
}

fn piece_at(mut piece: Tetrimino, x: isize, y: usize) -> Option<Tetrimino> {
    piece.x = x;
    piece.y = y;
    Some(piece)
}

fn position(tetris: &Tetris) -> (isize, usize, u8) {
    let piece = tetris.current_piece.as_ref().unwrap();
    (piece.x, piece.y, piece.current_state)
}

#[test]
fn new_session_is_empty() {
    let tetris = Tetris::new();
    assert_eq!(tetris.game_map.len(), 16);
    for row in &tetris.game_map {
        assert_eq!(row, &vec![0u8; 10]);
    }
    assert_eq!(tetris.current_level, 1);
    assert_eq!(tetris.score, 0);
    assert_eq!(tetris.nb_lines, 0);
    assert!(tetris.current_piece.is_none());
    assert!(tetris.previous_kind.is_none());
}

#[test]
fn update_score_adds_points() {
    let mut tetris = Tetris::new();
    tetris.update_score(0);
    assert_eq!(tetris.score, 0);
    tetris.update_score(7);
    tetris.update_score(1000);
    assert_eq!(tetris.score, 1007);
}

#[test]
fn increase_line_counts_one_line() {
    let mut tetris = Tetris::new();
    tetris.increase_line();
    tetris.increase_line();
    assert_eq!(tetris.nb_lines, 2);
    assert_eq!(tetris.current_level, 1);
    assert_eq!(tetris.score, 0);
}

#[test]
fn stamp_writes_the_occupied_cells() {
    let mut board = vec![vec![0u8; 10]; 16];
    let mut piece = TetriminoT::new();
    piece.x = 2;
    piece.y = 9;
    stamp(&mut board, &piece);
    assert_eq!(board[9], vec![0, 0, 7, 7, 7, 0, 0, 0, 0, 0]);
    assert_eq!(board[10], vec![0, 0, 0, 7, 0, 0, 0, 0, 0, 0]);
    let cells: usize = board.iter().map(|r| occupied(r)).sum();
    assert_eq!(cells, 4);
}

#[test]
fn stamp_keeps_cells_under_the_empty_cells_of_the_shape() {
    let mut board = vec![vec![0u8; 10]; 16];
    board[10][2] = 3;
    board[10][3] = 3;
    let mut piece = TetriminoT::new();
    piece.x = 2;
    piece.y = 9;
    stamp(&mut board, &piece);
    assert_eq!(board[10], vec![0, 0, 3, 7, 0, 0, 0, 0, 0, 0]);
}

#[test]
fn stamp_skips_cells_outside_the_board() {
    let mut board = vec![vec![0u8; 10]; 16];
    let mut piece = TetriminoI::new();
    piece.x = -2;
    piece.y = 4;
    stamp(&mut board, &piece);
    assert_eq!(board[4], vec![1, 1, 0, 0, 0, 0, 0, 0, 0, 0]);
    piece.x = 8;
    piece.y = 6;
    stamp(&mut board, &piece);
    assert_eq!(board[6], vec![0, 0, 0, 0, 0, 0, 0, 0, 1, 1]);
    piece.current_state = 1;
    piece.x = 0;
    piece.y = 14;
    stamp(&mut board, &piece);
    assert_eq!(board[14][1], 1);
    assert_eq!(board[15][1], 1);
    piece.y = 40;
    let before = board.clone();
    stamp(&mut board, &piece);
    assert_eq!(board, before);
}

#[test]
fn locking_two_o_pieces_into_the_bottom_row() {
    let mut tetris = Tetris::new();
    let level = tetris.current_level;
    tetris.current_piece = piece_at(TetriminoO::new(), 0, 15);
    tetris.make_permanent();
    assert!(tetris.current_piece.is_none());
    tetris.current_piece = piece_at(TetriminoO::new(), 2, 15);
    tetris.make_permanent();
    assert!(tetris.current_piece.is_none());
    assert_eq!(tetris.game_map.len(), 16);
    assert_eq!(tetris.game_map[15], vec![4, 4, 4, 4, 0, 0, 0, 0, 0, 0]);
    assert_eq!(occupied(&tetris.game_map[15]), 4);
    assert_eq!(tetris.game_map[15].len() - occupied(&tetris.game_map[15]), 6);
    for row in &tetris.game_map[..15] {
        assert_eq!(occupied(row), 0);
    }
    assert_eq!(tetris.nb_lines, 0);
    assert_eq!(tetris.score, 2 * level);
}

#[test]
fn lock_without_complete_line_adds_the_level() {
    let mut tetris = Tetris::new();
    tetris.current_level = 3;
    tetris.score = 40;
    tetris.current_piece = piece_at(TetriminoT::new(), 4, 14);
    tetris.make_permanent();
    assert_eq!(tetris.score, 43);
    assert_eq!(tetris.nb_lines, 0);
    assert_eq!(tetris.game_map[14], vec![0, 0, 0, 0, 7, 7, 7, 0, 0, 0]);
    assert_eq!(tetris.game_map[15], vec![0, 0, 0, 0, 0, 7, 0, 0, 0, 0]);
}

#[test]
fn lock_without_piece_only_clears_lines() {
    let mut tetris = Tetris::new();
    tetris.game_map[15] = vec![2; 10];
    tetris.game_map[14][0] = 5;
    tetris.make_permanent();
    assert_eq!(tetris.score, 1);
    assert_eq!(tetris.nb_lines, 1);
    assert_eq!(tetris.game_map[15], vec![5, 0, 0, 0, 0, 0, 0, 0, 0, 0]);
    assert_eq!(tetris.game_map[14], vec![0; 10]);
}

#[test]
fn lock_that_completes_a_line_clears_it() {
    let mut tetris = Tetris::new();
    tetris.current_level = 2;
    tetris.game_map[15] = vec![6, 6, 6, 6, 6, 6, 0, 0, 0, 0];
    tetris.game_map[14] = vec![0, 0, 0, 0, 0, 0, 0, 0, 0, 3];
    tetris.current_piece = piece_at(TetriminoI::new(), 6, 15);
    tetris.make_permanent();
    // 2 for the lock, 2 for the line
    assert_eq!(tetris.score, 4);
    assert_eq!(tetris.nb_lines, 1);
    assert_eq!(tetris.game_map.len(), 16);
    assert_eq!(tetris.game_map[15], vec![0, 0, 0, 0, 0, 0, 0, 0, 0, 3]);
    assert_eq!(tetris.game_map[14], vec![0; 10]);
    assert_eq!(tetris.game_map[0], vec![0; 10]);
}

#[test]
fn check_lines_without_complete_row_changes_nothing() {
    let mut tetris = Tetris::new();
    tetris.game_map[15] = vec![1, 1, 1, 1, 1, 1, 1, 1, 1, 0];
    tetris.game_map[3][4] = 2;
    let before = tetris.game_map.clone();
    tetris.check_lines();
    assert_eq!(tetris.game_map, before);
    assert_eq!(tetris.score, 0);
    assert_eq!(tetris.nb_lines, 0);
}

#[test]
fn check_lines_removes_adjacent_complete_rows() {
    let mut tetris = Tetris::new();
    tetris.current_level = 4;
    tetris.game_map[12] = vec![0, 0, 7, 0, 0, 0, 0, 0, 0, 0];
    tetris.game_map[13] = vec![1; 10];
    tetris.game_map[14] = vec![2; 10];
    tetris.game_map[15] = vec![3, 0, 3, 3, 3, 3, 3, 3, 3, 3];
    tetris.check_lines();
    assert_eq!(tetris.game_map.len(), 16);
    assert_eq!(tetris.game_map[15], vec![3, 0, 3, 3, 3, 3, 3, 3, 3, 3]);
    assert_eq!(tetris.game_map[14], vec![0, 0, 7, 0, 0, 0, 0, 0, 0, 0]);
    for row in &tetris.game_map[..14] {
        assert_eq!(row, &vec![0u8; 10]);
    }
    assert_eq!(tetris.score, 8);
    assert_eq!(tetris.nb_lines, 2);
}

#[test]
fn check_lines_removes_the_top_row_when_complete() {
    let mut tetris = Tetris::new();
    tetris.game_map[0] = vec![5; 10];
    tetris.game_map[1] = vec![5; 10];
    tetris.game_map[2][9] = 1;
    tetris.check_lines();
    assert_eq!(tetris.game_map.len(), 16);
    assert_eq!(tetris.game_map[0], vec![0; 10]);
    assert_eq!(tetris.game_map[1], vec![0; 10]);
    assert_eq!(tetris.game_map[2], vec![0, 0, 0, 0, 0, 0, 0, 0, 0, 1]);
    assert_eq!(tetris.nb_lines, 2);
    assert_eq!(tetris.score, 2);
}

#[test]
fn check_lines_keeps_the_order_of_the_other_rows() {
    let mut tetris = Tetris::new();
    for r in 0..16usize {
        tetris.game_map[r] = if r % 2 == 0 { vec![1; 10] } else { vec![r as u8, 0, 0, 0, 0, 0, 0, 0, 0, 0] };
    }
    tetris.check_lines();
    assert_eq!(tetris.game_map.len(), 16);
    for r in 0..8usize {
        assert_eq!(tetris.game_map[r], vec![0; 10]);
        assert_eq!(tetris.game_map[8 + r][0], (2 * r + 1) as u8);
    }
    assert_eq!(tetris.nb_lines, 8);
    assert_eq!(tetris.score, 8);
}

#[test]
fn clearing_the_whole_board_earns_the_bonus() {
    let mut tetris = Tetris::new();
    tetris.current_level = 2;
    tetris.score = 10;
    for row in tetris.game_map.iter_mut() {
        *row = vec![4; 10];
    }
    tetris.check_lines();
    assert_eq!(tetris.game_map, vec![vec![0u8; 10]; 16]);
    assert_eq!(tetris.nb_lines, 16);
    assert_eq!(tetris.score, 10 + 16 * 2 + 1000);
}

#[test]
fn lock_that_clears_the_whole_board_adds_level_lines_and_bonus() {
    let mut tetris = Tetris::new();
    tetris.current_level = 3;
    for row in tetris.game_map.iter_mut() {
        *row = vec![4; 10];
    }
    tetris.game_map[15] = vec![4, 4, 4, 4, 4, 4, 0, 0, 0, 0];
    tetris.current_piece = piece_at(TetriminoI::new(), 6, 15);
    tetris.make_permanent();
    assert_eq!(tetris.game_map, vec![vec![0u8; 10]; 16]);
    assert_eq!(tetris.nb_lines, 16);
    assert_eq!(tetris.score, 3 + 16 * 3 + 1000);
    assert!(tetris.current_piece.is_none());
}

#[test]
fn choose_kind_takes_the_first_roll_unless_it_repeats() {
    assert_eq!(choose_kind(None, 0, 5), PieceKind::I);
    assert_eq!(choose_kind(Some(PieceKind::J), 0, 5), PieceKind::I);
    assert_eq!(choose_kind(Some(PieceKind::I), 0, 5), PieceKind::Z);
    assert_eq!(choose_kind(Some(PieceKind::I), 7, 13), PieceKind::T);
    assert_eq!(choose_kind(Some(PieceKind::T), 6, 3), PieceKind::O);
}

#[test]
fn choose_kind_accepts_a_second_repeat() {
    assert_eq!(choose_kind(Some(PieceKind::I), 0, 0), PieceKind::I);
    assert_eq!(choose_kind(Some(PieceKind::S), 4, 11), PieceKind::S);
}

#[test]
fn choose_kind_repeats_only_when_both_rolls_repeat() {
    let kinds = [
        PieceKind::I,
        PieceKind::J,
        PieceKind::L,
        PieceKind::O,
        PieceKind::S,
        PieceKind::Z,
        PieceKind::T,
    ];
    for previous in kinds {
        for first in 0..=255u8 {
            for second in 0..=255u8 {
                let kind = choose_kind(Some(previous), first, second);
                if kind == previous {
                    assert_eq!(PieceKind::from_roll(first), previous);
                    assert_eq!(PieceKind::from_roll(second), previous);
                }
            }
        }
    }
}

#[test]
fn create_new_tetrimino_remembers_the_kind_it_made() {
    let mut tetris = Tetris::new();
    let mut seen = [false; 7];
    for _ in 0..1000 {
        let piece = tetris.create_new_tetrimino();
        let kind = tetris.previous_kind.unwrap();
        let fresh = Tetrimino::spawn(kind);
        assert_eq!(piece.states, fresh.states);
        assert_eq!((piece.x, piece.y, piece.current_state), (fresh.x, 0, 0));
        seen[(kind.color_id() - 1) as usize] = true;
    }
    assert!(seen.iter().filter(|s| **s).count() >= 2);
    assert!(tetris.current_piece.is_none());
    assert_eq!(tetris.score, 0);
    assert_eq!(tetris.game_map, vec![vec![0u8; 10]; 16]);
}

#[test]
fn create_new_tetrimino_seldom_repeats() {
    let mut tetris = Tetris::new();
    let mut repeats = 0;
    let mut previous = None;
    for _ in 0..1000 {
        tetris.create_new_tetrimino();
        if tetris.previous_kind == previous {
            repeats += 1;
        }
        previous = tetris.previous_kind;
    }
    // one draw in seven repeats; only a repeated redraw gets through
    assert!(repeats < 100);
}

#[test]
fn install_accepts_a_piece_on_an_empty_board() {
    let mut tetris = Tetris::new();
    assert!(tetris.install(TetriminoT::new()));
    assert_eq!(position(&tetris), (4, 0, 0));
}

#[test]
fn install_turns_a_piece_away_from_an_occupied_spawn() {
    let mut tetris = Tetris::new();
    tetris.game_map[0][5] = 1;
    assert!(!tetris.install(TetriminoT::new()));
    assert!(tetris.current_piece.is_none());
    assert_eq!(tetris.game_map[0][5], 1);
}

#[test]
fn spawn_next_installs_on_an_empty_board() {
    let mut tetris = Tetris::new();
    assert!(tetris.spawn_next());
    let kind = tetris.previous_kind.unwrap();
    let piece = tetris.current_piece.as_ref().unwrap();
    assert_eq!(piece.states, Tetrimino::spawn(kind).states);
    assert_eq!(piece.y, 0);
}

#[test]
fn spawn_next_ends_the_game_on_a_full_top() {
    let mut tetris = Tetris::new();
    tetris.game_map[0] = vec![1, 1, 1, 1, 1, 1, 1, 1, 1, 0];
    tetris.game_map[1] = vec![1, 1, 1, 1, 1, 1, 1, 1, 1, 0];
    tetris.game_map[2] = vec![1, 1, 1, 1, 1, 1, 1, 1, 1, 0];
    tetris.game_map[3] = vec![1, 1, 1, 1, 1, 1, 1, 1, 1, 0];
    assert!(!tetris.spawn_next());
    assert!(tetris.current_piece.is_none());
    assert!(tetris.previous_kind.is_some());
}

#[test]
fn gravity_intervals_by_level() {
    let expected = [1000u32, 850, 700, 600, 500, 400, 300, 250, 221, 190];
    for level in 1..=10u32 {
        assert_eq!(gravity_interval(level), expected[(level - 1) as usize]);
    }
}

#[test]
fn line_goals_by_level() {
    let expected = [20u32, 40, 60, 80, 100, 120, 140, 160, 180, 200];
    for level in 1..=10u32 {
        assert_eq!(line_goal(level), expected[(level - 1) as usize]);
    }
}

#[test]
fn gravity_is_due_from_the_interval_on() {
    let mut tetris = Tetris::new();
    assert!(!tetris.is_time_over(0));
    assert!(!tetris.is_time_over(999));
    assert!(tetris.is_time_over(1000));
    assert!(tetris.is_time_over(5000));
    tetris.current_level = 10;
    assert!(!tetris.is_time_over(189));
    assert!(tetris.is_time_over(190));
}

#[test]
fn tick_before_the_interval_does_nothing() {
    let mut tetris = Tetris::new();
    tetris.current_piece = Some(TetriminoT::new());
    assert_eq!(tetris.tick(999), Reaction::Continue);
    assert_eq!(position(&tetris), (4, 0, 0));
}

#[test]
fn tick_moves_the_piece_one_row_down() {
    let mut tetris = Tetris::new();
    tetris.current_piece = Some(TetriminoT::new());
    assert_eq!(tetris.tick(1000), Reaction::ResetTimer);
    assert_eq!(position(&tetris), (4, 1, 0));
    assert_eq!(tetris.score, 0);
}

#[test]
fn tick_locks_a_piece_that_cannot_fall() {
    let mut tetris = Tetris::new();
    tetris.current_piece = piece_at(TetriminoT::new(), 4, 14);
    assert_eq!(tetris.tick(1200), Reaction::Locked);
    assert!(tetris.current_piece.is_none());
    assert_eq!(tetris.game_map[14], vec![0, 0, 0, 0, 7, 7, 7, 0, 0, 0]);
    assert_eq!(tetris.game_map[15], vec![0, 0, 0, 0, 0, 7, 0, 0, 0, 0]);
    assert_eq!(tetris.score, 1);
}

#[test]
fn tick_without_piece_only_resets_the_timer() {
    let mut tetris = Tetris::new();
    assert_eq!(tetris.tick(1000), Reaction::ResetTimer);
    assert_eq!(tetris.tick(10), Reaction::Continue);
    assert!(tetris.current_piece.is_none());
    assert_eq!(tetris.score, 0);
}

#[test]
fn sideways_moves_stop_at_the_walls() {
    let mut tetris = Tetris::new();
    tetris.current_piece = Some(TetriminoO::new());
    assert!(tetris.move_left());
    assert_eq!(position(&tetris), (4, 0, 0));
    for _ in 0..4 {
        assert!(tetris.move_left());
    }
    assert_eq!(position(&tetris), (0, 0, 0));
    assert!(!tetris.move_left());
    assert_eq!(position(&tetris), (0, 0, 0));
    for _ in 0..8 {
        assert!(tetris.move_right());
    }
    assert_eq!(position(&tetris), (8, 0, 0));
    assert!(!tetris.move_right());
    assert_eq!(position(&tetris), (8, 0, 0));
    assert_eq!(tetris.score, 0);
}

#[test]
fn sideways_moves_without_piece_do_nothing() {
    let mut tetris = Tetris::new();
    assert!(!tetris.move_left());
    assert!(!tetris.move_right());
    tetris.rotate_active();
    assert!(!tetris.soft_drop_step());
    assert!(!tetris.hard_drop());
    assert!(tetris.current_piece.is_none());
    assert_eq!(tetris.score, 0);
}

#[test]
fn rejected_sideways_move_does_not_lock() {
    let mut tetris = Tetris::new();
    tetris.game_map[0][3] = 2;
    tetris.current_piece = Some(TetriminoT::new());
    assert!(!tetris.move_left());
    assert_eq!(position(&tetris), (4, 0, 0));
    assert_eq!(tetris.score, 0);
}

#[test]
fn rotate_active_turns_the_piece() {
    let mut tetris = Tetris::new();
    tetris.current_piece = Some(TetriminoI::new());
    tetris.rotate_active();
    assert_eq!(position(&tetris), (4, 0, 1));
    tetris.current_piece.as_mut().unwrap().x = 8;
    tetris.rotate_active();
    assert_eq!(position(&tetris), (6, 0, 2));
}

#[test]
fn soft_drop_step_moves_or_locks() {
    let mut tetris = Tetris::new();
    tetris.current_piece = piece_at(TetriminoO::new(), 0, 13);
    assert!(!tetris.soft_drop_step());
    assert_eq!(position(&tetris), (0, 14, 0));
    assert!(tetris.soft_drop_step());
    assert!(tetris.current_piece.is_none());
    assert_eq!(tetris.game_map[14], vec![4, 4, 0, 0, 0, 0, 0, 0, 0, 0]);
    assert_eq!(tetris.game_map[15], vec![4, 4, 0, 0, 0, 0, 0, 0, 0, 0]);
    assert_eq!(tetris.score, 1);
}

#[test]
fn hard_drop_lands_on_the_floor() {
    let mut tetris = Tetris::new();
    tetris.current_piece = Some(TetriminoI::new());
    assert!(tetris.hard_drop());
    assert!(tetris.current_piece.is_none());
    assert_eq!(tetris.game_map[15], vec![0, 0, 0, 0, 1, 1, 1, 1, 0, 0]);
    for row in &tetris.game_map[..15] {
        assert_eq!(occupied(row), 0);
    }
    assert_eq!(tetris.score, 1);
}

#[test]
fn hard_drop_lands_on_the_stack() {
    let mut tetris = Tetris::new();
    tetris.game_map[10][5] = 2;
    tetris.current_piece = Some(TetriminoO::new());
    assert!(tetris.hard_drop());
    assert_eq!(tetris.game_map[8], vec![0, 0, 0, 0, 0, 4, 4, 0, 0, 0]);
    assert_eq!(tetris.game_map[9], vec![0, 0, 0, 0, 0, 4, 4, 0, 0, 0]);
    assert_eq!(tetris.game_map[10], vec![0, 0, 0, 0, 0, 2, 0, 0, 0, 0]);
}

#[test]
fn hard_drop_stops_under_an_overhang_it_cannot_pass() {
    let mut tetris = Tetris::new();
    // a gap further down is out of reach once the row above it blocks
    tetris.game_map[4] = vec![3, 3, 3, 3, 3, 3, 3, 3, 3, 0];
    tetris.current_piece = Some(TetriminoO::new());
    assert!(tetris.hard_drop());
    assert_eq!(tetris.game_map[2], vec![0, 0, 0, 0, 0, 4, 4, 0, 0, 0]);
    assert_eq!(tetris.game_map[3], vec![0, 0, 0, 0, 0, 4, 4, 0, 0, 0]);
    assert_eq!(occupied(&tetris.game_map[5]), 0);
}

#[test]
fn hard_drop_ends_within_the_board_height() {
    let board = vec![vec![0u8; 10]; 16];
    let mut piece = TetriminoT::new();
    let mut steps = 0;
    while piece.change_position(&board, piece.x, piece.y + 1) {
        steps += 1;
        assert!(steps <= 16);
    }
    assert_eq!(piece.y, 14);
    assert_eq!(steps, 14);
}

#[test]
fn intents_drive_the_session() {
    let mut tetris = Tetris::new();
    tetris.current_piece = Some(TetriminoT::new());
    assert_eq!(tetris.handle_intent(Intent::MoveLeft), Reaction::Continue);
    assert_eq!(position(&tetris), (3, 0, 0));
    assert_eq!(tetris.handle_intent(Intent::MoveRight), Reaction::Continue);
    assert_eq!(tetris.handle_intent(Intent::MoveRight), Reaction::Continue);
    assert_eq!(position(&tetris), (5, 0, 0));
    assert_eq!(tetris.handle_intent(Intent::RotateCW), Reaction::Continue);
    assert_eq!(position(&tetris), (5, 0, 1));
    assert_eq!(tetris.handle_intent(Intent::SoftDrop), Reaction::ResetTimer);
    assert_eq!(position(&tetris), (5, 0, 1));
    assert_eq!(tetris.handle_intent(Intent::Quit), Reaction::Quit);
    assert_eq!(position(&tetris), (5, 0, 1));
    assert_eq!(tetris.handle_intent(Intent::HardDrop), Reaction::Locked);
    assert!(tetris.current_piece.is_none());
    assert_eq!(tetris.game_map[13], vec![0, 0, 0, 0, 0, 0, 7, 0, 0, 0]);
    assert_eq!(tetris.game_map[14], vec![0, 0, 0, 0, 0, 7, 7, 0, 0, 0]);
    assert_eq!(tetris.game_map[15], vec![0, 0, 0, 0, 0, 0, 7, 0, 0, 0]);
    assert_eq!(tetris.score, 1);
}

#[test]
fn intents_without_piece_change_nothing() {
    let mut tetris = Tetris::new();
    assert_eq!(tetris.handle_intent(Intent::MoveLeft), Reaction::Continue);
    assert_eq!(tetris.handle_intent(Intent::MoveRight), Reaction::Continue);
    assert_eq!(tetris.handle_intent(Intent::RotateCW), Reaction::Continue);
    assert_eq!(tetris.handle_intent(Intent::SoftDrop), Reaction::Continue);
    assert_eq!(tetris.handle_intent(Intent::HardDrop), Reaction::Continue);
    assert_eq!(tetris.handle_intent(Intent::Quit), Reaction::Quit);
    assert_eq!(tetris.game_map, vec![vec![0u8; 10]; 16]);
    assert_eq!(tetris.score, 0);
}

#[test]
fn new_session_is_ready() {
    let mut tetris = Tetris::new();
    assert!(tetris.is_ready());
    tetris.current_piece = Some(TetriminoT::new());
    assert!(tetris.is_ready());
    tetris.current_level = 10;
    assert!(tetris.is_ready());
}

#[test]
fn session_out_of_shape_is_not_ready() {
    let mut tetris = Tetris::new();
    tetris.game_map.pop();
    assert!(!tetris.is_ready());
    let mut tetris = Tetris::new();
    tetris.game_map[7].push(0);
    assert!(!tetris.is_ready());
    let mut tetris = Tetris::new();
    tetris.current_level = 0;
    assert!(!tetris.is_ready());
    tetris.current_level = 11;
    assert!(!tetris.is_ready());
    let mut tetris = Tetris::new();
    let mut piece = TetriminoT::new();
    piece.current_state = 4;
    tetris.current_piece = Some(piece);
    assert!(!tetris.is_ready());
}

#[test]
fn session_without_room_in_its_counters_is_not_ready() {
    let mut tetris = Tetris::new();
    tetris.score = u32::MAX - 1017;
    assert!(tetris.is_ready());
    tetris.score = u32::MAX - 1016;
    assert!(!tetris.is_ready());
    tetris.score = 0;
    tetris.nb_lines = u32::MAX - 16;
    assert!(tetris.is_ready());
    tetris.nb_lines = u32::MAX - 15;
    assert!(!tetris.is_ready());
}

#[test]
fn line_goal_is_passed_beyond_twenty_lines_a_level() {
    let mut tetris = Tetris::new();
    assert!(!tetris.line_goal_passed());
    tetris.nb_lines = 20;
    assert!(!tetris.line_goal_passed());
    tetris.nb_lines = 21;
    assert!(tetris.line_goal_passed());
    assert_eq!(tetris.current_level, 1);
    tetris.current_level = 10;
    tetris.nb_lines = 200;
    assert!(!tetris.line_goal_passed());
    tetris.nb_lines = 201;
    assert!(tetris.line_goal_passed());
}

#[test]
fn counters_never_go_down_in_a_played_game() {
    let mut tetris = Tetris::new();
    let intents = [
        Intent::MoveLeft,
        Intent::RotateCW,
        Intent::MoveRight,
        Intent::SoftDrop,
        Intent::HardDrop,
        Intent::MoveRight,
    ];
    let mut score = 0;
    let mut lines = 0;
    let mut turn = 0usize;
    for _ in 0..400 {
        if tetris.current_piece.is_none() && !tetris.spawn_next() {
            break;
        }
        assert!(tetris.is_ready());
        tetris.handle_intent(intents[turn % intents.len()]);
        turn += 1;
        assert!(tetris.is_ready());
        tetris.tick(1000);
        assert!(tetris.score >= score);
        assert!(tetris.nb_lines >= lines);
        assert_eq!(tetris.current_level, 1);
        assert_eq!(tetris.game_map.len(), 16);
        if let Some(piece) = tetris.current_piece.as_ref() {
            assert!(piece.test_current_position(&tetris.game_map));
        }
        score = tetris.score;
        lines = tetris.nb_lines;
    }
    assert!(score > 0);
}
