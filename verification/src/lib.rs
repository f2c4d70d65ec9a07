//! A falling-block puzzle engine: piece shapes and kinematics, collision
//! testing against a fixed-size board, locking, line clearing, scoring and
//! the bookkeeping of a top-five ranking.

pub mod board;
pub mod generator;
pub mod highscores;
pub mod kind;
pub mod play;
pub mod tetrimino;
pub mod tetris_struct;

pub use generator::{
    TetriminoGenerator, TetriminoI, TetriminoJ, TetriminoL, TetriminoO, TetriminoS, TetriminoT,
    TetriminoZ,
};
pub use highscores::update_vec;
pub use kind::PieceKind;
pub use play::{Intent, Reaction};
pub use tetrimino::Tetrimino;
pub use tetris_struct::Tetris;
