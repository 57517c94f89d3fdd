//! Animated three-peg disc transfer: the discs, pegs and board, the recursive
//! solver, and the layout of each frame that a terminal shows.
pub mod error;
pub mod text;
pub mod disc;
pub mod peg;
pub mod board;
pub mod solver;
pub mod render;

pub use board::Board;
pub use disc::{Config, Disc};
pub use error::HanoiError;
pub use peg::{Peg, PegLabel};
pub use render::{home_row, order_by_label, render_frame};
pub use solver::{MAX_GAME_SIZE, move_tower, solve_game};
