//! A chess rules engine: board state, move generation, the special moves
//! (castling, en passant, the pawn's first move, promotion) and check
//! detection, with every function verified against a mathematical model of
//! the game.

use vstd::prelude::*;

pub mod ai;
pub mod board;
pub mod constants;
pub mod game;
pub mod grid;
pub mod laws;
pub mod notation;
pub mod piece;
pub mod planner;
pub mod position;
pub mod rules;
pub mod settings;

pub use board::{Board, BoardMove};
pub use notation::{board, board_move};
pub use piece::{Piece, PieceColor, PieceKind};
pub use position::{Position, PositionOffset};
pub use settings::{GameControl, GameSettings};

verus! {

/// Unsigned coordinate: a file or a rank of the board.
pub type Uc = u8;

/// Signed coordinate: a difference of files or ranks.
pub type Ic = i8;

} // verus!
