//! The special rules. Each one proposes further moves for a piece, changes
//! the board when a move is made, or both.

pub mod castle;
pub mod en_passant;
pub mod pawn_first_move;
pub mod promotion;
