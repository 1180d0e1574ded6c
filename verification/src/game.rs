//! A game in progress: the board, the side to move, and whether the game
//! has ended.

use vstd::prelude::*;

use crate::ai::{has_sound_move, plan_move};
use crate::board::{after_force, in_check, initial_view, is_legal, legal, Board, BoardMove, BoardView};
use crate::grid::holds_own;
use crate::piece::PieceColor;
use crate::position::Position;
use crate::settings::{GameControl, GameSettings};

verus! {

/// How a game has ended.
#[derive(Clone, Copy, Debug, PartialEq, Eq, Structural)]
pub enum GameEnd {
    /// The side to move is in check and has no legal move: the other side,
    /// named here, has won.
    Checkmate(PieceColor),
    /// The side to move is not in check and has no legal move.
    Stalemate,
}

/// The mathematical state of a game in progress.
pub struct GameView {
    /// The state of the board.
    pub board: BoardView,
    /// The side to move.
    pub turn: PieceColor,
    /// The game has ended.
    pub stopped: bool,
}

/// How the game stands for the side `turn` that is to move in state `s`:
/// it has ended if and only if that side has no legal move.
pub open spec fn spec_game_end(s: BoardView, turn: PieceColor) -> Option<GameEnd> {
    if exists|m: BoardMove| legal(s, turn, m) {
        None
    } else if in_check(s, turn) {
        Some(GameEnd::Checkmate(turn.spec_opposite()))
    } else {
        Some(GameEnd::Stalemate)
    }
}

/// The state after the side to move has made move `m`.
pub open spec fn after_turn(g: GameView, m: BoardMove) -> GameView {
    GameView { board: after_force(g.board, m), turn: g.turn.spec_opposite(), stopped: g.stopped }
}

/// The side to move in `g` may make move `m`: the game goes on, the piece
/// is its own, and the move is legal.
pub open spec fn playable(g: GameView, m: BoardMove) -> bool {
    &&& !g.stopped
    &&& holds_own(g.board.pieces, g.turn, m.from)
    &&& is_legal(g.board, m)
}

/// How the game stands for the side `turn` that is to move on `board`.
pub fn game_end(board: &Board, turn: PieceColor) -> (end: Option<GameEnd>)
    requires
        board.wf(),
    ensures
        end == spec_game_end(board@, turn),
{
    let moves = board.valid_moves(turn);
    if moves.is_empty() {
        assert forall|m: BoardMove| !legal(board@, turn, m) by {
            if legal(board@, turn, m) {
                assert(moves@.contains(m));
            }
        }
        if board.check(turn) {
            Some(GameEnd::Checkmate(turn.opposite()))
        } else {
            Some(GameEnd::Stalemate)
        }
    } else {
        assert(moves@.contains(moves@[0]));
        None
    }
}

impl GameEnd {
    /// The announcement of the result.
    pub open spec fn spec_message(self) -> Seq<char> {
        match self {
            GameEnd::Checkmate(PieceColor::White) => "Checkmate\nWhite Won"@,
            GameEnd::Checkmate(PieceColor::Black) => "Checkmate\nBlack Won"@,
            GameEnd::Stalemate => "Stalemate"@,
        }
    }

    /// The announcement of the result: who has won, or that nobody has.
    pub fn message(&self) -> (text: &'static str)
        ensures
            text@ == self.spec_message(),
    {
        match self {
            GameEnd::Checkmate(PieceColor::White) => "Checkmate\nWhite Won",
            GameEnd::Checkmate(PieceColor::Black) => "Checkmate\nBlack Won",
            GameEnd::Stalemate => "Stalemate",
        }
    }
}

/// A game in progress.
#[derive(Clone, Copy, Debug)]
pub struct Game {
    board: Board,
    turn: PieceColor,
    stopped: bool,
}

impl View for Game {
    type V = GameView;

    closed spec fn view(&self) -> GameView {
        GameView { board: self.board@, turn: self.turn, stopped: self.stopped }
    }
}

impl Game {
    /// The board of the game is well formed.
    pub open spec fn wf(&self) -> bool {
        self@.board.wf()
    }

    /// A game from the standard position, with White to move.
    pub fn new() -> (game: Self)
        ensures
            game@ == (GameView { board: initial_view(), turn: PieceColor::White, stopped: false }),
            game.wf(),
    {
        Game { board: Board::new(), turn: PieceColor::White, stopped: false }
    }

    /// A game from the position of `board`, with `turn` to move.
    pub fn from_board(board: Board, turn: PieceColor) -> (game: Self)
        requires
            board.wf(),
        ensures
            game@ == (GameView { board: board@, turn, stopped: false }),
            game.wf(),
    {
        Game { board, turn, stopped: false }
    }

    /// The board.
    pub fn board(&self) -> (board: &Board)
        ensures
            board@ == self@.board,
    {
        &self.board
    }

    /// The side to move.
    pub fn turn(&self) -> (turn: PieceColor)
        ensures
            turn == self@.turn,
    {
        self.turn
    }

    /// The game has ended.
    pub fn stopped(&self) -> (stopped: bool)
        ensures
            stopped == self@.stopped,
    {
        self.stopped
    }

    /// A person may take up the piece on `position`: the game goes on, the
    /// piece belongs to the side to move, and that side is played by a
    /// person.
    pub fn can_pick(&self, settings: &GameSettings, position: Position) -> (allowed: bool)
        requires
            position.wf(),
        ensures
            allowed <==> {
                &&& !self@.stopped
                &&& holds_own(self@.board.pieces, self@.turn, position)
                &&& settings.spec_control(self@.turn) == GameControl::Player
            },
    {
        if let Some(piece) = self.board.piece(position) {
            if piece.color() == self.turn && !self.stopped {
                if let GameControl::Player = settings.control(piece.color()) {
                    return true;
                }
            }
        }
        false
    }

    /// Makes move `board_move` for the side to move, if the game goes on,
    /// the piece is its own and the move is legal. Then the other side is
    /// to move. Otherwise nothing changes.
    pub fn play(&mut self, board_move: BoardMove) -> (played: bool)
        requires
            old(self).wf(),
            board_move.wf(),
        ensures
            played == playable(old(self)@, board_move),
            final(self)@ == if played {
                after_turn(old(self)@, board_move)
            } else {
                old(self)@
            },
            final(self).wf(),
    {
        if self.stopped {
            return false;
        }
        match self.board.piece(board_move.from) {
            Some(piece) => {
                if piece.color() != self.turn {
                    return false;
                }
            },
            None => {
                return false;
            },
        }
        if self.board.apply_move(board_move) {
            self.turn = self.turn.opposite();
            true
        } else {
            false
        }
    }

    /// Lets the program move where the side to move is played by the
    /// program and the game goes on: a move is searched for and made, and
    /// then the other side is to move. The move is returned. Where no move
    /// is made nothing changes. A move is made wherever the program is to
    /// move and some legal move keeps the balance of its side at -100 or
    /// above through the move and every legal answer.
    pub fn play_ai(&mut self, settings: &GameSettings) -> (played: Option<BoardMove>)
        requires
            old(self).wf(),
        ensures
            match played {
                Some(m) => playable(old(self)@, m) && final(self)@ == after_turn(old(self)@, m),
                None => final(self)@ == old(self)@,
            },
            old(self)@.stopped || settings.spec_control(old(self)@.turn) != GameControl::Ai
                ==> played is None,
            !old(self)@.stopped && settings.spec_control(old(self)@.turn) == GameControl::Ai
                && has_sound_move(old(self)@.board, old(self)@.turn) ==> played is Some,
            final(self).wf(),
    {
        if let GameControl::Ai = settings.control(self.turn) {
            if self.stopped {
                return None;
            }
            if let Some(ai_move) = plan_move(&self.board, self.turn) {
                let applied = self.board.apply_move(ai_move);
                assert(applied);
                self.turn = self.turn.opposite();
                return Some(ai_move);
            }
        }
        None
    }

    /// Looks whether the side to move has a legal move left. Where it has
    /// none the game has ended, and how is returned.
    pub fn update_end(&mut self) -> (end: Option<GameEnd>)
        requires
            old(self).wf(),
        ensures
            end == spec_game_end(old(self)@.board, old(self)@.turn),
            final(self)@ == (GameView {
                stopped: old(self)@.stopped || end is Some,
                ..old(self)@
            }),
            final(self).wf(),
    {
        let end = game_end(&self.board, self.turn);
        if end.is_some() {
            self.stopped = true;
        }
        end
    }
}

} // verus!
