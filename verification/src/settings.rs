//! Who plays each side.

use vstd::prelude::*;

use crate::piece::PieceColor;

verus! {

/// Who decides the moves of a side.
#[derive(Clone, Copy, Debug, PartialEq, Eq, Structural)]
pub enum GameControl {
    /// A person chooses the moves.
    Player,
    /// The program chooses the moves.
    Ai,
}

impl Default for GameControl {
    /// A person.
    fn default() -> (control: GameControl)
        ensures
            control == GameControl::Player,
    {
        GameControl::Player
    }
}

/// The control of both sides.
#[derive(Debug)]
pub struct GameSettings {
    white_control: GameControl,
    black_control: GameControl,
}

impl View for GameSettings {
    type V = (GameControl, GameControl);

    /// The control of White and the control of Black.
    closed spec fn view(&self) -> (GameControl, GameControl) {
        (self.white_control, self.black_control)
    }
}

impl Default for GameSettings {
    /// Both sides are played by a person.
    fn default() -> (settings: GameSettings)
        ensures
            settings@ == (GameControl::Player, GameControl::Player),
    {
        GameSettings { white_control: GameControl::Player, black_control: GameControl::Player }
    }
}

/// The settings `v` with the control of `color` replaced by `control`.
pub open spec fn with_control(
    v: (GameControl, GameControl),
    color: PieceColor,
    control: GameControl,
) -> (GameControl, GameControl) {
    match color {
        PieceColor::White => (control, v.1),
        PieceColor::Black => (v.0, control),
    }
}

impl GameSettings {
    /// Who plays `color`.
    pub open spec fn spec_control(&self, color: PieceColor) -> GameControl {
        match color {
            PieceColor::White => self@.0,
            PieceColor::Black => self@.1,
        }
    }

    /// Who plays `color`.
    pub fn control(&self, color: PieceColor) -> (control: &GameControl)
        ensures
            *control == self.spec_control(color),
    {
        match color {
            PieceColor::White => &self.white_control,
            PieceColor::Black => &self.black_control,
        }
    }

    /// Access to the control of `color`, to change it. The control of the
    /// other side stays as it is.
    pub fn control_mut(&mut self, color: PieceColor) -> (control: &mut GameControl)
        ensures
            *control == old(self).spec_control(color),
            final(self)@ == with_control(old(self)@, color, *final(control)),
    {
        match color {
            PieceColor::White => &mut self.white_control,
            PieceColor::Black => &mut self.black_control,
        }
    }
}

} // verus!
