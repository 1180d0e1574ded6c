use chess::{GameControl, GameSettings, PieceColor};

#[test]
fn both_sides_start_with_a_player() {
    let settings = GameSettings::default();
    assert_eq!(*settings.control(PieceColor::White), GameControl::Player);
    assert_eq!(*settings.control(PieceColor::Black), GameControl::Player);
    assert_eq!(GameControl::default(), GameControl::Player);
}

#[test]
fn control_of_one_side_changes_alone() {
    let mut settings = GameSettings::default();
    *settings.control_mut(PieceColor::Black) = GameControl::Ai;
    assert_eq!(*settings.control(PieceColor::White), GameControl::Player);
    assert_eq!(*settings.control(PieceColor::Black), GameControl::Ai);
    *settings.control_mut(PieceColor::White) = GameControl::Ai;
    *settings.control_mut(PieceColor::Black) = GameControl::Player;
    assert_eq!(*settings.control(PieceColor::White), GameControl::Ai);
    assert_eq!(*settings.control(PieceColor::Black), GameControl::Player);
}
