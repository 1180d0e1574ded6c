use chess::{board, board_move, Board, BoardMove};

fn position(text: &str) -> Board {
    board(text).expect("a board of 64 symbols")
}

fn play(text: &str) -> BoardMove {
    board_move(text).expect("a move of two squares")
}

#[test]
fn pawn_first_move_white() {
    let mut board = position(
        "_ _ _ _ _ _ _ _ \
         _ _ _ _ _ _ _ _ \
         _ _ _ _ _ _ _ _ \
         _ _ _ _ _ _ _ _ \
         _ _ _ _ _ _ _ _ \
         _ _ _ _ _ _ _ _ \
         p p _ _ _ _ _ _ \
         _ _ _ _ _ _ _ _",
    );

    assert!(board.is_valid_move(play("a2 a3")));
    assert!(board.is_valid_move(play("a2 a4")));
    assert!(board.is_valid_move(play("b2 b3")));
    assert!(board.is_valid_move(play("b2 b3")));

    assert!(board.apply_move(play("a2 a3")));
    assert!(board.apply_move(play("b2 b4")));

    assert!(board.is_valid_move(play("a3 a4")));
    assert!(!board.is_valid_move(play("a3 a5")));
    assert!(board.is_valid_move(play("b4 b5")));
    assert!(!board.is_valid_move(play("b4 b6")));
}

#[test]
fn pawn_first_move_black() {
    let mut board = position(
        "_ _ _ _ _ _ _ _ \
         P P _ _ _ _ _ _ \
         _ _ _ _ _ _ _ _ \
         _ _ _ _ _ _ _ _ \
         _ _ _ _ _ _ _ _ \
         _ _ _ _ _ _ _ _ \
         _ _ _ _ _ _ _ _ \
         _ _ _ _ _ _ _ _",
    );

    assert!(board.is_valid_move(play("a7 a6")));
    assert!(board.is_valid_move(play("a7 a5")));
    assert!(board.is_valid_move(play("b7 b6")));
    assert!(board.is_valid_move(play("b7 b5")));

    assert!(board.apply_move(play("a7 a6")));
    assert!(board.apply_move(play("b7 b5")));

    assert!(board.is_valid_move(play("a6 a5")));
    assert!(!board.is_valid_move(play("a6 a4")));
    assert!(board.is_valid_move(play("b5 b4")));
    assert!(!board.is_valid_move(play("b5 b3")));
}
