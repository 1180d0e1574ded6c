use chess::{board, board_move, Board, BoardMove};

fn position(text: &str) -> Board {
    board(text).expect("a board of 64 symbols")
}

fn play(text: &str) -> BoardMove {
    board_move(text).expect("a move of two squares")
}

#[test]
fn en_passant_white_left() {
    let mut board = position(
        "_ _ _ _ _ _ _ _ \
         _ _ _ P _ _ _ _ \
         _ _ _ _ _ _ _ _ \
         _ _ _ _ p _ _ _ \
         _ _ _ _ _ _ _ _ \
         _ _ _ _ _ _ _ _ \
         _ _ _ _ _ _ _ _ \
         _ _ _ _ _ _ _ _",
    );
    assert!(board.apply_move(play("d7 d5")));
    assert!(board.apply_move(play("e5 d6")));
    assert_eq!(
        board,
        position(
            "_ _ _ _ _ _ _ _ \
             _ _ _ _ _ _ _ _ \
             _ _ _ p _ _ _ _ \
             _ _ _ _ _ _ _ _ \
             _ _ _ _ _ _ _ _ \
             _ _ _ _ _ _ _ _ \
             _ _ _ _ _ _ _ _ \
             _ _ _ _ _ _ _ _",
        )
    );
}

#[test]
fn en_passant_white_right() {
    let mut board = position(
        "_ _ _ _ _ _ _ _ \
         _ _ _ _ P _ _ _ \
         _ _ _ _ _ _ _ _ \
         _ _ _ p _ _ _ _ \
         _ _ _ _ _ _ _ _ \
         _ _ _ _ _ _ _ _ \
         _ _ _ _ _ _ _ _ \
         _ _ _ _ _ _ _ _",
    );
    assert!(board.apply_move(play("e7 e5")));
    assert!(board.apply_move(play("d5 e6")));
    assert_eq!(
        board,
        position(
            "_ _ _ _ _ _ _ _ \
             _ _ _ _ _ _ _ _ \
             _ _ _ _ p _ _ _ \
             _ _ _ _ _ _ _ _ \
             _ _ _ _ _ _ _ _ \
             _ _ _ _ _ _ _ _ \
             _ _ _ _ _ _ _ _ \
             _ _ _ _ _ _ _ _",
        )
    );
}

#[test]
fn en_passant_black_left() {
    let mut board = position(
        "_ _ _ _ _ _ _ _ \
         _ _ _ _ _ _ _ _ \
         _ _ _ _ _ _ _ _ \
         _ _ _ _ _ _ _ _ \
         _ _ _ _ P _ _ _ \
         _ _ _ _ _ _ _ _ \
         _ _ _ p _ _ _ _ \
         _ _ _ _ _ _ _ _",
    );
    assert!(board.apply_move(play("d2 d4")));
    assert!(board.apply_move(play("e4 d3")));
    assert_eq!(
        board,
        position(
            "_ _ _ _ _ _ _ _ \
             _ _ _ _ _ _ _ _ \
             _ _ _ _ _ _ _ _ \
             _ _ _ _ _ _ _ _ \
             _ _ _ _ _ _ _ _ \
             _ _ _ P _ _ _ _ \
             _ _ _ _ _ _ _ _ \
             _ _ _ _ _ _ _ _",
        )
    );
}

#[test]
fn en_passant_black_right() {
    let mut board = position(
        "_ _ _ _ _ _ _ _ \
         _ _ _ _ _ _ _ _ \
         _ _ _ _ _ _ _ _ \
         _ _ _ _ _ _ _ _ \
         _ _ _ P _ _ _ _ \
         _ _ _ _ _ _ _ _ \
         _ _ _ _ p _ _ _ \
         _ _ _ _ _ _ _ _",
    );
    assert!(board.apply_move(play("e2 e4")));
    assert!(board.apply_move(play("d4 e3")));
    assert_eq!(
        board,
        position(
            "_ _ _ _ _ _ _ _ \
             _ _ _ _ _ _ _ _ \
             _ _ _ _ _ _ _ _ \
             _ _ _ _ _ _ _ _ \
             _ _ _ _ _ _ _ _ \
             _ _ _ _ P _ _ _ \
             _ _ _ _ _ _ _ _ \
             _ _ _ _ _ _ _ _",
        )
    );
}
