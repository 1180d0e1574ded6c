use chess::{board, board_move, Board, BoardMove, Piece, PieceColor, PieceKind, Position};

fn position(text: &str) -> Board {
    board(text).expect("a board of 64 symbols")
}

fn play(text: &str) -> BoardMove {
    board_move(text).expect("a move of two squares")
}

fn count(board: &Board, color: PieceColor) -> usize {
    Position::all()
        .iter()
        .filter(|square| matches!(board.piece(**square), Some(piece) if piece.color() == color))
        .count()
}

fn empty() -> Board {
    let mut board = Board::new();
    for square in Position::all().iter() {
        board.set_piece(*square, None);
    }
    board
}

#[test]
fn a_new_board_has_sixteen_pieces_on_each_side() {
    let board = Board::new();
    assert_eq!(count(&board, PieceColor::White), 16);
    assert_eq!(count(&board, PieceColor::Black), 16);
}

#[test]
fn a_new_board_holds_the_standard_position() {
    let board = Board::new();
    let back = [
        PieceKind::Rook,
        PieceKind::Knight,
        PieceKind::Bishop,
        PieceKind::Queen,
        PieceKind::King,
        PieceKind::Bishop,
        PieceKind::Knight,
        PieceKind::Rook,
    ];
    for col in 0..8u8 {
        let kind = back[col as usize];
        assert_eq!(board.piece(Position(col, 0)), Some(Piece::new(kind, PieceColor::Black)));
        assert_eq!(
            board.piece(Position(col, 1)),
            Some(Piece::new(PieceKind::Pawn, PieceColor::Black))
        );
        for row in 2..6u8 {
            assert_eq!(board.piece(Position(col, row)), None);
        }
        assert_eq!(
            board.piece(Position(col, 6)),
            Some(Piece::new(PieceKind::Pawn, PieceColor::White))
        );
        assert_eq!(board.piece(Position(col, 7)), Some(Piece::new(kind, PieceColor::White)));
    }
}

#[test]
fn material_is_balanced_at_the_start() {
    let board = Board::new();
    assert_eq!(board.score(PieceColor::White), 0);
    assert_eq!(board.score(PieceColor::Black), 0);
}

#[test]
fn score_adds_own_pieces_and_subtracts_the_others() {
    let board = position(
        "K _ _ _ _ _ _ _ \
         _ _ _ _ _ _ _ _ \
         _ _ _ _ _ _ _ _ \
         _ _ N _ _ _ _ _ \
         _ _ _ _ _ _ _ _ \
         _ _ _ _ _ _ _ _ \
         p p _ _ _ _ _ _ \
         r _ b q k _ _ _",
    );
    // White: 1 + 1 + 5 + 3 + 8 + 6 = 24, Black: 6 + 3 = 9.
    assert_eq!(board.score(PieceColor::White), 15);
    assert_eq!(board.score(PieceColor::Black), -15);
    assert_eq!(board.checked_score(PieceColor::White), Some(15));
    assert_eq!(board.wide_score(PieceColor::Black), -15);
}

#[test]
fn the_score_of_an_empty_board_is_zero() {
    assert_eq!(empty().score(PieceColor::White), 0);
    assert_eq!(empty().checked_score(PieceColor::Black), Some(0));
}

#[test]
fn a_balance_that_does_not_fit_is_reported() {
    let mut board = empty();
    for square in Position::all().iter() {
        board.set_piece(*square, Some(Piece::new(PieceKind::Queen, PieceColor::White)));
    }
    assert_eq!(board.wide_score(PieceColor::White), 512);
    assert_eq!(board.wide_score(PieceColor::Black), -512);
    assert_eq!(board.checked_score(PieceColor::White), None);
    assert_eq!(board.checked_score(PieceColor::Black), None);
}

#[test]
fn the_largest_balance_that_fits() {
    let mut board = empty();
    let squares = Position::all();
    // 15 queens and 7 pawns: 127.
    for square in squares.iter().take(15) {
        board.set_piece(*square, Some(Piece::new(PieceKind::Queen, PieceColor::Black)));
    }
    for square in squares.iter().skip(15).take(7) {
        board.set_piece(*square, Some(Piece::new(PieceKind::Pawn, PieceColor::Black)));
    }
    assert_eq!(board.checked_score(PieceColor::Black), Some(127));
    assert_eq!(board.checked_score(PieceColor::White), Some(-127));
    board.set_piece(squares[30], Some(Piece::new(PieceKind::Pawn, PieceColor::Black)));
    assert_eq!(board.checked_score(PieceColor::Black), None);
    assert_eq!(board.checked_score(PieceColor::White), Some(-128));
}

#[test]
fn set_piece_changes_one_square() {
    let mut board = Board::new();
    let knight = Some(Piece::new(PieceKind::Knight, PieceColor::Black));
    board.set_piece(Position(3, 3), knight);
    assert_eq!(board.piece(Position(3, 3)), knight);
    board.set_piece(Position(3, 3), None);
    assert_eq!(board, Board::new());
}

#[test]
fn equality_looks_at_the_pieces_only() {
    let mut moved = Board::new();
    assert!(moved.apply_move(play("g1 f3")));
    assert!(moved.apply_move(play("f3 g1")));
    assert_eq!(moved, Board::new());
    let mut other = Board::new();
    other.set_piece(Position(0, 0), None);
    assert_ne!(other, Board::new());
}

#[test]
fn a_copy_is_independent() {
    let first = Board::new();
    let mut copy = first;
    copy.force_move(play("e2 e4"));
    assert_eq!(first, Board::new());
    assert_ne!(copy, first);
    let mut clone = first.clone();
    clone.set_piece(Position(0, 0), None);
    assert_eq!(first, Board::new());
}

#[test]
fn twenty_moves_at_the_start() {
    let board = Board::new();
    for color in [PieceColor::White, PieceColor::Black] {
        let moves = board.valid_moves(color);
        assert_eq!(moves.len(), 20);
        for (i, a) in moves.iter().enumerate() {
            for b in moves.iter().skip(i + 1) {
                assert_ne!(a, b);
            }
            assert_eq!(board.piece(a.from).unwrap().color(), color);
        }
    }
}

#[test]
fn an_illegal_move_leaves_the_board_alone() {
    let mut board = Board::new();
    assert!(!board.apply_move(play("e2 e5")));
    assert!(!board.apply_move(play("e3 e4")));
    assert!(!board.apply_move(play("a1 a3")));
    assert!(!board.apply_move(play("e1 e1")));
    assert_eq!(board, Board::new());
    assert!(board.is_valid_move(play("e1 c1")) == false);
    // Rule state is untouched as well: after clearing the way, castling is
    // still there.
    for text in ["f1", "g1"] {
        let square = play(&format!("{} a3", text)).from;
        board.set_piece(square, None);
    }
    assert!(board.is_valid_move(play("e1 g1")));
}

#[test]
fn a_move_from_a_free_square_is_not_legal() {
    let board = Board::new();
    assert!(!board.is_valid_move(play("e4 e5")));
}

#[test]
fn a_legal_move_is_made() {
    let mut board = Board::new();
    assert!(board.apply_move(play("e2 e4")));
    assert_eq!(board.piece(play("e2 e4").from), None);
    assert_eq!(
        board.piece(play("e2 e4").to),
        Some(Piece::new(PieceKind::Pawn, PieceColor::White))
    );
}

#[test]
fn force_moves_without_asking() {
    let mut board = Board::new();
    board.force_move(play("a1 h8"));
    assert_eq!(board.piece(Position(0, 7)), None);
    assert_eq!(board.piece(Position(7, 0)), Some(Piece::new(PieceKind::Rook, PieceColor::White)));
}

#[test]
fn forcing_a_move_onto_its_own_square_clears_it() {
    let mut board = Board::new();
    board.force_move(play("a1 a1"));
    assert_eq!(board.piece(Position(0, 7)), None);
}

#[test]
fn forcing_a_move_from_a_free_square_clears_the_target() {
    let mut board = Board::new();
    board.force_move(play("a3 a2"));
    assert_eq!(board.piece(Position(0, 6)), None);
    assert_eq!(board.piece(Position(0, 5)), None);
}

#[test]
fn check_by_a_rook() {
    let board = position(
        "R _ _ _ _ _ _ _ \
         _ _ _ _ _ _ _ _ \
         _ _ _ _ _ _ _ _ \
         _ _ _ _ _ _ _ _ \
         _ _ _ _ _ _ _ _ \
         _ _ _ _ _ _ _ _ \
         _ _ _ _ _ _ _ _ \
         k _ _ _ _ _ _ K",
    );
    assert!(board.check(PieceColor::White));
    assert!(!board.check(PieceColor::Black));
}

#[test]
fn a_piece_in_the_way_shields_the_king() {
    let board = position(
        "R _ _ _ _ _ _ _ \
         _ _ _ _ _ _ _ _ \
         _ _ _ _ _ _ _ _ \
         p _ _ _ _ _ _ _ \
         _ _ _ _ _ _ _ _ \
         _ _ _ _ _ _ _ _ \
         _ _ _ _ _ _ _ _ \
         k _ _ _ _ _ _ K",
    );
    assert!(!board.check(PieceColor::White));
}

#[test]
fn check_by_knight_bishop_queen_and_pawn() {
    let knight = position(
        "_ _ _ _ _ _ _ _ \
         _ _ _ _ _ _ _ _ \
         _ _ _ _ _ _ _ _ \
         _ _ _ _ _ _ _ _ \
         _ _ _ _ _ _ _ _ \
         _ N _ _ _ _ _ _ \
         _ _ _ _ _ _ _ _ \
         k _ _ _ _ _ _ _",
    );
    assert!(knight.check(PieceColor::White));
    let bishop = position(
        "_ _ _ _ _ _ _ B \
         _ _ _ _ _ _ _ _ \
         _ _ _ _ _ _ _ _ \
         _ _ _ _ _ _ _ _ \
         _ _ _ _ _ _ _ _ \
         _ _ _ _ _ _ _ _ \
         _ _ _ _ _ _ _ _ \
         k _ _ _ _ _ _ _",
    );
    assert!(bishop.check(PieceColor::White));
    let queen = position(
        "_ _ _ _ _ _ _ _ \
         _ _ _ _ _ _ _ _ \
         _ _ _ _ _ _ _ _ \
         _ _ _ _ _ _ _ _ \
         _ _ _ _ _ _ _ _ \
         _ _ _ _ _ _ _ _ \
         _ _ _ _ _ _ _ _ \
         k _ _ _ Q _ _ _",
    );
    assert!(queen.check(PieceColor::White));
    let pawn = position(
        "_ _ _ _ _ _ _ _ \
         _ _ _ _ _ _ _ _ \
         _ _ _ _ _ _ _ _ \
         _ _ _ _ _ _ _ _ \
         _ _ _ _ _ _ _ _ \
         _ _ _ _ _ _ _ _ \
         _ P _ _ _ _ _ _ \
         k _ _ _ _ _ _ _",
    );
    assert!(pawn.check(PieceColor::White));
    let pawn_ahead = position(
        "_ _ _ _ _ _ _ _ \
         _ _ _ _ _ _ _ _ \
         _ _ _ _ _ _ _ _ \
         _ _ _ _ _ _ _ _ \
         _ _ _ _ _ _ _ _ \
         _ _ _ _ _ _ _ _ \
         P _ _ _ _ _ _ _ \
         k _ _ _ _ _ _ _",
    );
    assert!(!pawn_ahead.check(PieceColor::White));
}

#[test]
fn no_king_no_check() {
    assert!(!empty().check(PieceColor::White));
    let board = position(
        "R _ _ _ _ _ _ _ \
         _ _ _ _ _ _ _ _ \
         _ _ _ _ _ _ _ _ \
         _ _ _ _ _ _ _ _ \
         _ _ _ _ _ _ _ _ \
         _ _ _ _ _ _ _ _ \
         _ _ _ _ _ _ _ _ \
         r _ _ _ _ _ _ _",
    );
    assert!(!board.check(PieceColor::White));
    assert!(!board.check(PieceColor::Black));
}

#[test]
fn a_pinned_piece_may_not_leave_the_line() {
    let board = position(
        "R _ _ _ _ _ _ K \
         _ _ _ _ _ _ _ _ \
         _ _ _ _ _ _ _ _ \
         _ _ _ _ _ _ _ _ \
         _ _ _ _ _ _ _ _ \
         _ _ _ _ _ _ _ _ \
         b _ _ _ _ _ _ _ \
         k _ _ _ _ _ _ _",
    );
    assert!(!board.is_valid_move(play("a2 b3")));
    assert!(board.is_valid_move(play("a1 b1")));
    for m in board.valid_moves(PieceColor::White) {
        assert_ne!(m.from, play("a2 b3").from);
    }
}

#[test]
fn checkmate_leaves_no_move() {
    let board = position(
        "_ _ _ _ _ _ _ K \
         _ _ _ _ _ _ _ _ \
         _ _ _ _ _ _ _ _ \
         _ _ _ _ _ _ _ _ \
         _ _ _ _ _ _ _ _ \
         _ _ _ _ _ _ _ _ \
         _ R _ _ _ _ _ _ \
         R _ _ _ _ _ k _",
    );
    assert!(board.check(PieceColor::White));
    assert!(board.valid_moves(PieceColor::White).is_empty());
}

#[test]
fn stalemate_leaves_no_move_without_check() {
    let board = position(
        "_ _ _ _ _ _ _ _ \
         _ _ _ _ _ _ _ _ \
         _ _ _ _ _ _ _ _ \
         _ _ _ _ _ _ _ _ \
         _ _ _ _ _ _ _ _ \
         _ Q _ _ _ _ _ _ \
         _ _ K _ _ _ _ _ \
         k _ _ _ _ _ _ _",
    );
    assert!(!board.check(PieceColor::White));
    assert!(board.valid_moves(PieceColor::White).is_empty());
}

#[test]
fn rook_moves_on_an_open_board() {
    let board = position(
        "_ _ _ _ _ _ _ _ \
         _ _ _ _ _ _ _ _ \
         _ _ _ _ _ _ _ _ \
         _ _ _ r _ _ _ _ \
         _ _ _ _ _ _ _ _ \
         _ _ _ _ _ _ _ _ \
         _ _ _ _ _ _ _ _ \
         _ _ _ _ _ _ _ _",
    );
    assert_eq!(board.valid_moves(PieceColor::White).len(), 14);
}

#[test]
fn a_ray_stops_before_a_friend_and_on_an_enemy() {
    let board = position(
        "_ _ _ _ _ _ _ _ \
         _ _ _ P _ _ _ _ \
         _ _ _ _ _ _ _ _ \
         _ p _ r _ _ _ _ \
         _ _ _ _ _ _ _ _ \
         _ _ _ _ _ _ _ _ \
         _ _ _ _ _ _ _ _ \
         _ _ _ _ _ _ _ _",
    );
    assert!(board.is_valid_move(play("d5 d6")));
    assert!(board.is_valid_move(play("d5 d7")));
    assert!(!board.is_valid_move(play("d5 d8")));
    assert!(board.is_valid_move(play("d5 c5")));
    assert!(!board.is_valid_move(play("d5 b5")));
    assert!(!board.is_valid_move(play("d5 a5")));
    assert!(board.is_valid_move(play("d5 h5")));
    assert!(board.is_valid_move(play("d5 d1")));
    assert!(!board.is_valid_move(play("d5 e6")));
}

#[test]
fn move_counts_of_single_pieces() {
    let cases = [('n', 8), ('b', 13), ('q', 27), ('k', 8), ('p', 1)];
    for (letter, expected) in cases {
        let mut board = empty();
        let piece = position(&format!("{} {}", letter, "_ ".repeat(63))).piece(Position(0, 0));
        board.set_piece(Position(3, 3), piece);
        assert_eq!(board.valid_moves(PieceColor::White).len(), expected, "{}", letter);
    }
}

#[test]
fn a_knight_in_the_corner_has_two_moves() {
    let board = position(&format!("n {}", "_ ".repeat(63)));
    let mut moves = board.valid_moves(PieceColor::White);
    moves.sort_by_key(|m| m.to.index());
    assert_eq!(
        moves,
        vec![
            BoardMove { from: Position(0, 0), to: Position(2, 1) },
            BoardMove { from: Position(0, 0), to: Position(1, 2) },
        ]
    );
}

#[test]
fn pawns_capture_diagonally_only() {
    let board = position(
        "_ _ _ _ _ _ _ _ \
         _ _ _ _ _ _ _ _ \
         _ _ _ _ _ _ _ _ \
         _ _ P P _ _ _ _ \
         _ _ _ p _ _ _ _ \
         _ _ _ _ _ _ _ _ \
         _ _ _ _ _ _ _ _ \
         _ _ _ _ _ _ _ _",
    );
    assert!(board.is_valid_move(play("d4 c5")));
    assert!(!board.is_valid_move(play("d4 d5")));
    assert!(!board.is_valid_move(play("d4 e5")));
    assert!(board.is_valid_move(play("c5 d4")));
    assert!(board.is_valid_move(play("c5 c4")));
    assert!(!board.is_valid_move(play("d5 d4")));
}

#[test]
fn move_generation_ends_when_both_sides_may_castle() {
    let mut board = position(
        "R _ _ _ K _ _ R \
         _ _ _ _ _ _ _ _ \
         _ _ _ _ _ _ _ _ \
         _ _ _ _ _ _ _ _ \
         _ _ _ _ _ _ _ _ \
         _ _ _ _ _ _ _ _ \
         _ _ _ _ _ _ _ _ \
         r _ _ _ k _ _ r",
    );
    assert!(board.is_valid_move(play("e1 g1")));
    assert!(board.is_valid_move(play("e1 c1")));
    assert!(board.is_valid_move(play("e8 g8")));
    assert!(board.is_valid_move(play("e8 c8")));
    assert!(board.apply_move(play("e1 g1")));
    assert!(board.apply_move(play("e8 c8")));
    assert_eq!(
        board,
        position(
            "_ _ K R _ _ _ R \
             _ _ _ _ _ _ _ _ \
             _ _ _ _ _ _ _ _ \
             _ _ _ _ _ _ _ _ \
             _ _ _ _ _ _ _ _ \
             _ _ _ _ _ _ _ _ \
             _ _ _ _ _ _ _ _ \
             r _ _ _ _ r k _",
        )
    );
}
