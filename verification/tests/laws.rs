use chess::{board, board_move, Board, BoardMove, Piece, PieceColor, PieceKind, Position};

fn position(text: &str) -> Board {
    board(text).expect("a board of 64 symbols")
}

fn play(text: &str) -> BoardMove {
    board_move(text).expect("a move of two squares")
}

const MIDDLE_GAME: &str = "R _ B Q K _ _ R \
                           P P P _ _ P P P \
                           _ _ N _ P N _ _ \
                           _ _ _ P _ _ _ _ \
                           _ B _ p _ _ _ _ \
                           _ _ n _ p n _ _ \
                           p p p _ _ p p p \
                           r _ b q k b _ r";

const KING_UNDER_FIRE: &str = "_ _ _ _ R _ _ K \
                               _ _ _ _ _ _ _ _ \
                               _ _ _ _ _ _ _ _ \
                               _ B _ _ _ _ _ _ \
                               _ _ _ _ _ _ _ N \
                               _ _ _ _ _ _ _ _ \
                               _ _ _ p _ p _ _ \
                               r _ _ q k b _ r";

#[test]
fn no_legal_move_leaves_the_own_king_in_check() {
    for text in [MIDDLE_GAME, KING_UNDER_FIRE] {
        let start = position(text);
        for color in [PieceColor::White, PieceColor::Black] {
            let moves = start.valid_moves(color);
            assert!(!moves.is_empty());
            for m in moves {
                let mut next = start;
                next.force_move(m);
                assert!(!next.check(color), "{} leaves the king in check", m.to_string());
            }
        }
    }
}

#[test]
fn every_legal_move_starts_on_an_own_piece() {
    let start = position(MIDDLE_GAME);
    for color in [PieceColor::White, PieceColor::Black] {
        for m in start.valid_moves(color) {
            assert_eq!(start.piece(m.from).unwrap().color(), color);
            assert!(start.is_valid_move(m));
        }
    }
}

#[test]
fn a_king_in_check_must_get_out_of_it() {
    let start = position(KING_UNDER_FIRE);
    assert!(start.check(PieceColor::White));
    assert!(!start.is_valid_move(play("a1 b1")));
    assert!(!start.is_valid_move(play("e1 g1")));
    assert!(!start.is_valid_move(play("e1 e2")));
    assert!(start.is_valid_move(play("d1 e2")));
    assert!(start.is_valid_move(play("f1 e2")));
}

#[test]
fn material_balances_add_up_to_nothing() {
    for text in [MIDDLE_GAME, KING_UNDER_FIRE] {
        let board = position(text);
        assert_eq!(board.score(PieceColor::White), -board.score(PieceColor::Black));
    }
    // White: 2 + 10 + 8 + 6 + 3 = 29, Black: 5 + 6 + 3 + 3 = 17.
    assert_eq!(position(KING_UNDER_FIRE).score(PieceColor::White), 12);
}

#[test]
fn castling_scenario_from_the_bare_position() {
    let start = "_ _ _ _ K _ _ _ \
                 _ _ _ _ _ _ _ _ \
                 _ _ _ _ _ _ _ _ \
                 _ _ _ _ _ _ _ _ \
                 _ _ _ _ _ _ _ _ \
                 _ _ _ _ _ _ _ _ \
                 _ _ _ _ _ _ _ _ \
                 r _ _ _ k _ _ r";
    let king = Some(Piece::new(PieceKind::King, PieceColor::White));
    let rook = Some(Piece::new(PieceKind::Rook, PieceColor::White));
    let mut king_side = position(start);
    assert!(king_side.apply_move(play("e1 g1")));
    assert_eq!(king_side.piece(Position(6, 7)), king);
    assert_eq!(king_side.piece(Position(5, 7)), rook);
    assert_eq!(king_side.piece(Position(0, 7)), rook);
    assert_eq!(king_side.piece(Position(4, 7)), None);
    assert_eq!(king_side.piece(Position(7, 7)), None);
    let mut queen_side = position(start);
    assert!(queen_side.apply_move(play("e1 c1")));
    assert_eq!(queen_side.piece(Position(2, 7)), king);
    assert_eq!(queen_side.piece(Position(3, 7)), rook);
    assert_eq!(queen_side.piece(Position(7, 7)), rook);
    assert_eq!(queen_side.piece(Position(4, 7)), None);
    assert_eq!(queen_side.piece(Position(0, 7)), None);
}

#[test]
fn castling_stays_lost_after_many_moves() {
    let mut board = position(
        "_ _ _ _ K _ _ _ \
         _ _ _ _ _ _ _ _ \
         _ _ _ _ _ _ _ _ \
         _ _ _ _ _ _ _ _ \
         _ _ _ _ _ _ _ _ \
         _ _ _ _ _ _ _ _ \
         _ _ _ _ _ _ _ _ \
         r _ _ _ k _ _ r",
    );
    for text in ["h1 h3", "e8 d8", "h3 h1", "d8 e8", "a1 a2", "e8 d8", "a2 a1", "d8 e8"] {
        assert!(board.apply_move(play(text)), "{}", text);
    }
    assert!(!board.is_valid_move(play("e1 g1")));
    assert!(!board.is_valid_move(play("e1 c1")));
}

#[test]
fn castling_is_lost_when_the_rook_is_captured_on_its_square() {
    let mut board = position(
        "_ _ _ _ K _ _ _ \
         _ _ _ _ _ _ _ _ \
         _ _ B _ _ _ _ _ \
         _ _ _ _ _ _ _ _ \
         _ _ _ _ _ _ _ _ \
         _ _ _ _ _ _ _ _ \
         _ _ _ _ _ _ _ r \
         r _ _ _ k _ _ r",
    );
    assert!(board.is_valid_move(play("e1 g1")));
    assert!(board.apply_move(play("c6 h1")));
    assert!(board.apply_move(play("h2 h1")));
    assert_eq!(board.piece(Position(7, 7)), Some(Piece::new(PieceKind::Rook, PieceColor::White)));
    assert!(!board.is_valid_move(play("e1 g1")));
    assert!(board.is_valid_move(play("e1 c1")));
}

#[test]
fn castling_needs_an_own_rook() {
    let board = position(
        "_ _ _ _ K _ _ _ \
         _ _ _ _ _ _ _ _ \
         _ _ _ _ _ _ _ _ \
         _ _ _ _ _ _ _ _ \
         _ _ _ _ _ _ _ _ \
         _ _ _ _ _ _ _ _ \
         _ _ _ _ _ _ _ _ \
         b _ _ _ k _ _ R",
    );
    assert!(!board.is_valid_move(play("e1 g1")));
    assert!(!board.is_valid_move(play("e1 c1")));
}

#[test]
fn en_passant_scenario() {
    let mut board = position(
        "_ _ _ _ _ _ _ _ \
         _ _ _ _ _ _ _ _ \
         _ _ _ _ _ _ _ _ \
         _ _ _ _ _ _ _ _ \
         _ _ _ _ P _ _ _ \
         _ _ _ _ _ _ _ _ \
         _ _ _ p _ _ _ _ \
         _ _ _ _ _ _ _ _",
    );
    assert!(!board.is_valid_move(play("e4 d3")));
    assert!(board.apply_move(play("d2 d4")));
    assert!(board.is_valid_move(play("e4 d3")));
    assert!(board.apply_move(play("e4 d3")));
    assert_eq!(board.piece(play("d4 d3").from), None);
    assert_eq!(
        board.piece(play("d4 d3").to),
        Some(Piece::new(PieceKind::Pawn, PieceColor::Black))
    );
    assert_eq!(board.score(PieceColor::Black), 1);
}

#[test]
fn en_passant_expires_after_the_next_move() {
    let mut board = position(
        "_ _ _ _ _ _ _ K \
         _ _ _ _ _ _ _ _ \
         _ _ _ _ _ _ _ _ \
         _ _ _ _ _ _ _ _ \
         _ _ _ _ P _ _ _ \
         _ _ _ _ _ _ _ _ \
         _ _ _ p _ _ _ _ \
         k _ _ _ _ _ _ _",
    );
    assert!(board.apply_move(play("d2 d4")));
    assert!(board.is_valid_move(play("e4 d3")));
    assert!(board.apply_move(play("h8 h7")));
    assert!(!board.is_valid_move(play("e4 d3")));
    assert!(board.apply_move(play("a1 a2")));
    assert!(!board.is_valid_move(play("e4 d3")));
}

#[test]
fn en_passant_does_not_follow_a_single_step() {
    let mut board = position(
        "_ _ _ _ _ _ _ _ \
         _ _ _ _ _ _ _ _ \
         _ _ _ _ _ _ _ _ \
         _ _ _ _ _ _ _ _ \
         _ _ _ _ P _ _ _ \
         _ _ _ p _ _ _ _ \
         _ _ _ _ _ _ _ _ \
         _ _ _ _ _ _ _ _",
    );
    assert!(board.apply_move(play("d3 d4")));
    assert!(!board.is_valid_move(play("e4 d3")));
}

#[test]
fn en_passant_needs_the_neighbouring_file() {
    let mut board = position(
        "_ _ _ _ _ _ _ _ \
         _ _ _ _ _ _ _ _ \
         _ _ _ _ _ _ _ _ \
         _ _ _ _ _ _ _ _ \
         _ _ _ _ _ P _ P \
         _ _ _ _ _ _ _ _ \
         _ _ _ p _ _ _ _ \
         _ _ _ _ _ _ _ _",
    );
    assert!(board.apply_move(play("d2 d4")));
    assert!(!board.is_valid_move(play("f4 e3")));
    assert!(!board.is_valid_move(play("f4 g3")));
    assert!(!board.is_valid_move(play("h4 g3")));
}

#[test]
fn a_forced_diagonal_pawn_move_takes_nothing_without_a_double_step() {
    let mut board = position(
        "_ _ _ _ _ _ _ _ \
         _ _ _ _ _ _ _ _ \
         _ _ _ _ _ _ _ _ \
         _ _ _ _ _ _ _ _ \
         _ _ _ _ P _ _ _ \
         _ _ _ p _ _ _ _ \
         _ _ _ _ _ _ _ _ \
         _ _ _ _ _ _ _ _",
    );
    board.force_move(play("d3 d4"));
    board.force_move(play("e4 d3"));
    assert_eq!(
        board.piece(play("d4 d3").from),
        Some(Piece::new(PieceKind::Pawn, PieceColor::White))
    );
}

#[test]
fn a_pawn_steps_twice_from_its_starting_rank_only() {
    let board = position(
        "_ _ _ _ _ _ _ _ \
         P _ _ _ _ _ _ _ \
         _ P _ _ _ _ _ _ \
         _ _ _ _ _ _ _ _ \
         _ _ _ _ _ _ _ _ \
         _ _ _ _ _ _ p _ \
         _ _ _ _ _ _ _ p \
         _ _ _ _ _ _ _ _",
    );
    assert!(board.is_valid_move(play("h2 h4")));
    assert!(!board.is_valid_move(play("g3 g5")));
    assert!(board.is_valid_move(play("a7 a5")));
    assert!(!board.is_valid_move(play("b6 b4")));
}

#[test]
fn a_blocked_pawn_does_not_jump() {
    let board = position(
        "_ _ _ _ _ _ _ _ \
         P P _ _ _ _ _ _ \
         n _ _ _ _ _ _ _ \
         _ n _ _ _ _ _ _ \
         _ _ _ _ _ _ N _ \
         _ _ _ _ _ _ _ N \
         _ _ _ _ _ _ p p \
         _ _ _ _ _ _ _ _",
    );
    // The next square is held: neither step.
    assert!(!board.is_valid_move(play("h2 h3")));
    assert!(!board.is_valid_move(play("h2 h4")));
    assert!(!board.is_valid_move(play("a7 a6")));
    assert!(!board.is_valid_move(play("a7 a5")));
    // The second square is held: the single step only.
    assert!(board.is_valid_move(play("g2 g3")));
    assert!(!board.is_valid_move(play("g2 g4")));
    assert!(board.is_valid_move(play("b7 b6")));
    assert!(!board.is_valid_move(play("b7 b5")));
}

#[test]
fn a_pawn_is_promoted_when_it_captures_onto_the_last_rank() {
    let mut board = position(
        "_ N _ _ _ _ _ _ \
         p _ _ _ _ _ _ _ \
         _ _ _ _ _ _ _ _ \
         _ _ _ _ _ _ _ _ \
         _ _ _ _ _ _ _ _ \
         _ _ _ _ _ _ _ _ \
         _ _ _ _ _ _ _ P \
         _ _ _ _ _ _ n _",
    );
    assert!(board.apply_move(play("a7 b8")));
    assert_eq!(board.piece(Position(1, 0)), Some(Piece::new(PieceKind::Queen, PieceColor::White)));
    assert!(board.apply_move(play("h2 g1")));
    assert_eq!(board.piece(Position(6, 7)), Some(Piece::new(PieceKind::Queen, PieceColor::Black)));
}

#[test]
fn a_pawn_is_promoted_when_it_is_forced_onto_the_last_rank() {
    let mut board = position(
        "_ _ _ _ _ _ _ _ \
         _ _ _ _ _ _ _ _ \
         _ _ _ _ _ _ _ _ \
         _ _ _ _ p _ _ _ \
         _ _ _ _ _ _ _ _ \
         _ _ _ _ _ _ _ _ \
         _ _ _ _ _ _ _ _ \
         _ _ _ _ _ _ _ _",
    );
    board.force_move(play("e5 c8"));
    assert_eq!(board.piece(Position(2, 0)), Some(Piece::new(PieceKind::Queen, PieceColor::White)));
}

#[test]
fn promotion_looks_at_the_whole_board() {
    let mut board = position(
        "p _ _ _ _ _ _ _ \
         _ _ _ _ _ _ _ _ \
         _ _ _ _ _ _ _ _ \
         _ _ _ _ _ _ _ _ \
         _ _ _ _ _ _ _ _ \
         _ _ _ _ _ _ _ _ \
         _ _ _ _ _ _ _ _ \
         k _ _ _ _ _ _ P",
    );
    assert!(board.apply_move(play("a1 a2")));
    assert_eq!(board.piece(Position(0, 0)), Some(Piece::new(PieceKind::Queen, PieceColor::White)));
    assert_eq!(board.piece(Position(7, 7)), Some(Piece::new(PieceKind::Queen, PieceColor::Black)));
}

#[test]
fn a_pawn_on_its_own_back_rank_stays_a_pawn() {
    let mut board = position(
        "P _ _ _ _ _ _ _ \
         _ _ _ _ _ _ _ _ \
         _ _ _ _ _ _ _ _ \
         _ _ _ _ _ _ _ _ \
         _ _ _ _ _ _ _ _ \
         _ _ _ _ _ _ _ _ \
         _ _ _ _ _ _ _ _ \
         k _ _ _ _ _ _ p",
    );
    assert!(board.apply_move(play("a1 a2")));
    assert_eq!(board.piece(Position(0, 0)), Some(Piece::new(PieceKind::Pawn, PieceColor::Black)));
    assert_eq!(board.piece(Position(7, 7)), Some(Piece::new(PieceKind::Pawn, PieceColor::White)));
}
