//! The written form of boards, squares and moves.
//!
//! A board is written as 64 symbols, rank 0 first and each rank from file 0
//! to file 7, separated by white space: `_` for a free square, a lower-case
//! letter for a white piece and an upper-case letter for a black piece. A
//! move is written as two squares, each a file letter and a rank digit.

use vstd::prelude::*;
use vstd::string::*;

use crate::board::{Board, BoardMove};
use crate::grid::Grid;
use crate::piece::{Piece, PieceColor, PieceKind};
use crate::position::{lemma_from_index, Position};
use crate::rules::castle::no_flags;
use crate::Uc;

verus! {

/// `c` separates words.
pub open spec fn is_space(c: char) -> bool {
    c == ' ' || c == '\t' || c == '\n' || c == '\r'
}

/// The index just behind the word that holds position `i` of `s`, or `i`
/// where a space stands there or the text has ended.
pub open spec fn word_end(s: Seq<char>, i: int) -> int
    decreases s.len() - i,
{
    if i < 0 || i >= s.len() || is_space(s[i]) {
        i
    } else {
        word_end(s, i + 1)
    }
}

/// The words of `s` from position `i` on: the longest runs of characters
/// that are not spaces.
pub open spec fn words_from(s: Seq<char>, i: int) -> Seq<Seq<char>>
    decreases s.len() - i,
{
    if i < 0 || i >= s.len() {
        Seq::empty()
    } else if is_space(s[i]) {
        words_from(s, i + 1)
    } else {
        let end = word_end(s, i);
        seq![s.subrange(i, end)] + if i < end <= s.len() {
            words_from(s, end)
        } else {
            Seq::empty()
        }
    }
}

/// The words of `s`.
pub open spec fn words(s: Seq<char>) -> Seq<Seq<char>> {
    words_from(s, 0)
}

/// What the symbol `c` puts on a square: `Some(None)` for `_`, a piece for
/// one of the twelve letters, and `None` where `c` is no symbol.
pub open spec fn symbol(c: char) -> Option<Option<Piece>> {
    if c == '_' {
        Some(None)
    } else if c == 'p' {
        Some(Some(Piece { kind: PieceKind::Pawn, color: PieceColor::White }))
    } else if c == 'r' {
        Some(Some(Piece { kind: PieceKind::Rook, color: PieceColor::White }))
    } else if c == 'n' {
        Some(Some(Piece { kind: PieceKind::Knight, color: PieceColor::White }))
    } else if c == 'b' {
        Some(Some(Piece { kind: PieceKind::Bishop, color: PieceColor::White }))
    } else if c == 'q' {
        Some(Some(Piece { kind: PieceKind::Queen, color: PieceColor::White }))
    } else if c == 'k' {
        Some(Some(Piece { kind: PieceKind::King, color: PieceColor::White }))
    } else if c == 'P' {
        Some(Some(Piece { kind: PieceKind::Pawn, color: PieceColor::Black }))
    } else if c == 'R' {
        Some(Some(Piece { kind: PieceKind::Rook, color: PieceColor::Black }))
    } else if c == 'N' {
        Some(Some(Piece { kind: PieceKind::Knight, color: PieceColor::Black }))
    } else if c == 'B' {
        Some(Some(Piece { kind: PieceKind::Bishop, color: PieceColor::Black }))
    } else if c == 'Q' {
        Some(Some(Piece { kind: PieceKind::Queen, color: PieceColor::Black }))
    } else if c == 'K' {
        Some(Some(Piece { kind: PieceKind::King, color: PieceColor::Black }))
    } else {
        None
    }
}

/// Word `w` is one symbol.
pub open spec fn is_symbol(w: Seq<char>) -> bool {
    w.len() == 1 && symbol(w[0]) is Some
}

/// The grid that the text `s` describes: it has exactly 64 words, each of
/// them one symbol.
pub open spec fn grid_of(s: Seq<char>) -> Option<Grid> {
    let w = words(s);
    if w.len() == 64 && (forall|k: int| 0 <= k < 64 ==> is_symbol(#[trigger] w[k])) {
        Some(Seq::new(64, |k: int| symbol(w[k][0]).unwrap()))
    } else {
        None
    }
}

/// The file that the letter `c` names, in either case.
pub open spec fn file_of(c: char) -> Option<Uc> {
    if c == 'a' || c == 'A' {
        Some(0u8)
    } else if c == 'b' || c == 'B' {
        Some(1u8)
    } else if c == 'c' || c == 'C' {
        Some(2u8)
    } else if c == 'd' || c == 'D' {
        Some(3u8)
    } else if c == 'e' || c == 'E' {
        Some(4u8)
    } else if c == 'f' || c == 'F' {
        Some(5u8)
    } else if c == 'g' || c == 'G' {
        Some(6u8)
    } else if c == 'h' || c == 'H' {
        Some(7u8)
    } else {
        None
    }
}

/// The rank that the digit `c` names: `8` names rank 0, `1` names rank 7.
pub open spec fn rank_of(c: char) -> Option<Uc> {
    if c == '8' {
        Some(0u8)
    } else if c == '7' {
        Some(1u8)
    } else if c == '6' {
        Some(2u8)
    } else if c == '5' {
        Some(3u8)
    } else if c == '4' {
        Some(4u8)
    } else if c == '3' {
        Some(5u8)
    } else if c == '2' {
        Some(6u8)
    } else if c == '1' {
        Some(7u8)
    } else {
        None
    }
}

/// The square that word `w` names: a file letter and a rank digit.
pub open spec fn square_of(w: Seq<char>) -> Option<Position> {
    if w.len() == 2 {
        match (file_of(w[0]), rank_of(w[1])) {
            (Some(col), Some(row)) => Some(Position(col, row)),
            _ => None,
        }
    } else {
        None
    }
}

/// The move that the text `s` describes: it has exactly two words, each of
/// them a square.
pub open spec fn move_of(s: Seq<char>) -> Option<BoardMove> {
    let w = words(s);
    if w.len() == 2 {
        match (square_of(w[0]), square_of(w[1])) {
            (Some(from), Some(to)) => Some(BoardMove { from, to }),
            _ => None,
        }
    } else {
        None
    }
}

/// A word ends behind its start and within the text, it holds no space,
/// and a space or the end of the text follows it.
pub proof fn lemma_word_end(s: Seq<char>, i: int)
    requires
        0 <= i <= s.len(),
    ensures
        i <= word_end(s, i) <= s.len(),
        i < s.len() && !is_space(s[i]) ==> i < word_end(s, i),
        forall|k: int| i <= k < word_end(s, i) ==> !is_space(#[trigger] s[k]),
        word_end(s, i) < s.len() ==> is_space(s[word_end(s, i)]),
    decreases s.len() - i,
{
    if i < s.len() && !is_space(s[i]) {
        lemma_word_end(s, i + 1);
    }
}

/// `c` separates words.
pub fn is_space_char(c: char) -> (space: bool)
    ensures
        space == is_space(c),
{
    c == ' ' || c == '\t' || c == '\n' || c == '\r'
}

/// What the symbol `c` puts on a square.
pub fn parse_symbol(c: char) -> (content: Option<Option<Piece>>)
    ensures
        content == symbol(c),
{
    match c {
        '_' => Some(None),
        'p' => Some(Some(Piece::new(PieceKind::Pawn, PieceColor::White))),
        'r' => Some(Some(Piece::new(PieceKind::Rook, PieceColor::White))),
        'n' => Some(Some(Piece::new(PieceKind::Knight, PieceColor::White))),
        'b' => Some(Some(Piece::new(PieceKind::Bishop, PieceColor::White))),
        'q' => Some(Some(Piece::new(PieceKind::Queen, PieceColor::White))),
        'k' => Some(Some(Piece::new(PieceKind::King, PieceColor::White))),
        'P' => Some(Some(Piece::new(PieceKind::Pawn, PieceColor::Black))),
        'R' => Some(Some(Piece::new(PieceKind::Rook, PieceColor::Black))),
        'N' => Some(Some(Piece::new(PieceKind::Knight, PieceColor::Black))),
        'B' => Some(Some(Piece::new(PieceKind::Bishop, PieceColor::Black))),
        'Q' => Some(Some(Piece::new(PieceKind::Queen, PieceColor::Black))),
        'K' => Some(Some(Piece::new(PieceKind::King, PieceColor::Black))),
        _ => None,
    }
}

/// The file that the letter `c` names.
fn parse_file(c: char) -> (col: Option<Uc>)
    ensures
        col == file_of(c),
{
    match c {
        'a' | 'A' => Some(0),
        'b' | 'B' => Some(1),
        'c' | 'C' => Some(2),
        'd' | 'D' => Some(3),
        'e' | 'E' => Some(4),
        'f' | 'F' => Some(5),
        'g' | 'G' => Some(6),
        'h' | 'H' => Some(7),
        _ => None,
    }
}

/// The rank that the digit `c` names.
fn parse_rank(c: char) -> (row: Option<Uc>)
    ensures
        row == rank_of(c),
{
    match c {
        '8' => Some(0),
        '7' => Some(1),
        '6' => Some(2),
        '5' => Some(3),
        '4' => Some(4),
        '3' => Some(5),
        '2' => Some(6),
        '1' => Some(7),
        _ => None,
    }
}

/// The start of the next word of `text` at or behind position `i`, or the
/// length `n` of the text where no word follows.
fn skip_spaces(text: &str, n: usize, i: usize) -> (j: usize)
    requires
        n == text@.len(),
        i <= n,
    ensures
        i <= j <= n,
        j < n ==> !is_space(text@[j as int]),
        words_from(text@, j as int) == words_from(text@, i as int),
{
    let mut j = i;
    while j < n && is_space_char(text.get_char(j))
        invariant
            n == text@.len(),
            i <= j <= n,
            words_from(text@, j as int) == words_from(text@, i as int),
        decreases n - j,
    {
        j += 1;
    }
    j
}

/// The end of the word of `text` that starts at position `i`.
fn scan_word(text: &str, n: usize, i: usize) -> (j: usize)
    requires
        n == text@.len(),
        i < n,
        !is_space(text@[i as int]),
    ensures
        i < j <= n,
        j == word_end(text@, i as int),
        words_from(text@, i as int) == seq![text@.subrange(i as int, j as int)] + words_from(
            text@,
            j as int,
        ),
{
    let mut j = i + 1;
    proof {
        lemma_word_end(text@, i as int);
    }
    while j < n && !is_space_char(text.get_char(j))
        invariant
            n == text@.len(),
            i < j <= n,
            word_end(text@, j as int) == word_end(text@, i as int),
        decreases n - j,
    {
        j += 1;
    }
    j
}

/// The square that the word of `text` from `start` to `end` names.
fn parse_square(text: &str, start: usize, end: usize) -> (square: Option<Position>)
    requires
        start <= end <= text@.len(),
    ensures
        square == square_of(text@.subrange(start as int, end as int)),
        square matches Some(p) ==> p.wf(),
{
    if end - start != 2 {
        return None;
    }
    let ghost w = text@.subrange(start as int, end as int);
    assert(w[0] == text@[start as int]);
    assert(w[1] == text@[start + 1]);
    match (parse_file(text.get_char(start)), parse_rank(text.get_char(start + 1))) {
        (Some(col), Some(row)) => Some(Position(col, row)),
        _ => None,
    }
}

/// Reads a move: two squares, each written as a file letter, in either
/// case, and a rank digit, with white space between and around them. Any
/// other text is rejected.
pub fn board_move(text: &str) -> (parsed: Option<BoardMove>)
    ensures
        parsed == move_of(text@),
        parsed matches Some(m) ==> m.wf(),
{
    let n = text.unicode_len();
    let ghost all = words(text@);
    let first = skip_spaces(text, n, 0);
    if first == n {
        return None;
    }
    let first_end = scan_word(text, n, first);
    let second = skip_spaces(text, n, first_end);
    if second == n {
        assert(all.len() == 1);
        return None;
    }
    let second_end = scan_word(text, n, second);
    let rest = skip_spaces(text, n, second_end);
    assert(all =~= seq![
        text@.subrange(first as int, first_end as int),
        text@.subrange(second as int, second_end as int),
    ] + words_from(text@, rest as int));
    if rest != n {
        proof {
            lemma_word_end(text@, rest as int);
        }
        return None;
    }
    match (parse_square(text, first, first_end), parse_square(text, second, second_end)) {
        (Some(from), Some(to)) => Some(BoardMove { from, to }),
        _ => None,
    }
}

/// Reads a board: 64 symbols separated by white space, rank 0 first and
/// each rank from file 0 to file 7. The board that is returned holds the
/// pieces as written and the rule state of a game in which no move has been
/// made. Any other text is rejected.
pub fn board(text: &str) -> (parsed: Option<Board>)
    ensures
        match parsed {
            Some(b) => grid_of(text@) == Some(b@.pieces) && b@.moved == no_flags()
                && b@.last_pawn_move is None && b.wf(),
            None => grid_of(text@) is None,
        },
{
    let n = text.unicode_len();
    let ghost all = words(text@);
    let ghost mut done: Seq<Seq<char>> = Seq::empty();
    let mut board = Board::new();
    let squares = Position::all();
    let mut count: usize = 0;
    let mut i: usize = skip_spaces(text, n, 0);
    while i < n
        invariant
            n == text@.len(),
            all == words(text@),
            i <= n,
            count <= 64,
            i < n ==> !is_space(text@[i as int]),
            forall|j: int| 0 <= j < 64 ==> #[trigger] squares[j] == Position::from_index(j),
            all == done + words_from(text@, i as int),
            done.len() == count,
            forall|k: int| 0 <= k < count ==> is_symbol(#[trigger] done[k]),
            forall|k: int|
                0 <= k < count ==> #[trigger] board@.pieces[k] == symbol(done[k][0]).unwrap(),
            board@.pieces.len() == 64,
            board@.moved == no_flags(),
            board@.last_pawn_move is None,
        decreases n - i,
    {
        let end = scan_word(text, n, i);
        let ghost word = text@.subrange(i as int, end as int);
        assert(all[count as int] == word);
        assert(word[0] == text@[i as int]);
        if end - i != 1 || count == 64 {
            return None;
        }
        match parse_symbol(text.get_char(i)) {
            Some(content) => {
                proof {
                    lemma_from_index(count as int);
                }
                board.set_piece(squares[count], content);
            },
            None => {
                return None;
            },
        }
        proof {
            done = done.push(word);
            assert(all =~= done + words_from(text@, end as int));
        }
        count += 1;
        i = skip_spaces(text, n, end);
    }
    if count != 64 {
        assert(all =~= done);
        return None;
    }
    proof {
        assert(all =~= done);
        assert(board@.pieces =~= Seq::new(64, |k: int| symbol(all[k][0]).unwrap()));
    }
    Some(board)
}

/// The name of square `p`: its file letter and its rank digit.
pub open spec fn square_text(p: Position) -> Seq<char> {
    seq![Position::spec_col_char(p.0), Position::spec_row_char(p.1)]
}

/// The written form of move `m`: the names of its squares with an arrow
/// between them.
pub open spec fn move_text(m: BoardMove) -> Seq<char> {
    square_text(m.from) + seq![' ', '-', '>', ' '] + square_text(m.to)
}

/// The character that stands for what is on a square: the letter of the
/// piece, or a blank.
pub open spec fn content_char(content: Option<Piece>) -> char {
    match content {
        Some(p) => p.spec_char(),
        None => ' ',
    }
}

/// The first `n` file letters of the heading, each behind a blank.
pub open spec fn heading(n: int) -> Seq<char>
    decreases n,
{
    if n <= 0 {
        Seq::empty()
    } else {
        heading(n - 1) + seq![' ', Position::spec_col_char((n - 1) as Uc)]
    }
}

/// The first `n` squares of rank `row`, each followed by a bar.
pub open spec fn rank_squares(g: Grid, row: int, n: int) -> Seq<char>
    decreases n,
{
    if n <= 0 {
        Seq::empty()
    } else {
        rank_squares(g, row, n - 1) + seq![content_char(g[row * 8 + n - 1]), '|']
    }
}

/// The line of rank `row`: a line break, the rank digit, a bar, and the
/// eight squares.
pub open spec fn rank_line(g: Grid, row: int) -> Seq<char> {
    seq!['\n', Position::spec_row_char(row as Uc), '|'] + rank_squares(g, row, 8)
}

/// The lines of the first `n` ranks.
pub open spec fn rank_lines(g: Grid, n: int) -> Seq<char>
    decreases n,
{
    if n <= 0 {
        Seq::empty()
    } else {
        rank_lines(g, n - 1) + rank_line(g, n - 1)
    }
}

/// The picture of grid `g`: a line break, the heading with the file
/// letters, one line for each rank, and a line break.
pub open spec fn picture(g: Grid) -> Seq<char> {
    seq!['\n', ' '] + heading(8) + rank_lines(g, 8) + seq!['\n']
}

/// Appends the character `c` to `text`. This is `String::push` of the
/// standard library; that it appends exactly this character is taken on
/// trust.
#[verifier::external_body]
fn push_char(text: &mut String, c: char)
    ensures
        final(text)@ == old(text)@.push(c),
{
    text.push(c);
}

impl Position {
    /// The name of the square: its file letter and its rank digit.
    pub fn to_string(&self) -> (text: String)
        requires
            self.wf(),
        ensures
            text@ == square_text(*self),
    {
        let mut text = String::new();
        push_char(&mut text, Position::col_char(self.col()));
        push_char(&mut text, Position::row_char(self.row()));
        assert(text@ =~= square_text(*self));
        text
    }
}

impl BoardMove {
    /// The written form of the move: the names of its squares with an arrow
    /// between them.
    pub fn to_string(&self) -> (text: String)
        requires
            self.wf(),
        ensures
            text@ == move_text(*self),
    {
        let mut text = self.from.to_string();
        push_char(&mut text, ' ');
        push_char(&mut text, '-');
        push_char(&mut text, '>');
        push_char(&mut text, ' ');
        push_char(&mut text, Position::col_char(self.to.col()));
        push_char(&mut text, Position::row_char(self.to.row()));
        assert(text@ =~= move_text(*self));
        text
    }
}

impl Board {
    /// A picture of the board: the file letters, then one line for each
    /// rank with its digit and its eight squares.
    pub fn render(&self) -> (text: String)
        ensures
            text@ == picture(self@.pieces),
    {
        let ghost g = self@.pieces;
        let mut text = String::new();
        push_char(&mut text, '\n');
        push_char(&mut text, ' ');
        let ghost start = text@;
        assert(start =~= seq!['\n', ' ']);
        let mut col: Uc = 0;
        while col < Position::col_count()
            invariant
                col <= 8,
                text@ == start + heading(col as int),
            decreases 8 - col,
        {
            push_char(&mut text, ' ');
            push_char(&mut text, Position::col_char(col));
            assert(text@ =~= start + heading(col + 1));
            col += 1;
        }
        let ghost top = text@;
        let mut row: Uc = 0;
        while row < Position::row_count()
            invariant
                row <= 8,
                g == self@.pieces,
                text@ == top + rank_lines(g, row as int),
            decreases 8 - row,
        {
            let ghost above = text@;
            push_char(&mut text, '\n');
            push_char(&mut text, Position::row_char(row));
            push_char(&mut text, '|');
            let ghost left = text@;
            let mut col: Uc = 0;
            while col < Position::col_count()
                invariant
                    col <= 8,
                    row < 8,
                    g == self@.pieces,
                    text@ == left + rank_squares(g, row as int, col as int),
                decreases 8 - col,
            {
                let position = Position(col, row);
                if let Some(piece) = self.piece(position) {
                    push_char(&mut text, piece.char());
                } else {
                    push_char(&mut text, ' ');
                }
                push_char(&mut text, '|');
                assert(text@ =~= left + rank_squares(g, row as int, col + 1));
                col += 1;
            }
            assert(text@ =~= above + rank_line(g, row as int));
            assert(text@ =~= top + rank_lines(g, row + 1));
            row += 1;
        }
        push_char(&mut text, '\n');
        assert(text@ =~= picture(g));
        text
    }
}

} // verus!
