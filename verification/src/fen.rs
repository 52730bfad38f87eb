//! Forsyth-Edwards Notation: reading a position from its one line of
//! text.
//!
//! The text holds six fields, parted by whitespace: the placement of the
//! pieces, rank 8 first, the ranks parted by `/`; the side to move; the
//! castling rights; the en-passant target; the halfmove clock; and the
//! fullmove number. It is first cut into tokens, and the tokens are then
//! folded into a state.

use crate::piece::{Piece, PieceColor, PieceKind};
use crate::position::{square_named, Position};
use crate::state::{GameState, GameStateView};
use vstd::prelude::*;
use vstd::string::StrSliceExecFns;

verus! {

/// A token of a position's text.
#[derive(Debug, Clone, Copy, PartialEq, Eq, Structural)]
pub enum FENToken {
    /// A letter of the placement, which should name a piece.
    Piece(char),
    /// A digit of the placement: that many empty squares.
    Empty(u8),
    /// A `/` of the placement.
    EndOfRank,
    /// The end of the placement.
    EndOfBoard,
    /// The one character of the side to move.
    Turn(char),
    /// A character of the castling rights.
    Castle(char),
    /// The two characters of the en-passant target.
    EnPassant(char, char),
    HalfmoveClock(usize),
    FullmoveNumber(usize),
}

/// Why a text is not a position.
#[derive(Debug)]
pub enum FENParserError {
    /// The text has fewer than six fields.
    NotEnoughArguments,
    /// A field has the wrong length, or is no number where one is due.
    InvalidArgument(String),
    /// A letter of the placement names no piece.
    InvalidPiece(char),
    /// The side to move is neither `w` nor `b`.
    InvalidTurn(char),
    /// A character of the castling rights is none of `K`, `Q`, `k`, `q`.
    InvalidCastle(char),
    /// The en-passant target is no square.
    InvalidPosition(char, char),
    /// The placement has more or fewer than eight ranks: the number found,
    /// or 9 for more.
    InvalidRankCount(u8),
    /// A rank of the placement has more than eight files: the number
    /// reached.
    InvalidFileCount(u8),
}

/// An error of the parser as a mathematical value.
pub enum FENParserErrorView {
    NotEnoughArguments,
    InvalidArgument(Seq<char>),
    InvalidPiece(char),
    InvalidTurn(char),
    InvalidCastle(char),
    InvalidPosition(char, char),
    InvalidRankCount(u8),
    InvalidFileCount(u8),
}

impl View for FENParserError {
    type V = FENParserErrorView;

    open spec fn view(&self) -> FENParserErrorView {
        match self {
            FENParserError::NotEnoughArguments => FENParserErrorView::NotEnoughArguments,
            FENParserError::InvalidArgument(text) => FENParserErrorView::InvalidArgument(text@),
            FENParserError::InvalidPiece(c) => FENParserErrorView::InvalidPiece(*c),
            FENParserError::InvalidTurn(c) => FENParserErrorView::InvalidTurn(*c),
            FENParserError::InvalidCastle(c) => FENParserErrorView::InvalidCastle(*c),
            FENParserError::InvalidPosition(f, r) => FENParserErrorView::InvalidPosition(*f, *r),
            FENParserError::InvalidRankCount(n) => FENParserErrorView::InvalidRankCount(*n),
            FENParserError::InvalidFileCount(n) => FENParserErrorView::InvalidFileCount(*n),
        }
    }
}

/// Whether a character has the Unicode property White_Space.
pub uninterp spec fn white_space(c: char) -> bool;

/// `char::is_whitespace` of std: whether the character has the Unicode
/// property White_Space. Nothing is claimed but that the answer is the
/// same for the same character.
#[verifier::external_body]
fn is_whitespace(c: char) -> (r: bool)
    ensures
        r == white_space(c),
{
    c.is_whitespace()
}

/// The piece that a letter of the placement names: upper case for White,
/// lower case for Black.
pub open spec fn piece_of_letter(c: char) -> Option<Piece> {
    if c == 'P' {
        Some(Piece { kind: PieceKind::Pawn, color: PieceColor::White })
    } else if c == 'N' {
        Some(Piece { kind: PieceKind::Knight, color: PieceColor::White })
    } else if c == 'B' {
        Some(Piece { kind: PieceKind::Bishop, color: PieceColor::White })
    } else if c == 'R' {
        Some(Piece { kind: PieceKind::Rook, color: PieceColor::White })
    } else if c == 'Q' {
        Some(Piece { kind: PieceKind::Queen, color: PieceColor::White })
    } else if c == 'K' {
        Some(Piece { kind: PieceKind::King, color: PieceColor::White })
    } else if c == 'p' {
        Some(Piece { kind: PieceKind::Pawn, color: PieceColor::Black })
    } else if c == 'n' {
        Some(Piece { kind: PieceKind::Knight, color: PieceColor::Black })
    } else if c == 'b' {
        Some(Piece { kind: PieceKind::Bishop, color: PieceColor::Black })
    } else if c == 'r' {
        Some(Piece { kind: PieceKind::Rook, color: PieceColor::Black })
    } else if c == 'q' {
        Some(Piece { kind: PieceKind::Queen, color: PieceColor::Black })
    } else if c == 'k' {
        Some(Piece { kind: PieceKind::King, color: PieceColor::Black })
    } else {
        None
    }
}

/// The first place from `i` on that holds no whitespace, or the end of
/// the text.
pub open spec fn skip_spaces(text: Seq<char>, i: int) -> int
    decreases text.len() - i,
{
    if 0 <= i < text.len() && white_space(text[i]) {
        skip_spaces(text, i + 1)
    } else {
        i
    }
}

/// The first place from `i` on that holds whitespace, or the end of the
/// text.
pub open spec fn skip_word(text: Seq<char>, i: int) -> int
    decreases text.len() - i,
{
    if 0 <= i < text.len() && !white_space(text[i]) {
        skip_word(text, i + 1)
    } else {
        i
    }
}

/// The token of one character of the placement.
pub open spec fn placement_token(c: char) -> FENToken {
    if '1' <= c <= '8' {
        FENToken::Empty((c as int - '0' as int) as u8)
    } else if c == '/' {
        FENToken::EndOfRank
    } else {
        FENToken::Piece(c)
    }
}

/// The token of the one character of the side to move.
pub open spec fn turn_token(c: char) -> FENToken {
    FENToken::Turn(c)
}

/// The token of one character of the castling rights.
pub open spec fn castle_token(c: char) -> FENToken {
    FENToken::Castle(c)
}

/// The token of the two characters of an en-passant target.
pub open spec fn en_passant_token(file: char, rank: char) -> FENToken {
    FENToken::EnPassant(file, rank)
}

/// The tokens of the placement: one for each character.
pub open spec fn placement_tokens(word: Seq<char>) -> Seq<FENToken>
    decreases word.len(),
{
    if word.len() == 0 {
        Seq::empty()
    } else {
        placement_tokens(word.drop_last()).push(placement_token(word.last()))
    }
}

/// One castling token for each character.
pub open spec fn castle_letters(word: Seq<char>) -> Seq<FENToken>
    decreases word.len(),
{
    if word.len() == 0 {
        Seq::empty()
    } else {
        castle_letters(word.drop_last()).push(castle_token(word.last()))
    }
}

/// The tokens of the castling rights: none for `-`, else one for each
/// character.
pub open spec fn castle_tokens(word: Seq<char>) -> Seq<FENToken> {
    if word == seq!['-'] {
        Seq::empty()
    } else {
        castle_letters(word)
    }
}

/// The number that a run of decimal digits writes.
pub open spec fn digits_value(digits: Seq<char>) -> nat
    decreases digits.len(),
{
    if digits.len() == 0 {
        0
    } else {
        (digits_value(digits.drop_last()) * 10 + (digits.last() as int - '0' as int)) as nat
    }
}

/// Every character is a decimal digit.
pub open spec fn all_digits(digits: Seq<char>) -> bool {
    forall|i: int| 0 <= i < digits.len() ==> '0' <= #[trigger] digits[i] <= '9'
}

/// The number that a word writes: decimal digits, at least one, after
/// at most one `+`, and the number fits a `usize`.
pub open spec fn number(word: Seq<char>) -> Option<usize> {
    let digits = if word.len() > 0 && word[0] == '+' {
        word.subrange(1, word.len() as int)
    } else {
        word
    };
    if digits.len() > 0 && all_digits(digits) && digits_value(digits) <= usize::MAX {
        Some(digits_value(digits) as usize)
    } else {
        None
    }
}

/// The word is one character of one byte.
pub open spec fn is_one_byte(word: Seq<char>) -> bool {
    word.len() == 1 && (word[0] as int) < 0x80
}

/// The word is two characters of one byte each.
pub open spec fn is_two_single_bytes(word: Seq<char>) -> bool {
    word.len() == 2 && (word[0] as int) < 0x80 && (word[1] as int) < 0x80
}

/// The first `n` fields of a text from the place `i` on: the runs of
/// characters that are not whitespace.
pub open spec fn take_fields(text: Seq<char>, i: int, n: nat) -> Seq<Seq<char>>
    decreases n,
{
    let from = skip_spaces(text, i);
    let to = skip_word(text, from);
    if n == 0 || from >= text.len() {
        Seq::empty()
    } else {
        seq![text.subrange(from, to)] + take_fields(text, to, (n - 1) as nat)
    }
}

/// The texts of a list of strings.
pub open spec fn texts(fields: Seq<String>) -> Seq<Seq<char>> {
    Seq::new(fields.len(), |i: int| fields[i]@)
}

/// The tokens of the en-passant target: none for `-`, else the one of
/// its two characters.
pub open spec fn target_tokens(word: Seq<char>) -> Seq<FENToken> {
    if word == seq!['-'] {
        Seq::empty()
    } else {
        seq![en_passant_token(word[0], word[1])]
    }
}

/// The tokens of the fields of a text, or the first fault found in them:
/// a field that is missing, or one of a wrong length, or a counter that
/// is no number. Fields after the sixth are not read.
pub open spec fn lex_fields(fields: Seq<Seq<char>>) -> Result<Seq<FENToken>, FENParserErrorView> {
    if fields.len() < 2 {
        Err(FENParserErrorView::NotEnoughArguments)
    } else if !is_one_byte(fields[1]) {
        Err(FENParserErrorView::InvalidArgument(fields[1]))
    } else if fields.len() < 4 {
        Err(FENParserErrorView::NotEnoughArguments)
    } else if fields[3] != seq!['-'] && !is_two_single_bytes(fields[3]) {
        Err(FENParserErrorView::InvalidArgument(fields[3]))
    } else if fields.len() < 5 {
        Err(FENParserErrorView::NotEnoughArguments)
    } else if number(fields[4]) is None {
        Err(FENParserErrorView::InvalidArgument(fields[4]))
    } else if fields.len() < 6 {
        Err(FENParserErrorView::NotEnoughArguments)
    } else if number(fields[5]) is None {
        Err(FENParserErrorView::InvalidArgument(fields[5]))
    } else {
        Ok(
            placement_tokens(fields[0]) + seq![FENToken::EndOfBoard, turn_token(fields[1][0])]
                + castle_tokens(fields[2]) + target_tokens(fields[3]) + seq![
                FENToken::HalfmoveClock(number(fields[4])->0),
                FENToken::FullmoveNumber(number(fields[5])->0),
            ],
        )
    }
}

/// The tokens of a text, or the first fault found in cutting it up.
pub open spec fn lex(text: Seq<char>) -> Result<Seq<FENToken>, FENParserErrorView> {
    lex_fields(take_fields(text, 0, 6))
}

/// A state that is being read from tokens: the state so far, and the
/// rank and file at which the next piece of the placement goes.
pub struct Reading {
    pub state: GameStateView,
    pub rank: u8,
    pub file: u8,
}

/// The bit of the castling rights that a letter names.
pub open spec fn right_of_letter(c: char) -> Option<u8> {
    if c == 'K' {
        Some(0b1000u8)
    } else if c == 'Q' {
        Some(0b0100u8)
    } else if c == 'k' {
        Some(0b0010u8)
    } else if c == 'q' {
        Some(0b0001u8)
    } else {
        None
    }
}

/// A reading after one more token, or the fault that the token shows.
///
/// A piece goes on the square of the cursor, which moves one file on; a
/// count of empty squares moves the cursor that many files on; neither
/// may pass the eighth file. The end of a rank moves the cursor to the
/// start of the rank below, whether or not the rank was full; below the
/// first rank there is none. At the end of the board the cursor must be
/// on the first rank.
pub open spec fn read_token(r: Reading, token: FENToken) -> Result<Reading, FENParserErrorView> {
    match token {
        FENToken::Piece(c) => if r.file > 7 {
            Err(FENParserErrorView::InvalidFileCount(r.file))
        } else if piece_of_letter(c) is None {
            Err(FENParserErrorView::InvalidPiece(c))
        } else {
            Ok(
                Reading {
                    state: GameStateView {
                        board: r.state.board.update(r.rank * 8 + r.file, piece_of_letter(c)),
                        ..r.state
                    },
                    file: (r.file + 1) as u8,
                    ..r
                },
            )
        },
        FENToken::Empty(n) => if r.file + n > 8 {
            Err(FENParserErrorView::InvalidFileCount((r.file + n) as u8))
        } else {
            Ok(Reading { file: (r.file + n) as u8, ..r })
        },
        FENToken::EndOfRank => if r.rank == 0 {
            Err(FENParserErrorView::InvalidRankCount(9))
        } else {
            Ok(Reading { rank: (r.rank - 1) as u8, file: 0, ..r })
        },
        FENToken::EndOfBoard => if r.rank > 0 {
            Err(FENParserErrorView::InvalidRankCount((8 - r.rank) as u8))
        } else {
            Ok(r)
        },
        FENToken::Turn(c) => if c == 'w' {
            Ok(Reading { state: GameStateView { turn: PieceColor::White, ..r.state }, ..r })
        } else if c == 'b' {
            Ok(Reading { state: GameStateView { turn: PieceColor::Black, ..r.state }, ..r })
        } else {
            Err(FENParserErrorView::InvalidTurn(c))
        },
        FENToken::Castle(c) => match right_of_letter(c) {
            Some(bit) => Ok(
                Reading {
                    state: GameStateView {
                        castling_rights: r.state.castling_rights | bit,
                        ..r.state
                    },
                    ..r
                },
            ),
            None => Err(FENParserErrorView::InvalidCastle(c)),
        },
        FENToken::EnPassant(f, k) => match square_named(f, k) {
            Some(target) => Ok(
                Reading { state: GameStateView { en_passant: Some(target), ..r.state }, ..r },
            ),
            None => Err(FENParserErrorView::InvalidPosition(f, k)),
        },
        FENToken::HalfmoveClock(n) => Ok(
            Reading { state: GameStateView { halfmove_clock: n as nat, ..r.state }, ..r },
        ),
        FENToken::FullmoveNumber(n) => Ok(
            Reading { state: GameStateView { fullmove_number: n as nat, ..r.state }, ..r },
        ),
    }
}

/// A reading after the first `n` of the tokens, or the first fault.
pub open spec fn read_tokens(r: Reading, tokens: Seq<FENToken>, n: int) -> Result<
    Reading,
    FENParserErrorView,
>
    decreases n,
{
    if n <= 0 {
        Ok(r)
    } else {
        match read_tokens(r, tokens, n - 1) {
            Err(fault) => Err(fault),
            Ok(so_far) => read_token(so_far, tokens[n - 1]),
        }
    }
}

/// The state with an empty board, White to move, no rights and no
/// en-passant target, at move 1, from which a reading starts.
pub open spec fn blank() -> GameStateView {
    GameStateView {
        board: Seq::new(64, |i: int| None::<Piece>),
        turn: PieceColor::White,
        castling_rights: 0,
        en_passant: None,
        halfmove_clock: 0,
        fullmove_number: 1,
        captured_pieces: Seq::empty(),
    }
}

/// The state that the tokens describe, read into `state` from the a-file
/// of the eighth rank on; or the first fault.
pub open spec fn fold(state: GameStateView, tokens: Seq<FENToken>) -> Result<
    GameStateView,
    FENParserErrorView,
> {
    match read_tokens(Reading { state, rank: 7, file: 0 }, tokens, tokens.len() as int) {
        Err(fault) => Err(fault),
        Ok(r) => Ok(r.state),
    }
}

/// The position that a text describes, or why it describes none. A fault
/// in cutting the text into tokens comes before one in the tokens.
pub open spec fn parse_fen(text: Seq<char>) -> Result<GameStateView, FENParserErrorView> {
    match lex(text) {
        Err(fault) => Err(fault),
        Ok(tokens) => fold(blank(), tokens),
    }
}

/// `r` is `Ok` with the view `wanted`, or `Err` with the view of the
/// fault, as `wanted` says.
pub open spec fn tokens_are(
    r: Result<Vec<FENToken>, FENParserError>,
    wanted: Result<Seq<FENToken>, FENParserErrorView>,
) -> bool {
    match wanted {
        Ok(tokens) => r matches Ok(found) && found@ == tokens,
        Err(fault) => r matches Err(found) && found@ == fault,
    }
}

/// `r` is `Ok` with a state of the view `wanted`, or `Err` with the view
/// of the fault, as `wanted` says.
pub open spec fn state_is(
    r: Result<GameState, FENParserError>,
    wanted: Result<GameStateView, FENParserErrorView>,
) -> bool {
    match wanted {
        Ok(state) => r matches Ok(found) && found@ == state,
        Err(fault) => r matches Err(found) && found@ == fault,
    }
}

/// A token that counts empty squares counts between 1 and 8.
pub open spec fn count_fits(token: FENToken) -> bool {
    token matches FENToken::Empty(n) ==> 1 <= n <= 8
}

/// Every count of empty squares is between 1 and 8.
pub open spec fn counts_fit(tokens: Seq<FENToken>) -> bool {
    forall|i: int| 0 <= i < tokens.len() ==> count_fits(#[trigger] tokens[i])
}

/// Counts that fit still fit when a token that fits is added.
proof fn lemma_counts_fit_push(tokens: Seq<FENToken>, token: FENToken)
    requires
        counts_fit(tokens),
        count_fits(token),
    ensures
        counts_fit(tokens.push(token)),
{
    assert forall|i: int| 0 <= i < tokens.push(token).len() implies count_fits(
        #[trigger] tokens.push(token)[i],
    ) by {
        if i < tokens.len() {
            assert(count_fits(tokens[i]));
        }
    }
}

fn fen_char_to_piece(c: char) -> (r: Option<Piece>)
    ensures
        r == piece_of_letter(c),
{
    match c {
        'P' => Some(Piece::new(PieceKind::Pawn, PieceColor::White)),
        'N' => Some(Piece::new(PieceKind::Knight, PieceColor::White)),
        'B' => Some(Piece::new(PieceKind::Bishop, PieceColor::White)),
        'R' => Some(Piece::new(PieceKind::Rook, PieceColor::White)),
        'Q' => Some(Piece::new(PieceKind::Queen, PieceColor::White)),
        'K' => Some(Piece::new(PieceKind::King, PieceColor::White)),
        'p' => Some(Piece::new(PieceKind::Pawn, PieceColor::Black)),
        'n' => Some(Piece::new(PieceKind::Knight, PieceColor::Black)),
        'b' => Some(Piece::new(PieceKind::Bishop, PieceColor::Black)),
        'r' => Some(Piece::new(PieceKind::Rook, PieceColor::Black)),
        'q' => Some(Piece::new(PieceKind::Queen, PieceColor::Black)),
        'k' => Some(Piece::new(PieceKind::King, PieceColor::Black)),
        _ => None,
    }
}

/// The characters of a text.
fn characters(text: &str) -> (r: Vec<char>)
    ensures
        r@ == text@,
{
    let mut r: Vec<char> = Vec::new();
    for c in it: text.chars()
        invariant
            it.seq() == text@,
            r@ == text@.take(it.index() as int),
    {
        assert(text@.take(it.index() + 1) =~= text@.take(it.index() as int).push(c));
        r.push(c);
    }
    assert(text@.take(text@.len() as int) =~= text@);
    r
}

/// The first place from `i` on that holds no whitespace.
fn pass_spaces(text: &Vec<char>, i: usize) -> (j: usize)
    requires
        i <= text@.len(),
    ensures
        j == skip_spaces(text@, i as int),
        i <= j <= text@.len(),
        j < text@.len() ==> !white_space(text@[j as int]),
{
    let mut j = i;
    while j < text.len() && is_whitespace(text[j])
        invariant
            i <= j <= text@.len(),
            skip_spaces(text@, i as int) == skip_spaces(text@, j as int),
        decreases text@.len() - j,
    {
        j += 1;
    }
    j
}

/// The first place from `i` on that holds whitespace.
fn pass_word(text: &Vec<char>, i: usize) -> (j: usize)
    requires
        i <= text@.len(),
    ensures
        j == skip_word(text@, i as int),
        i <= j <= text@.len(),
        i < text@.len() && !white_space(text@[i as int]) ==> i < j,
{
    let mut j = i;
    while j < text.len() && !is_whitespace(text[j])
        invariant
            i <= j <= text@.len(),
            skip_word(text@, i as int) == skip_word(text@, j as int),
        decreases text@.len() - j,
    {
        j += 1;
    }
    j
}

/// The value of a prefix of a run of digits is no more than the value of
/// the run.
proof fn lemma_digits_grow(digits: Seq<char>, n: int)
    requires
        all_digits(digits),
        0 <= n <= digits.len(),
    ensures
        digits_value(digits.take(n)) <= digits_value(digits),
    decreases digits.len() - n,
{
    if n == digits.len() {
        assert(digits.take(n) =~= digits);
    } else {
        lemma_digits_grow(digits, n + 1);
        assert(digits.take(n + 1).drop_last() =~= digits.take(n));
        assert(digits.take(n + 1).last() == digits[n]);
    }
}

/// The number that a word writes.
fn parse_number(word: &Vec<char>) -> (r: Option<usize>)
    ensures
        r == number(word@),
{
    let start: usize = if word.len() > 0 && word[0] == '+' {
        1
    } else {
        0
    };
    let ghost digits = word@.subrange(start as int, word@.len() as int);
    assert(digits =~= if word@.len() > 0 && word@[0] == '+' {
        word@.subrange(1, word@.len() as int)
    } else {
        word@
    });
    if start == word.len() {
        assert(digits.len() == 0);
        return None;
    }
    let mut value: usize = 0;
    let mut i = start;
    assert(digits.take(0) =~= Seq::<char>::empty());
    while i < word.len()
        invariant
            start <= i <= word@.len(),
            start < word@.len(),
            digits == word@.subrange(start as int, word@.len() as int),
            digits == if word@.len() > 0 && word@[0] == '+' {
                word@.subrange(1, word@.len() as int)
            } else {
                word@
            },
            all_digits(digits.take(i - start)),
            value == digits_value(digits.take(i - start)),
        decreases word@.len() - i,
    {
        let c = word[i];
        assert(digits[i - start] == c);
        if c < '0' || c > '9' {
            assert(!all_digits(digits));
            return None;
        }
        let digit: usize = (c as u8 - '0' as u8) as usize;
        proof {
            assert(digits.take(i - start + 1).drop_last() =~= digits.take(i - start));
            assert(digits.take(i - start + 1).last() == c);
            assert(digits_value(digits.take(i - start + 1)) == value * 10 + digit);
            assert forall|j: int| 0 <= j < i - start + 1 implies '0' <= #[trigger] digits.take(
                i - start + 1,
            )[j] <= '9' by {
                if j < i - start {
                    assert(digits.take(i - start)[j] == digits[j]);
                }
            }
            if all_digits(digits) {
                lemma_digits_grow(digits, i - start + 1);
            }
        }
        let scaled = match value.checked_mul(10) {
            Some(scaled) => scaled,
            None => { return None; },
        };
        value = match scaled.checked_add(digit) {
            Some(sum) => sum,
            None => { return None; },
        };
        i += 1;
    }
    assert(digits.take(word@.len() - start) =~= digits);
    Some(value)
}

/// Cuts a text into its first six fields, or into fewer if it holds
/// fewer: the runs of characters that are not whitespace.
pub fn split_fields(fen: &str) -> (fields: Vec<String>)
    ensures
        texts(fields@) == take_fields(fen@, 0, 6),
{
    let text = characters(fen);
    let mut fields: Vec<String> = Vec::new();
    let mut i: usize = 0;
    let mut left: usize = 6;
    assert(texts(fields@) + take_fields(text@, 0, 6) =~= take_fields(text@, 0, 6));
    while left > 0
        invariant
            text@ == fen@,
            i <= text@.len(),
            left <= 6,
            left > 0 ==> take_fields(text@, 0, 6) == texts(fields@) + take_fields(
                text@,
                i as int,
                left as nat,
            ),
            left == 0 ==> take_fields(text@, 0, 6) == texts(fields@),
        decreases left,
    {
        let from = pass_spaces(&text, i);
        if from >= text.len() {
            assert(texts(fields@) + Seq::<Seq<char>>::empty() =~= texts(fields@));
            left = 0;
        } else {
            let to = pass_word(&text, from);
            let ghost before = fields@;
            let ghost rest = take_fields(text@, to as int, (left - 1) as nat);
            let word = fen.substring_char(from, to).to_owned();
            fields.push(word);
            proof {
                assert(texts(fields@) =~= texts(before) + seq![text@.subrange(from as int, to as int)]);
                assert(texts(fields@) + rest =~= texts(before) + (seq![
                    text@.subrange(from as int, to as int),
                ] + rest));
                if left == 1 {
                    assert(texts(fields@) + rest =~= texts(fields@));
                }
            }
            i = to;
            left -= 1;
        }
    }
    fields
}

/// Turns the fields of a text into tokens, or says which field is
/// missing or malformed.
pub fn lex_fen_fields(fields: &Vec<String>) -> (r: Result<Vec<FENToken>, FENParserError>)
    ensures
        tokens_are(r, lex_fields(texts(fields@))),
        r matches Ok(found) ==> counts_fit(found@),
{
    let ghost words = texts(fields@);
    let mut tokens: Vec<FENToken> = Vec::new();
    if fields.len() < 2 {
        return Err(FENParserError::NotEnoughArguments);
    }
    let placement = characters(fields[0].as_str());
    assert(placement@ == words[0]);
    let mut i: usize = 0;
    assert(tokens@ =~= placement_tokens(placement@.take(0)));
    while i < placement.len()
        invariant
            i <= placement@.len(),
            tokens@ == placement_tokens(placement@.take(i as int)),
            counts_fit(tokens@),
        decreases placement@.len() - i,
    {
        let c = placement[i];
        let ghost before = tokens@;
        proof {
            assert(placement@.take(i + 1) =~= placement@.take(i as int).push(c));
            assert(placement@.take(i as int).push(c).drop_last() =~= placement@.take(i as int));
            assert(placement_tokens(placement@.take(i as int).push(c)) =~= before.push(
                placement_token(c),
            ));
            lemma_counts_fit_push(before, placement_token(c));
        }
        if c >= '1' && c <= '8' {
            let n: u8 = c as u8 - '0' as u8;
            tokens.push(FENToken::Empty(n));
        } else if c == '/' {
            tokens.push(FENToken::EndOfRank);
        } else {
            tokens.push(FENToken::Piece(c));
        }
        assert(tokens@ == before.push(placement_token(c)));
        i += 1;
    }
    assert(placement@.take(placement@.len() as int) =~= placement@);
    proof {
        lemma_counts_fit_push(tokens@, FENToken::EndOfBoard);
    }
    tokens.push(FENToken::EndOfBoard);

    let turn = characters(fields[1].as_str());
    assert(turn@ == words[1]);
    if turn.len() != 1 || turn[0] >= '\u{80}' {
        return Err(FENParserError::InvalidArgument(fields[1].clone()));
    }
    proof {
        lemma_counts_fit_push(tokens@, FENToken::Turn(turn@[0]));
    }
    tokens.push(FENToken::Turn(turn[0]));
    if fields.len() < 4 {
        return Err(FENParserError::NotEnoughArguments);
    }
    let ghost head = tokens@;
    assert(head =~= placement_tokens(words[0]) + seq![
        FENToken::EndOfBoard,
        turn_token(words[1][0]),
    ]);

    let castling = characters(fields[2].as_str());
    assert(castling@ == words[2]);
    let dash = castling.len() == 1 && castling[0] == '-';
    proof {
        if dash {
            assert(castling@ =~= seq!['-']);
        }
        if castling@ == seq!['-'] {
            assert(seq!['-'].len() == 1);
            assert(seq!['-'][0] == '-');
        }
    }
    if !dash {
        let mut j: usize = 0;
        assert(tokens@ =~= head + castle_letters(castling@.take(0)));
        while j < castling.len()
            invariant
                j <= castling@.len(),
                tokens@ == head + castle_letters(castling@.take(j as int)),
                counts_fit(tokens@),
            decreases castling@.len() - j,
        {
            let ghost before = tokens@;
            let c = castling[j];
            proof {
                assert(castling@.take(j + 1) =~= castling@.take(j as int).push(c));
                assert(castling@.take(j as int).push(c).drop_last() =~= castling@.take(j as int));
                assert(head + castle_letters(castling@.take(j as int).push(c)) =~= before.push(
                    FENToken::Castle(c),
                ));
                lemma_counts_fit_push(before, FENToken::Castle(c));
            }
            tokens.push(FENToken::Castle(c));
            j += 1;
        }
        assert(castling@.take(castling@.len() as int) =~= castling@);
    } else {
        assert(tokens@ =~= head + castle_tokens(castling@));
    }
    let ghost middle = tokens@;
    assert(middle == head + castle_tokens(words[2]));

    let target = characters(fields[3].as_str());
    assert(target@ == words[3]);
    let dash = target.len() == 1 && target[0] == '-';
    proof {
        if dash {
            assert(target@ =~= seq!['-']);
        }
        if target@ == seq!['-'] {
            assert(seq!['-'].len() == 1);
            assert(seq!['-'][0] == '-');
        }
    }
    if !dash {
        if target.len() != 2 || target[0] >= '\u{80}' || target[1] >= '\u{80}' {
            return Err(FENParserError::InvalidArgument(fields[3].clone()));
        }
        proof {
            lemma_counts_fit_push(tokens@, FENToken::EnPassant(target@[0], target@[1]));
        }
        tokens.push(FENToken::EnPassant(target[0], target[1]));
    }
    assert(tokens@ =~= middle + target_tokens(words[3]));

    if fields.len() < 5 {
        return Err(FENParserError::NotEnoughArguments);
    }
    let halfmove_word = characters(fields[4].as_str());
    let halfmove = match parse_number(&halfmove_word) {
        Some(n) => n,
        None => { return Err(FENParserError::InvalidArgument(fields[4].clone())); },
    };
    proof {
        lemma_counts_fit_push(tokens@, FENToken::HalfmoveClock(halfmove));
    }
    tokens.push(FENToken::HalfmoveClock(halfmove));

    if fields.len() < 6 {
        return Err(FENParserError::NotEnoughArguments);
    }
    let fullmove_word = characters(fields[5].as_str());
    let fullmove = match parse_number(&fullmove_word) {
        Some(n) => n,
        None => { return Err(FENParserError::InvalidArgument(fields[5].clone())); },
    };
    proof {
        lemma_counts_fit_push(tokens@, FENToken::FullmoveNumber(fullmove));
    }
    tokens.push(FENToken::FullmoveNumber(fullmove));
    assert(tokens@ =~= middle + target_tokens(words[3]) + seq![
        FENToken::HalfmoveClock(halfmove),
        FENToken::FullmoveNumber(fullmove),
    ]);
    Ok(tokens)
}

/// Cuts a text into tokens, or says why it cannot be cut.
pub fn lex_fen_str(fen: &str) -> (r: Result<Vec<FENToken>, FENParserError>)
    ensures
        tokens_are(r, lex(fen@)),
        r matches Ok(found) ==> counts_fit(found@),
{
    let fields = split_fields(fen);
    lex_fen_fields(&fields)
}

impl GameState {
    /// Reads the tokens into the state, from the a-file of the eighth
    /// rank on. After a fault the state holds what was read before it.
    fn parse_fen_tokens(&mut self, tokens: Vec<FENToken>) -> (r: Result<(), FENParserError>)
        requires
            counts_fit(tokens@),
        ensures
            match fold(old(self)@, tokens@) {
                Ok(state) => r is Ok && final(self)@ == state,
                Err(fault) => r matches Err(found) && found@ == fault,
            },
    {
        let mut rank: u8 = 7;
        let mut file: u8 = 0;
        let ghost start = Reading { state: self@, rank: 7, file: 0 };
        let mut i: usize = 0;
        while i < tokens.len()
            invariant
                i <= tokens@.len(),
                start == (Reading { state: old(self)@, rank: 7, file: 0 }),
                counts_fit(tokens@),
                rank <= 7,
                file <= 8,
                read_tokens(start, tokens@, i as int) == Ok::<Reading, FENParserErrorView>(
                    Reading { state: self@, rank, file },
                ),
            decreases tokens@.len() - i,
        {
            let ghost so_far = Reading { state: self@, rank, file };
            assert(read_tokens(start, tokens@, i + 1) == read_token(so_far, tokens@[i as int]));
            proof {
                if read_token(so_far, tokens@[i as int]) is Err {
                    lemma_fault_stays(start, tokens@, i + 1, tokens@.len() as int);
                }
            }
            match tokens[i] {
                FENToken::Piece(c) => {
                    if file > 7 {
                        return Err(FENParserError::InvalidFileCount(file));
                    }
                    let piece = match fen_char_to_piece(c) {
                        Some(piece) => piece,
                        None => { return Err(FENParserError::InvalidPiece(c)); },
                    };
                    assert(rank << 3 | file == rank * 8 + file) by (bit_vector)
                        requires
                            rank <= 7,
                            file <= 7,
                    ;
                    let board_squares = self.board.squares_mut();
                    board_squares[(rank << 3 | file) as usize] = Some(piece);
                    file += 1;
                },
                FENToken::Empty(n) => {
                    file += n;
                    if file > 8 {
                        return Err(FENParserError::InvalidFileCount(file));
                    }
                },
                FENToken::EndOfRank => {
                    if rank == 0 {
                        return Err(FENParserError::InvalidRankCount(9));
                    }
                    rank -= 1;
                    file = 0;
                },
                FENToken::EndOfBoard => {
                    if rank > 0 {
                        return Err(FENParserError::InvalidRankCount(8 - rank));
                    }
                },
                FENToken::Turn(c) => {
                    self.turn = match c {
                        'w' => PieceColor::White,
                        'b' => PieceColor::Black,
                        _ => { return Err(FENParserError::InvalidTurn(c)); },
                    };
                },
                FENToken::Castle(c) => match c {
                    'K' => self.castling_rights |= 0b1000,
                    'Q' => self.castling_rights |= 0b0100,
                    'k' => self.castling_rights |= 0b0010,
                    'q' => self.castling_rights |= 0b0001,
                    _ => { return Err(FENParserError::InvalidCastle(c)); },
                },
                FENToken::EnPassant(f, r) => {
                    let pos = match Position::named(f, r) {
                        Some(pos) => pos,
                        None => { return Err(FENParserError::InvalidPosition(f, r)); },
                    };
                    self.en_passant = Some(pos);
                },
                FENToken::HalfmoveClock(n) => {
                    self.halfmove_clock = n;
                },
                FENToken::FullmoveNumber(n) => {
                    self.fullmove_number = n;
                },
            }
            i += 1;
        }
        Ok(())
    }

    /// The position that the tokens of a text describe, or the first
    /// fault in them. A count of empty squares must be a digit from 1
    /// to 8, as the lexer makes it.
    pub fn from_tokens(tokens: Vec<FENToken>) -> (r: Result<Self, FENParserError>)
        requires
            counts_fit(tokens@),
        ensures
            state_is(r, fold(blank(), tokens@)),
    {
        let mut result = Self::empty();
        assert(result@.board =~= blank().board);
        match result.parse_fen_tokens(tokens) {
            Ok(()) => Ok(result),
            Err(fault) => Err(fault),
        }
    }

    /// Reads a position from its text in Forsyth-Edwards Notation.
    pub fn from_fen(fen: &str) -> (r: Result<Self, FENParserError>)
        ensures
            state_is(r, parse_fen(fen@)),
    {
        match lex_fen_str(fen) {
            Ok(tokens) => Self::from_tokens(tokens),
            Err(fault) => Err(fault),
        }
    }
}

/// Once a token has shown a fault, the tokens after it change nothing.
proof fn lemma_fault_stays(r: Reading, tokens: Seq<FENToken>, n: int, m: int)
    requires
        0 <= n <= m,
        read_tokens(r, tokens, n) is Err,
    ensures
        read_tokens(r, tokens, m) == read_tokens(r, tokens, n),
    decreases m - n,
{
    if n < m {
        lemma_fault_stays(r, tokens, n, m - 1);
    }
}

} // verus!
