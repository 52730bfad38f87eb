use crate::agreement::lemma_pseudo_legal_moves;
use crate::board::{has_king, Board, Square};
use crate::distinct::lemma_moves_distinct;
use crate::laws::lemma_playable_can_try_all;
use crate::movegen::{get_moves, prune_moves_into_check};
use crate::moves::Move;
use crate::piece::{Piece, PieceColor, PieceKind};
use crate::position::Position;
use crate::seqs::lemma_filter_holds;
use vstd::prelude::*;

verus! {

/// The two wings on which a king can castle.
#[derive(Debug, Clone, Copy, PartialEq, Eq, Structural)]
pub enum CastleSide {
    KingSide,
    QueenSide,
}

/// A position of a game: the board, the side to move, the castling
/// rights, the en-passant target, the two move counters, and the pieces
/// taken so far, in the order in which they were taken.
#[derive(PartialEq, Debug, Clone)]
pub struct GameState {
    pub board: Board,
    pub turn: PieceColor,
    pub castling_rights: u8,
    pub en_passant: Option<Position>,
    pub halfmove_clock: usize,
    pub fullmove_number: usize,
    pub captured_pieces: Vec<Piece>,
}

/// A game state as a mathematical value.
pub struct GameStateView {
    pub board: Seq<Square>,
    pub turn: PieceColor,
    pub castling_rights: u8,
    pub en_passant: Option<Position>,
    pub halfmove_clock: nat,
    pub fullmove_number: nat,
    pub captured_pieces: Seq<Piece>,
}

impl View for GameState {
    type V = GameStateView;

    open spec fn view(&self) -> GameStateView {
        GameStateView {
            board: self.board@,
            turn: self.turn,
            castling_rights: self.castling_rights,
            en_passant: self.en_passant,
            halfmove_clock: self.halfmove_clock as nat,
            fullmove_number: self.fullmove_number as nat,
            captured_pieces: self.captured_pieces@,
        }
    }
}

/// The bit of the castling rights that stands for one colour and wing.
pub open spec fn castle_mask(color: PieceColor, side: CastleSide) -> u8 {
    match (color, side) {
        (PieceColor::White, CastleSide::KingSide) => 0b1000,
        (PieceColor::White, CastleSide::QueenSide) => 0b0100,
        (PieceColor::Black, CastleSide::KingSide) => 0b0010,
        (PieceColor::Black, CastleSide::QueenSide) => 0b0001,
    }
}

/// The rank on which the king and the rooks of a colour start.
pub open spec fn home_rank(color: PieceColor) -> u8 {
    match color {
        PieceColor::White => 0,
        PieceColor::Black => 7,
    }
}

/// The rights that are left of `rights` once a piece has left the square
/// `position`, or has been taken there: a rook on a corner of its home
/// rank gives up the right of that wing, a king both rights of its
/// colour, any other piece nothing.
pub open spec fn rights_after_leaving(rights: u8, position: Position, piece: Piece) -> u8 {
    match piece.kind {
        PieceKind::Rook => if position.spec_rank() == home_rank(piece.color)
            && position.spec_file() == 0 {
            rights & !castle_mask(piece.color, CastleSide::QueenSide)
        } else if position.spec_rank() == home_rank(piece.color) && position.spec_file() == 7 {
            rights & !castle_mask(piece.color, CastleSide::KingSide)
        } else {
            rights
        },
        PieceKind::King => rights & !castle_mask(piece.color, CastleSide::KingSide) & !castle_mask(
            piece.color,
            CastleSide::QueenSide,
        ),
        _ => rights,
    }
}

/// The kinds of the pieces of a back rank, from the a-file to the h-file.
pub const BACK_RANK: [PieceKind; 8] = [
    PieceKind::Rook,
    PieceKind::Knight,
    PieceKind::Bishop,
    PieceKind::Queen,
    PieceKind::King,
    PieceKind::Bishop,
    PieceKind::Knight,
    PieceKind::Rook,
];

/// What stands on a square at the start of a game.
pub open spec fn start_square(i: int) -> Square {
    if 0 <= i < 8 {
        Some(Piece { kind: BACK_RANK@[i], color: PieceColor::White })
    } else if 8 <= i < 16 {
        Some(Piece { kind: PieceKind::Pawn, color: PieceColor::White })
    } else if 48 <= i < 56 {
        Some(Piece { kind: PieceKind::Pawn, color: PieceColor::Black })
    } else if 56 <= i < 64 {
        Some(Piece { kind: BACK_RANK@[i - 56], color: PieceColor::Black })
    } else {
        None
    }
}

/// The state at the start of a game: the pieces on their home squares,
/// White to move, all four castling rights, no en-passant target, the
/// halfmove clock at 0 and the fullmove number at 1.
pub open spec fn start_position() -> GameStateView {
    GameStateView {
        board: Seq::new(64, |i: int| start_square(i)),
        turn: PieceColor::White,
        castling_rights: 0b1111,
        en_passant: None,
        halfmove_clock: 0,
        fullmove_number: 1,
        captured_pieces: Seq::empty(),
    }
}

impl GameStateView {
    /// The board has its 64 squares.
    pub open spec fn well_formed(self) -> bool {
        self.board.len() == 64
    }

    /// The right to castle on one wing has not been given up.
    pub open spec fn has_right(self, color: PieceColor, side: CastleSide) -> bool {
        self.castling_rights & castle_mask(color, side) != 0
    }

    /// The move finds the pieces on the board that applying it reads: one
    /// on the square it starts from, for an en-passant capture one on the
    /// captured square once the pawn has moved, and for castling one on
    /// the rook's square.
    pub open spec fn finds_pieces(self, m: Move) -> bool {
        &&& m.on_board()
        &&& self.board[m.spec_from().index()] is Some
        &&& match m {
            Move::EnPassant { from, to, captured } => self.board.update(from.index(), None).update(
                to.index(),
                self.board[from.index()],
            )[captured.index()] is Some,
            Move::Castle { rook_from, .. } => self.board[rook_from.index()] is Some,
            _ => true,
        }
    }

    /// The move is a capture or moves a pawn, so that the halfmove clock
    /// starts again at 0.
    pub open spec fn resets_clock(self, m: Move) -> bool {
        match m {
            Move::Normal { from, .. } => self.board[from.index()] matches Some(piece)
                && piece.kind == PieceKind::Pawn,
            Move::Castle { .. } => false,
            _ => true,
        }
    }

    /// The board once the move has been made.
    pub open spec fn board_after(self, m: Move) -> Seq<Square> {
        let moving = self.board[m.spec_from().index()];
        match m {
            Move::Normal { from, to } => self.board.update(from.index(), None).update(
                to.index(),
                moving,
            ),
            Move::Capture { from, to, .. } => self.board.update(from.index(), None).update(
                to.index(),
                moving,
            ),
            Move::DoublePawnPush { from, to, .. } => self.board.update(from.index(), None).update(
                to.index(),
                moving,
            ),
            Move::EnPassant { from, to, captured } => self.board.update(from.index(), None).update(
                to.index(),
                moving,
            ).update(captured.index(), None),
            Move::Promotion { from, to, promoted } => self.board.update(from.index(), None).update(
                to.index(),
                Some(promoted),
            ),
            Move::PromotionCapture { from, to, promoted, .. } => self.board.update(
                from.index(),
                None,
            ).update(to.index(), Some(promoted)),
            Move::Castle { from, to, rook_from, rook_to } => self.board.update(
                from.index(),
                None,
            ).update(to.index(), moving).update(rook_from.index(), None).update(
                rook_to.index(),
                self.board[rook_from.index()],
            ),
        }
    }

    /// The castling rights once the move has been made.
    pub open spec fn rights_after(self, m: Move) -> u8 {
        let moving = self.board[m.spec_from().index()]->0;
        match m {
            Move::Normal { from, .. } => rights_after_leaving(self.castling_rights, from, moving),
            Move::Capture { from, to, captured } => rights_after_leaving(
                rights_after_leaving(self.castling_rights, from, moving),
                to,
                captured,
            ),
            Move::PromotionCapture { to, captured, .. } => rights_after_leaving(
                self.castling_rights,
                to,
                captured,
            ),
            Move::Castle { .. } => self.castling_rights & !castle_mask(
                moving.color,
                CastleSide::KingSide,
            ) & !castle_mask(moving.color, CastleSide::QueenSide),
            _ => self.castling_rights,
        }
    }

    /// The pieces taken so far once the move has been made.
    pub open spec fn captured_after(self, m: Move) -> Seq<Piece> {
        match m {
            Move::Capture { captured, .. } => self.captured_pieces.push(captured),
            Move::PromotionCapture { captured, .. } => self.captured_pieces.push(captured),
            Move::EnPassant { from, to, captured } => self.captured_pieces.push(
                self.board.update(from.index(), None).update(to.index(), self.board[from.index()])[
                    captured.index()]->0,
            ),
            _ => self.captured_pieces,
        }
    }

    /// The state once the move has been made. The side to move and the
    /// fullmove number stay as they are.
    pub open spec fn next(self, m: Move) -> GameStateView {
        GameStateView {
            board: self.board_after(m),
            turn: self.turn,
            castling_rights: self.rights_after(m),
            en_passant: match m {
                Move::DoublePawnPush { en_passant, .. } => Some(en_passant),
                _ => None,
            },
            halfmove_clock: if self.resets_clock(m) {
                0
            } else {
                self.halfmove_clock + 1
            },
            fullmove_number: self.fullmove_number,
            captured_pieces: self.captured_after(m),
        }
    }
}

impl GameState {
    /// The state with an empty board, White to move, no castling rights
    /// and no en-passant target, at move 1.
    pub fn empty() -> (r: Self)
        ensures
            forall|i: int| 0 <= i < 64 ==> r@.board[i] is None,
            r@.turn == PieceColor::White,
            r@.castling_rights == 0,
            r@.en_passant is None,
            r@.halfmove_clock == 0,
            r@.fullmove_number == 1,
            r@.captured_pieces == Seq::<Piece>::empty(),
    {
        Self {
            board: Board::empty(),
            turn: PieceColor::White,
            castling_rights: 0b0000,
            en_passant: None,
            halfmove_clock: 0,
            fullmove_number: 1,
            captured_pieces: Vec::new(),
        }
    }

    /// The state with the given fields and no piece taken yet.
    pub fn new(
        board: Board,
        turn: PieceColor,
        castling_rights: u8,
        en_passant: Option<Position>,
        halfmove_clock: usize,
        fullmove_number: usize,
    ) -> (r: Self)
        ensures
            r@ == (GameStateView {
                board: board@,
                turn,
                castling_rights,
                en_passant,
                halfmove_clock: halfmove_clock as nat,
                fullmove_number: fullmove_number as nat,
                captured_pieces: Seq::<Piece>::empty(),
            }),
    {
        Self {
            board,
            turn,
            castling_rights,
            en_passant,
            halfmove_clock,
            fullmove_number,
            captured_pieces: Vec::new(),
        }
    }

    /// The state at the start of a game.
    pub fn default() -> (r: Self)
        ensures
            r@ == start_position(),
    {
        let mut board = Board::empty();
        let mut file: u8 = 0;
        while file < 8
            invariant
                file <= 8,
                forall|i: int|
                    0 <= i < 64 ==> board@[i] == if i % 8 < file {
                        start_square(i)
                    } else {
                        None
                    },
            decreases 8 - file,
        {
            let kind = BACK_RANK[file as usize];
            board.set(Position::new(0, file), Some(Piece::new(kind, PieceColor::White)));
            board.set(Position::new(1, file), Some(Piece::new(PieceKind::Pawn, PieceColor::White)));
            board.set(Position::new(6, file), Some(Piece::new(PieceKind::Pawn, PieceColor::Black)));
            board.set(Position::new(7, file), Some(Piece::new(kind, PieceColor::Black)));
            file += 1;
        }
        let r = Self::new(board, PieceColor::White, 0b1111, None, 0, 1);
        assert(r@.board =~= start_position().board);
        r
    }

    /// The bit of the castling rights that stands for one colour and wing.
    fn mask(color: PieceColor, side: CastleSide) -> (r: u8)
        ensures
            r == castle_mask(color, side),
    {
        match (color, side) {
            (PieceColor::White, CastleSide::KingSide) => 0b1000,
            (PieceColor::White, CastleSide::QueenSide) => 0b0100,
            (PieceColor::Black, CastleSide::KingSide) => 0b0010,
            (PieceColor::Black, CastleSide::QueenSide) => 0b0001,
        }
    }

    /// Whether the right to castle on one wing has not been given up.
    pub fn can_castle(&self, color: PieceColor, side: CastleSide) -> (r: bool)
        ensures
            r == self@.has_right(color, side),
    {
        let mask = Self::mask(color, side);
        self.castling_rights & mask != 0
    }

    /// Gives up the right to castle on one wing; the other three rights
    /// and every other field stay as they are.
    pub fn unset_castle(&mut self, color: PieceColor, side: CastleSide)
        ensures
            final(self)@ == (GameStateView {
                castling_rights: old(self)@.castling_rights & !castle_mask(color, side),
                ..old(self)@
            }),
            !final(self)@.has_right(color, side),
            forall|c: PieceColor, s: CastleSide|
                (c != color || s != side) ==> final(self)@.has_right(c, s) == old(self)@.has_right(
                    c,
                    s,
                ),
    {
        let mask = Self::mask(color, side);
        let ghost before = self.castling_rights;
        self.castling_rights &= !mask;
        proof {
            let after = self.castling_rights;
            assert(after & mask == 0) by (bit_vector)
                requires
                    after == before & !mask,
            ;
            assert forall|c: PieceColor, s: CastleSide| (c != color || s != side) implies self@.has_right(
                c,
                s,
            ) == old(self)@.has_right(c, s) by {
                let other = castle_mask(c, s);
                assert(other & mask == 0) by (bit_vector)
                    requires
                        other == 1 || other == 2 || other == 4 || other == 8,
                        mask == 1 || mask == 2 || mask == 4 || mask == 8,
                        other != mask,
                ;
                assert(after & other == before & other) by (bit_vector)
                    requires
                        after == before & !mask,
                        other & mask == 0,
                ;
            }
        }
    }

    /// Whether fifty moves of each side have passed without a capture or
    /// a pawn move, so that the game can be claimed as drawn.
    pub fn is_50_move_rule(&self) -> (r: bool)
        ensures
            r <==> self@.halfmove_clock >= 100,
    {
        self.halfmove_clock >= 100
    }

    /// Gives up the rights that end when `piece` leaves `position` or is
    /// taken there.
    fn check_castle_rights_waived(&mut self, pos: Position, piece: Piece)
        ensures
            final(self)@ == (GameStateView {
                castling_rights: rights_after_leaving(old(self)@.castling_rights, pos, piece),
                ..old(self)@
            }),
    {
        let home: u8 = match piece.color() {
            PieceColor::White => 0,
            PieceColor::Black => 7,
        };
        match piece.kind() {
            PieceKind::Rook => {
                if pos.rank() == home && pos.file() == 0 {
                    self.unset_castle(piece.color(), CastleSide::QueenSide);
                } else if pos.rank() == home && pos.file() == 7 {
                    self.unset_castle(piece.color(), CastleSide::KingSide);
                }
            },
            PieceKind::King => {
                self.unset_castle(piece.color(), CastleSide::KingSide);
                self.unset_castle(piece.color(), CastleSide::QueenSide);
            },
            _ => (),
        }
    }

    /// Makes the move: the one operation that changes a state.
    ///
    /// The halfmove clock goes up by one, or back to 0 on a capture or a
    /// pawn move; the en-passant target is cleared, and set anew by a
    /// double pawn push; a captured piece leaves the board and joins the
    /// pieces taken; a promoted pawn is replaced; castling moves king and
    /// rook; and the castling rights that the move ends are given up.
    pub fn apply_move(&mut self, m: Move)
        requires
            old(self)@.finds_pieces(m),
            old(self)@.resets_clock(m) || old(self).halfmove_clock < usize::MAX,
        ensures
            final(self)@ == old(self)@.next(m),
    {
        let clock = self.halfmove_clock;
        self.en_passant = None;

        match m {
            Move::Normal { from, to } => {
                let piece = self.board.get(from).unwrap();
                self.board.set(from, None);
                self.board.set(to, Some(piece));
                if piece.kind() == PieceKind::Pawn {
                    self.halfmove_clock = 0;
                } else {
                    self.halfmove_clock = clock + 1;
                }
                self.check_castle_rights_waived(from, piece);
            },
            Move::Capture { from, to, captured } => {
                let piece = self.board.get(from).unwrap();
                self.board.set(from, None);
                self.board.set(to, Some(piece));
                self.captured_pieces.push(captured);
                self.halfmove_clock = 0;
                self.check_castle_rights_waived(from, piece);
                self.check_castle_rights_waived(to, captured);
            },
            Move::Promotion { from, to, promoted } => {
                self.board.set(from, None);
                self.board.set(to, Some(promoted));
                self.halfmove_clock = 0;
            },
            Move::PromotionCapture { from, to, captured, promoted } => {
                self.board.set(from, None);
                self.board.set(to, Some(promoted));
                self.captured_pieces.push(captured);
                self.halfmove_clock = 0;
                self.check_castle_rights_waived(to, captured);
            },
            Move::EnPassant { from, to, captured } => {
                let piece = self.board.get(from).unwrap();
                self.board.set(from, None);
                self.board.set(to, Some(piece));
                let captured_pawn = self.board.get(captured).unwrap();
                self.captured_pieces.push(captured_pawn);
                self.board.set(captured, None);
                self.halfmove_clock = 0;
            },
            Move::DoublePawnPush { from, to, en_passant } => {
                let piece = self.board.get(from).unwrap();
                self.board.set(from, None);
                self.board.set(to, Some(piece));
                self.halfmove_clock = 0;
                self.en_passant = Some(en_passant);
            },
            Move::Castle { from, to, rook_from, rook_to } => {
                let king = self.board.get(from).unwrap();
                let rook = self.board.get(rook_from).unwrap();
                self.board.set(from, None);
                self.board.set(to, Some(king));
                self.board.set(rook_from, None);
                self.board.set(rook_to, Some(rook));
                self.halfmove_clock = clock + 1;
                self.unset_castle(king.color(), CastleSide::KingSide);
                self.unset_castle(king.color(), CastleSide::QueenSide);
            },
        }
    }

    /// Whether some pseudo-legal move of `by` ends on `target`.
    pub(crate) fn is_attacked(&self, by: PieceColor, target: Position) -> (r: bool)
        ensures
            r == self@.attacked(by, target),
    {
        let moves = get_moves(self, by);
        let mut found = false;
        let mut i: usize = 0;
        while i < moves.len()
            invariant
                i <= moves@.len(),
                found <==> exists|j: int| 0 <= j < i && (#[trigger] moves@[j]).spec_to() == target,
            decreases moves@.len() - i,
        {
            if moves[i].to() == target {
                found = true;
            }
            i += 1;
        }
        proof {
            if found {
                let j = choose|j: int| 0 <= j < i && (#[trigger] moves@[j]).spec_to() == target;
                assert(moves@.contains(moves@[j]));
                assert(self@.pseudo_legal(by, moves@[j]));
            }
            if self@.attacked(by, target) {
                let m = choose|m: Move|
                    #[trigger] self@.pseudo_legal(by, m) && m.spec_to() == target;
                assert(moves@.contains(m));
                let j = choose|j: int| 0 <= j < moves@.len() && moves@[j] == m;
                assert(moves@[j].spec_to() == target);
            }
        }
        found
    }

    /// Whether the king of the side to move is attacked. The side to
    /// move must have a king.
    pub fn is_in_check(&self) -> (r: bool)
        requires
            has_king(self@.board, self@.turn),
        ensures
            r == self@.in_check(),
    {
        let king_pos = self.board.find_king(self.turn).unwrap();
        let enemy_color = self.turn.opposite();
        self.is_attacked(enemy_color, king_pos)
    }

    /// Whether `square` holds the piece of the given kind and colour.
    fn holds(square: Square, kind: PieceKind, color: PieceColor) -> (r: bool)
        ensures
            r == (square == Some(Piece { kind, color })),
    {
        match square {
            Some(piece) => piece.kind() == kind && piece.color() == color,
            None => false,
        }
    }

    /// Whether a game can be played from the position: the side to move
    /// has its king, an enemy pawn stands behind the en-passant target,
    /// and king and rook stand at home where the side to move holds a
    /// castling right. The legal moves of such a position can be asked
    /// for.
    pub fn is_playable(&self) -> (r: bool)
        ensures
            r == self@.playable(),
            r ==> self@.can_try_all() && has_king(self@.board, self@.turn),
    {
        if self.board.find_king(self.turn).is_none() {
            return false;
        }
        let (home, back): (u8, u8) = match self.turn {
            PieceColor::White => (0, 7),
            PieceColor::Black => (7, 0),
        };
        if let Some(target) = self.en_passant {
            proof {
                use_type_invariant(target);
                target.lemma_on_board();
            }
            if target.rank() == home {
                return false;
            }
            let behind = match self.turn {
                PieceColor::White => target.rank() - 1,
                PieceColor::Black => target.rank() + 1,
            };
            let square = self.board.get(Position::new(behind, target.file()));
            if !Self::holds(square, PieceKind::Pawn, self.turn.opposite()) {
                return false;
            }
        }
        let king = Self::holds(
            self.board.get(Position::new(home, 4)),
            PieceKind::King,
            self.turn,
        );
        if self.can_castle(self.turn, CastleSide::KingSide) {
            let rook = self.board.get(Position::new(home, 7));
            if !king || !Self::holds(rook, PieceKind::Rook, self.turn) {
                return false;
            }
        }
        if self.can_castle(self.turn, CastleSide::QueenSide) {
            let rook = self.board.get(Position::new(home, 0));
            if !king || !Self::holds(rook, PieceKind::Rook, self.turn) {
                return false;
            }
        }
        proof {
            lemma_playable_can_try_all(self@);
        }
        true
    }

    /// The legal moves of the side to move, none of them twice.
    pub fn legal_moves(&self) -> (moves: Vec<Move>)
        requires
            self@.can_try_all(),
        ensures
            moves@ == self@.legal_moves(),
            forall|m: Move| moves@.contains(m) <==> self@.legal(m),
            moves@.no_duplicates(),
    {
        let moves = get_moves(self, self.turn);
        proof {
            lemma_moves_distinct(self@, self@.turn);
            assert forall|i: int| 0 <= i < moves@.len() implies self@.can_try(
                #[trigger] moves@[i],
            ) by {
                assert(moves@.contains(moves@[i]));
            }
        }
        prune_moves_into_check(moves, self)
    }

    /// Whether the side to move is in check and has no legal move.
    pub fn is_checkmate(&self) -> (r: bool)
        requires
            has_king(self@.board, self@.turn),
            self@.can_try_all(),
        ensures
            r <==> self@.in_check() && forall|m: Move| !self@.legal(m),
    {
        let r = self.is_in_check() && self.legal_moves().is_empty();
        proof {
            let moves = self@.legal_moves();
            if moves.len() > 0 {
                assert(moves.contains(moves[0]));
            }
            if exists|m: Move| self@.legal(m) {
                let m = choose|m: Move| self@.legal(m);
                lemma_filter_holds(self@.pseudo_legal_moves(self@.turn), self@.safe(), m);
                lemma_pseudo_legal_moves(self@, self@.turn, m);
                assert(moves.contains(m));
            }
        }
        r
    }

    /// Whether the side to move is not in check and has no legal move.
    pub fn is_stalemate(&self) -> (r: bool)
        requires
            has_king(self@.board, self@.turn),
            self@.can_try_all(),
        ensures
            r <==> !self@.in_check() && forall|m: Move| !self@.legal(m),
    {
        let r = !self.is_in_check() && self.legal_moves().is_empty();
        proof {
            let moves = self@.legal_moves();
            if moves.len() > 0 {
                assert(moves.contains(moves[0]));
            }
            if exists|m: Move| self@.legal(m) {
                let m = choose|m: Move| self@.legal(m);
                lemma_filter_holds(self@.pseudo_legal_moves(self@.turn), self@.safe(), m);
                lemma_pseudo_legal_moves(self@, self@.turn, m);
                assert(moves.contains(m));
            }
        }
        r
    }
}

} // verus!
