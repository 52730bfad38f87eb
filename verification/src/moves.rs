use crate::piece::{Piece, PieceColor};
use crate::position::Position;
use vstd::prelude::*;

verus! {

/// A move, as a record that can be replayed on the position it was made
/// for: each kind carries what is needed to apply it, and nothing refers
/// back to a game state.
#[allow(inconsistent_fields)]
#[derive(Debug, Clone, Copy, PartialEq, Eq, Structural)]
pub enum Move {
    /// A piece goes to an empty square.
    Normal { from: Position, to: Position },
    /// A piece takes the piece `captured` that stands on `to`.
    Capture { from: Position, to: Position, captured: Piece },
    /// A pawn goes to the en-passant target `to` and takes the pawn that
    /// stands on `captured`, which is not `to`.
    EnPassant { from: Position, to: Position, captured: Position },
    /// A pawn goes two squares forward, over `en_passant`.
    DoublePawnPush { from: Position, to: Position, en_passant: Position },
    /// A pawn reaches the last rank and becomes `promoted`.
    Promotion { from: Position, to: Position, promoted: Piece },
    /// A pawn takes `captured` on the last rank and becomes `promoted`.
    PromotionCapture { from: Position, to: Position, captured: Piece, promoted: Piece },
    /// The king goes from `from` to `to` and the rook from `rook_from` to
    /// `rook_to`.
    Castle { from: Position, to: Position, rook_from: Position, rook_to: Position },
}

impl Move {
    pub open spec fn spec_from(&self) -> Position {
        match *self {
            Move::Normal { from, .. } => from,
            Move::Capture { from, .. } => from,
            Move::EnPassant { from, .. } => from,
            Move::DoublePawnPush { from, .. } => from,
            Move::Promotion { from, .. } => from,
            Move::PromotionCapture { from, .. } => from,
            Move::Castle { from, .. } => from,
        }
    }

    pub open spec fn spec_to(&self) -> Position {
        match *self {
            Move::Normal { to, .. } => to,
            Move::Capture { to, .. } => to,
            Move::EnPassant { to, .. } => to,
            Move::DoublePawnPush { to, .. } => to,
            Move::Promotion { to, .. } => to,
            Move::PromotionCapture { to, .. } => to,
            Move::Castle { to, .. } => to,
        }
    }

    /// Every square that the move names lies on the board.
    pub open spec fn on_board(self) -> bool {
        &&& self.spec_from().on_board()
        &&& self.spec_to().on_board()
        &&& match self {
            Move::EnPassant { captured, .. } => captured.on_board(),
            Move::DoublePawnPush { en_passant, .. } => en_passant.on_board(),
            Move::Castle { rook_from, rook_to, .. } => rook_from.on_board() && rook_to.on_board(),
            _ => true,
        }
    }

    /// The square that the moving piece leaves.
    #[verifier::when_used_as_spec(spec_from)]
    pub fn from(&self) -> (r: Position)
        ensures
            r == self.spec_from(),
    {
        match self {
            Move::Normal { from, .. } => *from,
            Move::Capture { from, .. } => *from,
            Move::EnPassant { from, .. } => *from,
            Move::DoublePawnPush { from, .. } => *from,
            Move::Promotion { from, .. } => *from,
            Move::PromotionCapture { from, .. } => *from,
            Move::Castle { from, .. } => *from,
        }
    }

    /// The square that the moving piece goes to.
    #[verifier::when_used_as_spec(spec_to)]
    pub fn to(&self) -> (r: Position)
        ensures
            r == self.spec_to(),
    {
        match self {
            Move::Normal { to, .. } => *to,
            Move::Capture { to, .. } => *to,
            Move::EnPassant { to, .. } => *to,
            Move::DoublePawnPush { to, .. } => *to,
            Move::Promotion { to, .. } => *to,
            Move::PromotionCapture { to, .. } => *to,
            Move::Castle { to, .. } => *to,
        }
    }
}

/// How the pawns of one colour move: where they start, where they
/// promote, and the change of index of a push and of a double push.
pub struct PawnMoveInfo {
    pub color: PieceColor,
    pub start_rank: u8,
    pub promotion_rank: u8,
    pub push_offset: i8,
    pub double_push_offset: i8,
}

impl PawnMoveInfo {
    /// How the pawns of `color` move: White's start on rank 1 and go up
    /// the board, Black's start on rank 6 and go down.
    pub open spec fn standard(color: PieceColor) -> PawnMoveInfo {
        match color {
            PieceColor::White => PawnMoveInfo {
                color: PieceColor::White,
                start_rank: 1,
                promotion_rank: 7,
                push_offset: 8,
                double_push_offset: 16,
            },
            PieceColor::Black => PawnMoveInfo {
                color: PieceColor::Black,
                start_rank: 6,
                promotion_rank: 0,
                push_offset: -8i8,
                double_push_offset: -16i8,
            },
        }
    }

    pub fn new(color: PieceColor) -> (r: Self)
        ensures
            r == Self::standard(color),
    {
        match color {
            PieceColor::White => Self {
                color: PieceColor::White,
                start_rank: 1,
                promotion_rank: 7,
                push_offset: 8,
                double_push_offset: 16,
            },
            PieceColor::Black => Self {
                color: PieceColor::Black,
                start_rank: 6,
                promotion_rank: 0,
                push_offset: -8,
                double_push_offset: -16,
            },
        }
    }

    /// The square whose index is that of `position` changed by `offset`.
    fn shifted(position: Position, offset: i16) -> (r: Position)
        requires
            0 <= position.index() + offset < 64,
        ensures
            r == Position::of_index(position.index() + offset),
            r.index() == position.index() + offset,
            r.on_board(),
    {
        proof {
            use_type_invariant(position);
        }
        let index: i16 = u8::from(position) as i16 + offset;
        Position::from_index(index as usize)
    }

    /// The square one push ahead of `position`.
    #[inline]
    pub fn push(&self, position: Position) -> (r: Position)
        requires
            0 <= position.index() + self.push_offset < 64,
        ensures
            r.index() == position.index() + self.push_offset,
            r.on_board(),
    {
        Self::shifted(position, self.push_offset as i16)
    }

    /// The square a double push ahead of `position`.
    #[inline]
    pub fn double_push(&self, position: Position) -> (r: Position)
        requires
            0 <= position.index() + self.double_push_offset < 64,
        ensures
            r.index() == position.index() + self.double_push_offset,
            r.on_board(),
    {
        Self::shifted(position, self.double_push_offset as i16)
    }

    /// The square one push ahead of `position` and one index lower: for
    /// a pawn off the a-file, the square it captures on toward the
    /// a-file.
    #[inline]
    pub fn left_capture(&self, position: Position) -> (r: Position)
        requires
            0 <= position.index() + self.push_offset - 1 < 64,
        ensures
            r.index() == position.index() + self.push_offset - 1,
            r.on_board(),
    {
        Self::shifted(position, self.push_offset as i16 - 1)
    }

    /// The square one push ahead of `position` and one index higher: for
    /// a pawn off the h-file, the square it captures on toward the
    /// h-file.
    #[inline]
    pub fn right_capture(&self, position: Position) -> (r: Position)
        requires
            0 <= position.index() + self.push_offset + 1 < 64,
        ensures
            r.index() == position.index() + self.push_offset + 1,
            r.on_board(),
    {
        Self::shifted(position, self.push_offset as i16 + 1)
    }

    /// The square one index below `position`: for a pawn off the a-file,
    /// the square of the pawn it takes en passant toward the a-file.
    #[inline]
    pub fn left_en_passant(&self, position: Position) -> (r: Position)
        requires
            position.index() >= 1,
        ensures
            r.index() == position.index() - 1,
            r.on_board(),
    {
        proof {
            use_type_invariant(position);
        }
        Self::shifted(position, -1)
    }

    /// The square one index above `position`: for a pawn off the h-file,
    /// the square of the pawn it takes en passant toward the h-file.
    #[inline]
    pub fn right_en_passant(&self, position: Position) -> (r: Position)
        requires
            position.index() < 63,
        ensures
            r.index() == position.index() + 1,
            r.on_board(),
    {
        Self::shifted(position, 1)
    }
}

} // verus!
