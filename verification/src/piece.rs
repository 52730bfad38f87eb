use vstd::prelude::*;

verus! {

/// What a piece is, apart from its colour.
#[derive(Debug, Clone, Copy, PartialEq, Eq, Structural)]
pub enum PieceKind {
    Pawn,
    Knight,
    Bishop,
    Rook,
    Queen,
    King,
}

/// The two sides of a game.
#[derive(Debug, Clone, Copy, PartialEq, Eq, Structural)]
pub enum PieceColor {
    Black,
    White,
}

impl PieceColor {
    /// The other side.
    pub open spec fn other(&self) -> PieceColor {
        match *self {
            PieceColor::Black => PieceColor::White,
            PieceColor::White => PieceColor::Black,
        }
    }

    /// The other side.
    #[verifier::when_used_as_spec(other)]
    pub fn opposite(&self) -> (r: Self)
        ensures
            r == self.other(),
    {
        match self {
            Self::Black => Self::White,
            Self::White => Self::Black,
        }
    }
}

/// A piece: a kind and a colour, with no identity beyond the two.
#[derive(Debug, Clone, Copy, PartialEq, Eq, Structural)]
pub struct Piece {
    pub kind: PieceKind,
    pub color: PieceColor,
}

impl Piece {
    pub fn new(kind: PieceKind, color: PieceColor) -> (r: Self)
        ensures
            r == (Piece { kind, color }),
    {
        Self { kind, color }
    }

    pub fn kind(&self) -> (r: PieceKind)
        ensures
            r == self.kind,
    {
        self.kind
    }

    pub fn color(&self) -> (r: PieceColor)
        ensures
            r == self.color,
    {
        self.color
    }
}

} // verus!
