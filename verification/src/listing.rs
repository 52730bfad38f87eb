//! The moves of a position as lists, in the order in which the generator
//! finds them: square by square from the lowest index up, the moves of
//! each piece in the order of its table of directions, castling last.

use crate::board::Square;
use crate::moves::Move;
use crate::piece::{Piece, PieceColor, PieceKind};
use crate::position::Position;
use crate::rules::{castle_of, forward, on_grid, pawn_promotion_rank, pawn_start_rank, steps};
use crate::state::{CastleSide, GameStateView};
use vstd::prelude::*;

verus! {

/// The jumps of a knight, as changes of rank and file.
pub const KNIGHT_JUMPS: [(i8, i8); 8] = [
    (-2, -1),
    (-2, 1),
    (-1, -2),
    (-1, 2),
    (2, -1),
    (2, 1),
    (1, -2),
    (1, 2),
];

/// The steps of a king, as changes of rank and file.
pub const KING_STEPS: [(i8, i8); 8] = [
    (-1, -1),
    (1, -1),
    (0, -1),
    (-1, 1),
    (1, 1),
    (0, 1),
    (-1, 0),
    (1, 0),
];

/// The directions of a bishop, as changes of rank and file.
pub const BISHOP_DIRECTIONS: [(i8, i8); 4] = [(-1, -1), (-1, 1), (1, -1), (1, 1)];

/// The directions of a rook, as changes of rank and file.
pub const ROOK_DIRECTIONS: [(i8, i8); 4] = [(1, 0), (-1, 0), (0, 1), (0, -1)];

/// The move of a piece of `color` from `from` to `to`, if there is one:
/// a normal move onto an empty square, the capture of an enemy.
pub open spec fn landing(board: Seq<Square>, color: PieceColor, from: Position, to: Position) -> Seq<
    Move,
> {
    match board[to.index()] {
        None => seq![Move::Normal { from, to }],
        Some(piece) => if piece.color != color {
            seq![Move::Capture { from, to, captured: piece }]
        } else {
            Seq::empty()
        },
    }
}

/// The move of a piece that leaps by `(dr, df)`, if the square is on the
/// board and there is a move to it.
pub open spec fn hop(board: Seq<Square>, color: PieceColor, from: Position, dr: int, df: int) -> Seq<
    Move,
> {
    if on_grid(from.spec_rank() + dr, from.spec_file() + df) {
        landing(board, color, from, Position::at(from.spec_rank() + dr, from.spec_file() + df))
    } else {
        Seq::empty()
    }
}

/// The moves of a piece that slides in the direction `(dr, df)`, from the
/// `k`-th square of the ray on: the ray ends at the edge of the board, or
/// on the first piece in its way, which is taken if it is an enemy.
pub open spec fn ray(
    board: Seq<Square>,
    color: PieceColor,
    from: Position,
    dr: int,
    df: int,
    k: int,
) -> Seq<Move>
    decreases 8 - k,
{
    let rank = from.spec_rank() + steps(dr, k);
    let file = from.spec_file() + steps(df, k);
    if k < 1 || k > 7 || !on_grid(rank, file) {
        Seq::empty()
    } else if board[rank * 8 + file] is Some {
        landing(board, color, from, Position::at(rank, file))
    } else {
        seq![Move::Normal { from, to: Position::at(rank, file) }] + ray(
            board,
            color,
            from,
            dr,
            df,
            k + 1,
        )
    }
}

/// The moves of a piece along one entry of its table: a leap, or a whole
/// ray for a piece that slides.
pub open spec fn along(
    board: Seq<Square>,
    color: PieceColor,
    from: Position,
    sliding: bool,
    entry: (i8, i8),
) -> Seq<Move> {
    if sliding {
        ray(board, color, from, entry.0 as int, entry.1 as int, 1)
    } else {
        hop(board, color, from, entry.0 as int, entry.1 as int)
    }
}

/// The moves of a piece along the first `n` entries of its table.
pub open spec fn sweep(
    board: Seq<Square>,
    color: PieceColor,
    from: Position,
    sliding: bool,
    table: Seq<(i8, i8)>,
    n: int,
) -> Seq<Move>
    decreases n,
{
    if n <= 0 {
        Seq::empty()
    } else {
        sweep(board, color, from, sliding, table, n - 1) + along(
            board,
            color,
            from,
            sliding,
            table[n - 1],
        )
    }
}

/// The four promotions of a pawn that arrives on `to`.
pub open spec fn promotions(from: Position, to: Position, color: PieceColor) -> Seq<Move> {
    seq![
        Move::Promotion { from, to, promoted: Piece { kind: PieceKind::Queen, color } },
        Move::Promotion { from, to, promoted: Piece { kind: PieceKind::Rook, color } },
        Move::Promotion { from, to, promoted: Piece { kind: PieceKind::Bishop, color } },
        Move::Promotion { from, to, promoted: Piece { kind: PieceKind::Knight, color } },
    ]
}

/// The four promotions of a pawn that takes `captured` on `to`.
pub open spec fn promotion_captures(
    from: Position,
    to: Position,
    captured: Piece,
    color: PieceColor,
) -> Seq<Move> {
    seq![
        Move::PromotionCapture {
            from,
            to,
            captured,
            promoted: Piece { kind: PieceKind::Queen, color },
        },
        Move::PromotionCapture {
            from,
            to,
            captured,
            promoted: Piece { kind: PieceKind::Rook, color },
        },
        Move::PromotionCapture {
            from,
            to,
            captured,
            promoted: Piece { kind: PieceKind::Bishop, color },
        },
        Move::PromotionCapture {
            from,
            to,
            captured,
            promoted: Piece { kind: PieceKind::Knight, color },
        },
    ]
}

/// The double push of a pawn, if it stands on its start rank and the
/// square two ahead is empty. The square ahead is taken to be empty.
pub open spec fn double_push(board: Seq<Square>, color: PieceColor, from: Position) -> Seq<Move> {
    let rank = from.spec_rank() + forward(color);
    let file = from.spec_file() as int;
    if from.spec_rank() == pawn_start_rank(color) && board[(rank + forward(color)) * 8
        + file] is None {
        seq![
            Move::DoublePawnPush {
                from,
                to: Position::at(rank + forward(color), file),
                en_passant: Position::at(rank, file),
            },
        ]
    } else {
        Seq::empty()
    }
}

/// The pushes of a pawn: none if the square ahead is off the board or
/// taken; else the double push, if there is one, and then the single
/// push, or the four promotions in its place.
pub open spec fn pawn_pushes(board: Seq<Square>, color: PieceColor, from: Position) -> Seq<Move> {
    let rank = from.spec_rank() + forward(color);
    let file = from.spec_file() as int;
    if !on_grid(rank, file) || board[rank * 8 + file] is Some {
        Seq::empty()
    } else {
        double_push(board, color, from) + if rank == pawn_promotion_rank(color) {
            promotions(from, Position::at(rank, file), color)
        } else {
            seq![Move::Normal { from, to: Position::at(rank, file) }]
        }
    }
}

/// The captures of a pawn toward one side, `df` being -1 or 1: of an
/// enemy that stands diagonally ahead, with promotion on the last rank,
/// or en passant if that square is empty and is the en-passant target.
pub open spec fn pawn_captures_toward(
    board: Seq<Square>,
    en_passant: Option<Position>,
    color: PieceColor,
    from: Position,
    df: int,
) -> Seq<Move> {
    let rank = from.spec_rank() + forward(color);
    let file = from.spec_file() + df;
    let to = Position::at(rank, file);
    if !on_grid(rank, file) {
        Seq::empty()
    } else {
        match board[rank * 8 + file] {
            Some(piece) => if piece.color == color {
                Seq::empty()
            } else if rank == pawn_promotion_rank(color) {
                promotion_captures(from, to, piece, color)
            } else {
                seq![Move::Capture { from, to, captured: piece }]
            },
            None => if en_passant == Some(to) {
                seq![
                    Move::EnPassant {
                        from,
                        to,
                        captured: Position::at(from.spec_rank() as int, file),
                    },
                ]
            } else {
                Seq::empty()
            },
        }
    }
}

/// The captures of a pawn: toward the a-file, then toward the h-file.
pub open spec fn pawn_captures(
    board: Seq<Square>,
    en_passant: Option<Position>,
    color: PieceColor,
    from: Position,
) -> Seq<Move> {
    pawn_captures_toward(board, en_passant, color, from, -1) + pawn_captures_toward(
        board,
        en_passant,
        color,
        from,
        1,
    )
}

/// The moves of a piece of the given kind and `color` on `from`.
pub open spec fn piece_moves(
    board: Seq<Square>,
    en_passant: Option<Position>,
    color: PieceColor,
    kind: PieceKind,
    from: Position,
) -> Seq<Move> {
    match kind {
        PieceKind::Pawn => pawn_pushes(board, color, from) + pawn_captures(
            board,
            en_passant,
            color,
            from,
        ),
        PieceKind::Knight => sweep(board, color, from, false, KNIGHT_JUMPS@, 8),
        PieceKind::King => sweep(board, color, from, false, KING_STEPS@, 8),
        PieceKind::Bishop => sweep(board, color, from, true, BISHOP_DIRECTIONS@, 4),
        PieceKind::Rook => sweep(board, color, from, true, ROOK_DIRECTIONS@, 4),
        PieceKind::Queen => sweep(board, color, from, true, BISHOP_DIRECTIONS@, 4) + sweep(
            board,
            color,
            from,
            true,
            ROOK_DIRECTIONS@,
            4,
        ),
    }
}

impl GameStateView {
    /// The moves for `color` of what stands on a square: those of the
    /// piece, if `square` holds one of that colour.
    pub open spec fn square_moves(self, color: PieceColor, square: Square, position: Position) -> Seq<
        Move,
    > {
        match square {
            Some(piece) => if piece.color == color {
                piece_moves(self.board, self.en_passant, color, piece.kind, position)
            } else {
                Seq::empty()
            },
            None => Seq::empty(),
        }
    }

    /// The moves of the pieces of `color` on the first `n` squares.
    pub open spec fn scan(self, color: PieceColor, n: int) -> Seq<Move>
        decreases n,
    {
        if n <= 0 {
            Seq::empty()
        } else {
            self.scan(color, n - 1) + self.square_moves(
                color,
                self.board[n - 1],
                Position::of_index(n - 1),
            )
        }
    }

    /// The castling move of `color` on `side`, if it holds the right and
    /// the squares between king and rook are empty.
    pub open spec fn castle_on(self, color: PieceColor, side: CastleSide) -> Seq<Move> {
        if self.castle_open(color, side) {
            seq![castle_of(color, side)]
        } else {
            Seq::empty()
        }
    }

    /// The castling moves of `color`: on the king's side, then on the
    /// queen's.
    pub open spec fn castle_moves(self, color: PieceColor) -> Seq<Move> {
        self.castle_on(color, CastleSide::KingSide) + self.castle_on(color, CastleSide::QueenSide)
    }

    /// The pseudo-legal moves of `color`, in the order in which they are
    /// generated.
    pub open spec fn pseudo_legal_moves(self, color: PieceColor) -> Seq<Move> {
        self.scan(color, 64) + self.castle_moves(color)
    }

    /// The legal moves of the side to move: its pseudo-legal moves
    /// without those that leave its king in check, in the same order.
    pub open spec fn legal_moves(self) -> Seq<Move> {
        self.pseudo_legal_moves(self.turn).filter(self.safe())
    }
}

} // verus!
