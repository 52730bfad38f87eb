//! What a move must be to count as one that a piece can make: the
//! geometry of each piece, blocking, capturing, the pawn's special moves
//! and castling, all as predicates on a position and a move.

use crate::board::{first_king, has_king, Square};
use crate::moves::Move;
use crate::piece::{Piece, PieceColor, PieceKind};
use crate::position::Position;
use crate::state::{home_rank, CastleSide, GameStateView};
use vstd::prelude::*;

verus! {

/// Rank and file name a square of the board.
pub open spec fn on_grid(rank: int, file: int) -> bool {
    0 <= rank <= 7 && 0 <= file <= 7
}

/// How far apart two ranks, or two files, are.
pub open spec fn gap(a: int, b: int) -> int {
    if a <= b {
        b - a
    } else {
        a - b
    }
}

/// The direction from `a` to `b` along one axis: -1, 0 or 1.
pub open spec fn toward(a: int, b: int) -> int {
    if a < b {
        1
    } else if a > b {
        -1
    } else {
        0
    }
}

/// `k` steps in the direction `d`, where `d` is -1, 0 or 1.
pub open spec fn steps(d: int, k: int) -> int {
    if d > 0 {
        k
    } else if d < 0 {
        -k
    } else {
        0
    }
}

/// The index of the square `k` steps from `from` in the direction
/// `(dr, df)`.
pub open spec fn ray_index(from: Position, dr: int, df: int, k: int) -> int {
    (from.spec_rank() + steps(dr, k)) * 8 + from.spec_file() + steps(df, k)
}

/// The number of king steps from one square to another.
pub open spec fn span(from: Position, to: Position) -> int {
    let ranks = gap(from.spec_rank() as int, to.spec_rank() as int);
    let files = gap(from.spec_file() as int, to.spec_file() as int);
    if ranks >= files {
        ranks
    } else {
        files
    }
}

/// The two squares differ and lie on one rank or file (`straight`) or on
/// one diagonal (`diagonal`).
pub open spec fn on_line(from: Position, to: Position, straight: bool, diagonal: bool) -> bool {
    let ranks = gap(from.spec_rank() as int, to.spec_rank() as int);
    let files = gap(from.spec_file() as int, to.spec_file() as int);
    ||| straight && (ranks == 0) != (files == 0)
    ||| diagonal && ranks == files && ranks != 0
}

/// Every square strictly between the two squares of a line is empty.
pub open spec fn path_clear(board: Seq<Square>, from: Position, to: Position) -> bool {
    let dr = toward(from.spec_rank() as int, to.spec_rank() as int);
    let df = toward(from.spec_file() as int, to.spec_file() as int);
    forall|k: int| 1 <= k < span(from, to) ==> board[#[trigger] ray_index(from, dr, df, k)] is None
}

/// A knight's jump: one step along one axis and two along the other.
pub open spec fn knight_jump(from: Position, to: Position) -> bool {
    let ranks = gap(from.spec_rank() as int, to.spec_rank() as int);
    let files = gap(from.spec_file() as int, to.spec_file() as int);
    (ranks == 1 && files == 2) || (ranks == 2 && files == 1)
}

/// A king's step: to one of the squares that touch its own.
pub open spec fn king_step(from: Position, to: Position) -> bool {
    span(from, to) == 1
}

/// `m` is the move by which a piece of `color` goes from `from` to `to`:
/// a normal move if `to` is empty, the capture of the piece there if it
/// is an enemy. Onto a piece of its own colour there is no move.
pub open spec fn lands(
    board: Seq<Square>,
    color: PieceColor,
    from: Position,
    to: Position,
    m: Move,
) -> bool {
    match board[to.index()] {
        None => m == (Move::Normal { from, to }),
        Some(piece) => piece.color != color && m == (Move::Capture { from, to, captured: piece }),
    }
}

/// The direction in which the pawns of a colour advance, as a change of
/// rank.
pub open spec fn forward(color: PieceColor) -> int {
    match color {
        PieceColor::White => 1,
        PieceColor::Black => -1,
    }
}

/// The rank on which the pawns of a colour start.
pub open spec fn pawn_start_rank(color: PieceColor) -> int {
    match color {
        PieceColor::White => 1,
        PieceColor::Black => 6,
    }
}

/// The rank on which the pawns of a colour promote.
pub open spec fn pawn_promotion_rank(color: PieceColor) -> int {
    match color {
        PieceColor::White => 7,
        PieceColor::Black => 0,
    }
}

/// A piece that a pawn of `color` can become.
pub open spec fn promotes_to(color: PieceColor, piece: Piece) -> bool {
    piece.color == color && (piece.kind == PieceKind::Queen || piece.kind == PieceKind::Rook
        || piece.kind == PieceKind::Bishop || piece.kind == PieceKind::Knight)
}

/// `to` is the square straight ahead of a pawn on `from`.
pub open spec fn is_ahead(color: PieceColor, from: Position, to: Position) -> bool {
    to.on_board() && to.spec_rank() == from.spec_rank() + forward(color) && to.spec_file()
        == from.spec_file()
}

/// `to` is one of the two squares diagonally ahead of a pawn on `from`.
pub open spec fn is_diagonally_ahead(color: PieceColor, from: Position, to: Position) -> bool {
    to.on_board() && to.spec_rank() == from.spec_rank() + forward(color) && gap(
        from.spec_file() as int,
        to.spec_file() as int,
    ) == 1
}

/// `m` is a move of a pawn of `color` that stands on `from`.
///
/// A pawn goes one square ahead onto an empty square; from its start rank
/// two squares ahead over an empty square onto an empty square; and
/// diagonally ahead onto an enemy, or onto the empty en-passant target,
/// taking the pawn beside it. Arriving on its last rank it promotes.
pub open spec fn pawn_move(
    board: Seq<Square>,
    en_passant: Option<Position>,
    color: PieceColor,
    from: Position,
    m: Move,
) -> bool {
    let last = pawn_promotion_rank(color);
    match m {
        Move::Normal { from: f, to } => {
            &&& f == from
            &&& is_ahead(color, from, to)
            &&& board[to.index()] is None
            &&& to.spec_rank() != last
        },
        Move::Promotion { from: f, to, promoted } => {
            &&& f == from
            &&& is_ahead(color, from, to)
            &&& board[to.index()] is None
            &&& to.spec_rank() == last
            &&& promotes_to(color, promoted)
        },
        Move::DoublePawnPush { from: f, to, en_passant: over } => {
            &&& f == from
            &&& from.spec_rank() == pawn_start_rank(color)
            &&& is_ahead(color, from, over)
            &&& is_ahead(color, over, to)
            &&& board[over.index()] is None
            &&& board[to.index()] is None
        },
        Move::Capture { from: f, to, captured } => {
            &&& f == from
            &&& is_diagonally_ahead(color, from, to)
            &&& board[to.index()] == Some(captured)
            &&& captured.color != color
            &&& to.spec_rank() != last
        },
        Move::PromotionCapture { from: f, to, captured, promoted } => {
            &&& f == from
            &&& is_diagonally_ahead(color, from, to)
            &&& board[to.index()] == Some(captured)
            &&& captured.color != color
            &&& to.spec_rank() == last
            &&& promotes_to(color, promoted)
        },
        Move::EnPassant { from: f, to, captured } => {
            &&& f == from
            &&& is_diagonally_ahead(color, from, to)
            &&& board[to.index()] is None
            &&& en_passant == Some(to)
            &&& captured.on_board()
            &&& captured.spec_rank() == from.spec_rank()
            &&& captured.spec_file() == to.spec_file()
        },
        Move::Castle { .. } => false,
    }
}

/// `m` is a move of a piece of the given kind and `color` that stands on
/// `from`, whether or not it leaves the mover's king in check. Castling
/// is not among these moves.
pub open spec fn piece_move(
    board: Seq<Square>,
    en_passant: Option<Position>,
    color: PieceColor,
    kind: PieceKind,
    from: Position,
    m: Move,
) -> bool {
    let to = m.spec_to();
    match kind {
        PieceKind::Pawn => pawn_move(board, en_passant, color, from, m),
        PieceKind::Knight => to.on_board() && knight_jump(from, to) && lands(
            board,
            color,
            from,
            to,
            m,
        ),
        PieceKind::King => to.on_board() && king_step(from, to) && lands(board, color, from, to, m),
        PieceKind::Bishop => to.on_board() && on_line(from, to, false, true) && path_clear(
            board,
            from,
            to,
        ) && lands(board, color, from, to, m),
        PieceKind::Rook => to.on_board() && on_line(from, to, true, false) && path_clear(
            board,
            from,
            to,
        ) && lands(board, color, from, to, m),
        PieceKind::Queen => to.on_board() && on_line(from, to, true, true) && path_clear(
            board,
            from,
            to,
        ) && lands(board, color, from, to, m),
    }
}

/// The castling move of a colour on a wing: the king goes two squares
/// from the e-file toward the rook, and the rook from its corner to the
/// square that the king has crossed.
pub open spec fn castle_of(color: PieceColor, side: CastleSide) -> Move {
    let home = home_rank(color) as int;
    match side {
        CastleSide::KingSide => Move::Castle {
            from: Position::at(home, 4),
            to: Position::at(home, 6),
            rook_from: Position::at(home, 7),
            rook_to: Position::at(home, 5),
        },
        CastleSide::QueenSide => Move::Castle {
            from: Position::at(home, 4),
            to: Position::at(home, 2),
            rook_from: Position::at(home, 0),
            rook_to: Position::at(home, 3),
        },
    }
}

/// The squares between the king and the rook of a wing are empty: two on
/// the king's side, three on the queen's.
pub open spec fn castle_path_empty(board: Seq<Square>, color: PieceColor, side: CastleSide) -> bool {
    let home = home_rank(color) as int;
    match side {
        CastleSide::KingSide => board[home * 8 + 5] is None && board[home * 8 + 6] is None,
        CastleSide::QueenSide => board[home * 8 + 1] is None && board[home * 8 + 2] is None
            && board[home * 8 + 3] is None,
    }
}

impl GameStateView {
    /// `color` may castle on `side` as far as rights and empty squares
    /// go; whether a square on the way is attacked is not asked here.
    pub open spec fn castle_open(self, color: PieceColor, side: CastleSide) -> bool {
        self.has_right(color, side) && castle_path_empty(self.board, color, side)
    }

    /// `m` is a pseudo-legal move of `color`: a move that one of its
    /// pieces can make by the way it moves and by what stands on the
    /// board, or a castling move whose right is held and whose path is
    /// empty. Whether the move leaves the mover's king in check is not
    /// asked.
    pub open spec fn pseudo_legal(self, color: PieceColor, m: Move) -> bool {
        ||| {
            &&& !(m is Castle)
            &&& m.spec_from().on_board()
            &&& self.board[m.spec_from().index()] matches Some(piece)
            &&& piece.color == color
            &&& piece_move(self.board, self.en_passant, color, piece.kind, m.spec_from(), m)
        }
        ||| self.castle_open(color, CastleSide::KingSide) && m == castle_of(
            color,
            CastleSide::KingSide,
        )
        ||| self.castle_open(color, CastleSide::QueenSide) && m == castle_of(
            color,
            CastleSide::QueenSide,
        )
    }

    /// Some pseudo-legal move of `by` ends on `target`.
    pub open spec fn attacked(self, by: PieceColor, target: Position) -> bool {
        exists|m: Move| #[trigger] self.pseudo_legal(by, m) && m.spec_to() == target
    }

    /// The king of the side to move stands on a square that the other
    /// side attacks. Without such a king there is no check.
    pub open spec fn in_check(self) -> bool {
        has_king(self.board, self.turn) && self.attacked(
            self.turn.other(),
            Position::of_index(first_king(self.board, self.turn)),
        )
    }

    /// The move can be tried out: it finds the pieces that applying it
    /// reads, the mover's king is still on the board afterwards, and, for
    /// a castling move, is on the board before.
    pub open spec fn can_try(self, m: Move) -> bool {
        &&& self.finds_pieces(m)
        &&& has_king(self.board_after(m), self.turn)
        &&& m is Castle ==> has_king(self.board, self.turn)
    }

    /// Every pseudo-legal move of the side to move can be tried out.
    pub open spec fn can_try_all(self) -> bool {
        forall|m: Move| #[trigger] self.pseudo_legal(self.turn, m) ==> self.can_try(m)
    }

    /// The move does not leave the mover's king in check. A castling move
    /// must also start out of check, and the square that the rook goes
    /// to, which the king crosses, must not be attacked.
    pub open spec fn keeps_king_safe(self, m: Move) -> bool {
        &&& m matches Move::Castle { rook_to, .. } ==> !self.in_check() && !self.attacked(
            self.turn.other(),
            rook_to,
        )
        &&& !self.next(m).in_check()
    }

    /// The test of `keeps_king_safe`, as a function of the move.
    pub open spec fn safe(self) -> spec_fn(Move) -> bool {
        |m: Move| self.keeps_king_safe(m)
    }

    /// `m` is a legal move of the side to move: pseudo-legal, and not
    /// leaving its own king in check.
    pub open spec fn legal(self, m: Move) -> bool {
        self.pseudo_legal(self.turn, m) && self.keeps_king_safe(m)
    }

    /// A position that a game can be played from: the board has its 64
    /// squares and the king of the side to move; behind an en-passant
    /// target stands a pawn of the other side; and where the side to
    /// move holds a castling right, its king and the rook of that wing
    /// stand on their home squares.
    pub open spec fn playable(self) -> bool {
        let home = home_rank(self.turn) as int;
        let king = Some(Piece { kind: PieceKind::King, color: self.turn });
        let rook = Some(Piece { kind: PieceKind::Rook, color: self.turn });
        &&& self.board.len() == 64
        &&& has_king(self.board, self.turn)
        &&& self.en_passant matches Some(target) ==> {
            &&& target.on_board()
            &&& on_grid(target.spec_rank() - forward(self.turn), target.spec_file() as int)
            &&& self.board[(target.spec_rank() - forward(self.turn)) * 8 + target.spec_file()]
                == Some(Piece { kind: PieceKind::Pawn, color: self.turn.other() })
        }
        &&& self.has_right(self.turn, CastleSide::KingSide) ==> self.board[home * 8 + 4] == king
            && self.board[home * 8 + 7] == rook
        &&& self.has_right(self.turn, CastleSide::QueenSide) ==> self.board[home * 8 + 4] == king
            && self.board[home * 8] == rook
    }
}

} // verus!
