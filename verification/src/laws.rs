//! What holds of every position and every move: where moves can end,
//! what sliding pieces cross, when castling is allowed, how the halfmove
//! clock runs, and from which positions the legal moves can be asked for.

use crate::agreement::lemma_pseudo_legal_moves;
use crate::board::{first_king, has_king, is_king_at, lemma_has_first_king};
use crate::moves::Move;
use crate::piece::{Piece, PieceColor, PieceKind};
use crate::position::Position;
use crate::rules::{
    castle_of, castle_path_empty, forward, on_line, path_clear, ray_index, span, toward,
};
use crate::seqs::lemma_filter_holds;
use crate::state::{castle_mask, home_rank, rights_after_leaving, CastleSide, GameStateView};
use vstd::prelude::*;

verus! {

/// Whether a side is in check depends on the board, the side to move,
/// the en-passant target and the castling rights, and on nothing else.
pub proof fn lemma_check_is_of_placement(a: GameStateView, b: GameStateView)
    requires
        a.board == b.board,
        a.turn == b.turn,
        a.en_passant == b.en_passant,
        a.castling_rights == b.castling_rights,
    ensures
        a.in_check() == b.in_check(),
        forall|by: PieceColor, target: Position| a.attacked(by, target) == b.attacked(by, target),
{
    assert forall|by: PieceColor, m: Move| a.pseudo_legal(by, m) == b.pseudo_legal(by, m) by {}
    assert forall|by: PieceColor, target: Position| a.attacked(by, target) == b.attacked(
        by,
        target,
    ) by {
        if a.attacked(by, target) {
            let m = choose|m: Move| #[trigger] a.pseudo_legal(by, m) && m.spec_to() == target;
            assert(b.pseudo_legal(by, m));
        }
        if b.attacked(by, target) {
            let m = choose|m: Move| #[trigger] b.pseudo_legal(by, m) && m.spec_to() == target;
            assert(a.pseudo_legal(by, m));
        }
    }
}

/// No pseudo-legal move, and so no legal move, ends on a piece of the
/// mover's own colour.
pub proof fn lemma_never_onto_own_piece(s: GameStateView, color: PieceColor, m: Move)
    requires
        s.pseudo_legal(color, m),
    ensures
        m.spec_to().on_board(),
        !(s.board[m.spec_to().index()] matches Some(piece) && piece.color == color),
{
    let home = home_rank(color) as int;
    Position::lemma_at(home, 6);
    Position::lemma_at(home, 2);
}

/// No legal move ends on a piece of the side to move.
pub proof fn lemma_legal_never_onto_own_piece(s: GameStateView, m: Move)
    requires
        s.legal_moves().contains(m),
    ensures
        m.spec_to().on_board(),
        !(s.board[m.spec_to().index()] matches Some(piece) && piece.color == s.turn),
{
    lemma_filter_holds(s.pseudo_legal_moves(s.turn), s.safe(), m);
    lemma_pseudo_legal_moves(s, s.turn, m);
    lemma_never_onto_own_piece(s, s.turn, m);
}

/// `kind` is the kind of a piece that slides: bishop, rook or queen.
pub open spec fn slides(kind: PieceKind) -> bool {
    kind == PieceKind::Bishop || kind == PieceKind::Rook || kind == PieceKind::Queen
}

/// Every generated move of a bishop, a rook or a queen runs along a line
/// of the piece, and every square strictly between its two ends is
/// empty.
pub proof fn lemma_sliders_cross_empty_squares(s: GameStateView, color: PieceColor, m: Move)
    requires
        s.pseudo_legal_moves(color).contains(m),
        !(m is Castle),
        s.board[m.spec_from().index()] matches Some(piece) && slides(piece.kind),
    ensures
        on_line(m.spec_from(), m.spec_to(), true, true),
        path_clear(s.board, m.spec_from(), m.spec_to()),
        forall|k: int|
            1 <= k < span(m.spec_from(), m.spec_to()) ==> s.board[#[trigger] ray_index(
                m.spec_from(),
                toward(m.spec_from().spec_rank() as int, m.spec_to().spec_rank() as int),
                toward(m.spec_from().spec_file() as int, m.spec_to().spec_file() as int),
                k,
            )] is None,
{
    lemma_pseudo_legal_moves(s, color, m);
}

/// A legal castling move is the castling move of the side to move on a
/// wing for which it holds the right; the squares between king and rook
/// are empty; the king is not in check before the move; the square that
/// it crosses is not attacked; and it is not in check after the move.
pub proof fn lemma_castling_conditions(s: GameStateView, m: Move)
    requires
        s.legal(m),
        m is Castle,
    ensures
        exists|side: CastleSide|
            {
                &&& m == #[trigger] castle_of(s.turn, side)
                &&& s.has_right(s.turn, side)
                &&& castle_path_empty(s.board, s.turn, side)
            },
        !s.in_check(),
        m matches Move::Castle { rook_to, .. } && !s.attacked(s.turn.other(), rook_to),
        !s.next(m).in_check(),
{
    if m == castle_of(s.turn, CastleSide::KingSide) {
        assert(s.has_right(s.turn, CastleSide::KingSide));
    } else {
        assert(m == castle_of(s.turn, CastleSide::QueenSide));
    }
}

/// The move takes a piece: a capture, a capture with promotion, or a
/// capture en passant.
pub open spec fn captures(m: Move) -> bool {
    m is Capture || m is PromotionCapture || m is EnPassant
}

/// The move moves a pawn: it is of a kind that pawns alone make, or it
/// is a normal move or a capture and the piece on the square that it
/// starts from is a pawn.
pub open spec fn moves_pawn(s: GameStateView, m: Move) -> bool {
    match m {
        Move::Normal { from, .. } => s.board[from.index()] matches Some(piece) && piece.kind
            == PieceKind::Pawn,
        Move::Capture { from, .. } => s.board[from.index()] matches Some(piece) && piece.kind
            == PieceKind::Pawn,
        Move::Castle { .. } => false,
        _ => true,
    }
}

/// Every move sets the halfmove clock back to 0 if it takes a piece or
/// moves a pawn, and else puts it up by one.
pub proof fn lemma_halfmove_clock(s: GameStateView, m: Move)
    ensures
        s.next(m).halfmove_clock == if captures(m) || moves_pawn(s, m) {
            0
        } else {
            s.halfmove_clock + 1
        },
{
}

/// In a pseudo-legal move of a kind that pawns alone make, the piece that
/// moves is a pawn of the mover's colour.
pub proof fn lemma_pawn_kinds(s: GameStateView, color: PieceColor, m: Move)
    requires
        s.pseudo_legal(color, m),
        m is DoublePawnPush || m is Promotion || m is PromotionCapture || m is EnPassant,
    ensures
        s.board[m.spec_from().index()] == Some(Piece { kind: PieceKind::Pawn, color }),
{
}

/// In a playable position every pseudo-legal move of the side to move
/// can be tried out, so that its legal moves can be asked for.
pub proof fn lemma_playable_can_try_all(s: GameStateView)
    requires
        s.playable(),
    ensures
        s.can_try_all(),
        has_king(s.board, s.turn),
{
    assert forall|m: Move| #[trigger] s.pseudo_legal(s.turn, m) implies s.can_try(m) by {
        lemma_playable_can_try(s, m);
    }
}

/// In a playable position a pseudo-legal move of the side to move can be
/// tried out.
pub proof fn lemma_playable_can_try(s: GameStateView, m: Move)
    requires
        s.playable(),
        s.pseudo_legal(s.turn, m),
    ensures
        s.can_try(m),
{
    let color = s.turn;
    let home = home_rank(color) as int;
    let from = m.spec_from();
    let to = m.spec_to();
    let king = first_king(s.board, color);
    let after = s.board_after(m);
    lemma_has_first_king(s.board, color);
    Position::lemma_at(home, 0);
    Position::lemma_at(home, 2);
    Position::lemma_at(home, 3);
    Position::lemma_at(home, 4);
    Position::lemma_at(home, 5);
    Position::lemma_at(home, 6);
    Position::lemma_at(home, 7);
    lemma_never_onto_own_piece(s, color, m);
    if from.on_board() {
        from.lemma_on_board();
    }
    to.lemma_on_board();
    match m {
        Move::Castle { rook_from, rook_to, .. } => {
            assert(from.index() == home * 8 + 4);
            assert(is_king_at(after, color, to.index()));
        },
        Move::EnPassant { captured, .. } => {
            captured.lemma_on_board();
            let target = s.en_passant->0;
            assert(target == to);
            assert(captured.index() == (target.spec_rank() - forward(color)) * 8
                + target.spec_file());
            if from.index() == king {
                assert(false);
            } else {
                assert(is_king_at(after, color, king));
            }
        },
        Move::DoublePawnPush { en_passant: over, .. } => {
            assert(is_king_at(after, color, king));
        },
        Move::Promotion { .. } => {
            assert(is_king_at(after, color, king));
        },
        Move::PromotionCapture { .. } => {
            assert(is_king_at(after, color, king));
        },
        Move::Normal { .. } => {
            if from.index() == king {
                assert(is_king_at(after, color, to.index()));
            } else {
                assert(is_king_at(after, color, king));
            }
        },
        Move::Capture { .. } => {
            if from.index() == king {
                assert(is_king_at(after, color, to.index()));
            } else {
                assert(is_king_at(after, color, king));
            }
        },
    }
}

/// A move leaves an en-passant target if and only if it is a double pawn
/// push, and then the square that the pawn has crossed: a target lives
/// for one move.
pub proof fn lemma_en_passant_lives_one_move(s: GameStateView, m: Move)
    ensures
        s.next(m).en_passant is Some <==> m is DoublePawnPush,
        m matches Move::DoublePawnPush { en_passant, .. } ==> s.next(m).en_passant == Some(
            en_passant,
        ),
{
}

/// No move brings a castling right back: a right that is held after a
/// move was held before it.
pub proof fn lemma_rights_only_end(s: GameStateView, m: Move, color: PieceColor, side: CastleSide)
    requires
        s.next(m).has_right(color, side),
    ensures
        s.has_right(color, side),
{
    let before = s.castling_rights;
    let after = s.next(m).castling_rights;
    let bit = castle_mask(color, side);
    assert(after & !before == 0) by {
        lemma_rights_shrink(s, m);
    }
    assert(before & bit != 0) by (bit_vector)
        requires
            after & bit != 0,
            after & !before == 0,
    ;
}

/// The rights after a piece has left a square are among the rights
/// before.
proof fn lemma_leaving_shrinks(rights: u8, position: Position, piece: Piece)
    ensures
        rights_after_leaving(rights, position, piece) & !rights == 0,
{
    let king_side = castle_mask(piece.color, CastleSide::KingSide);
    let queen_side = castle_mask(piece.color, CastleSide::QueenSide);
    assert(rights & !rights == 0) by (bit_vector);
    assert((rights & !king_side) & !rights == 0) by (bit_vector);
    assert((rights & !queen_side) & !rights == 0) by (bit_vector);
    assert((rights & !king_side & !queen_side) & !rights == 0) by (bit_vector);
}

/// The rights after a move are among the rights before.
proof fn lemma_rights_shrink(s: GameStateView, m: Move)
    ensures
        s.next(m).castling_rights & !s.castling_rights == 0,
{
    let rights = s.castling_rights;
    let moving = s.board[m.spec_from().index()]->0;
    match m {
        Move::Normal { from, .. } => {
            lemma_leaving_shrinks(rights, from, moving);
        },
        Move::Capture { from, to, captured } => {
            let first = rights_after_leaving(rights, from, moving);
            let second = rights_after_leaving(first, to, captured);
            lemma_leaving_shrinks(rights, from, moving);
            lemma_leaving_shrinks(first, to, captured);
            assert(second & !rights == 0) by (bit_vector)
                requires
                    first & !rights == 0,
                    second & !first == 0,
            ;
        },
        Move::PromotionCapture { to, captured, .. } => {
            lemma_leaving_shrinks(rights, to, captured);
        },
        Move::Castle { .. } => {
            let king_side = castle_mask(moving.color, CastleSide::KingSide);
            let queen_side = castle_mask(moving.color, CastleSide::QueenSide);
            assert((rights & !king_side & !queen_side) & !rights == 0) by (bit_vector);
        },
        _ => {
            assert(rights & !rights == 0) by (bit_vector);
        },
    }
}

} // verus!
