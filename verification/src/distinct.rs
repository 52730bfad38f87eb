//! No move stands twice in a list of the generator.

use crate::agreement::{
    leads, lemma_hop, lemma_pawn_captures_toward, lemma_pawn_pushes, lemma_piece_move_starts,
    lemma_piece_moves, lemma_promotions, lemma_ray, lemma_scan, lemma_slide, lemma_slider_moves,
    lemma_sweep, points,
};
use crate::board::Square;
use crate::listing::{
    along, double_push, pawn_captures_toward, pawn_pushes, piece_moves, promotion_captures,
    promotions, ray, sweep, BISHOP_DIRECTIONS, KING_STEPS, KNIGHT_JUMPS, ROOK_DIRECTIONS,
};
use crate::moves::Move;
use crate::piece::{Piece, PieceColor, PieceKind};
use crate::position::Position;
use crate::rules::{castle_of, forward, on_grid, pawn_promotion_rank, span, steps};
use crate::seqs::{lemma_concat_distinct, lemma_filter_distinct, lemma_single_contains};
use crate::state::{home_rank, CastleSide, GameStateView};
use vstd::prelude::*;

verus! {

/// The four promotions on one square differ, and so do the four
/// promotions with capture.
pub proof fn lemma_promotions_distinct(from: Position, to: Position, captured: Piece, color: PieceColor)
    ensures
        promotions(from, to, color).no_duplicates(),
        promotion_captures(from, to, captured, color).no_duplicates(),
{
    assert(promotions(from, to, color).len() == 4);
    assert(promotion_captures(from, to, captured, color).len() == 4);
}

/// No move stands twice in the list of a ray.
pub proof fn lemma_ray_distinct(
    board: Seq<Square>,
    color: PieceColor,
    from: Position,
    dr: int,
    df: int,
    k: int,
)
    requires
        from.on_board(),
        -1 <= dr <= 1,
        -1 <= df <= 1,
        dr != 0 || df != 0,
        k >= 1,
    ensures
        ray(board, color, from, dr, df, k).no_duplicates(),
    decreases 8 - k,
{
    let rank = from.spec_rank() + steps(dr, k);
    let file = from.spec_file() + steps(df, k);
    if k > 7 || !on_grid(rank, file) {
    } else if board[rank * 8 + file] is Some {
    } else {
        let here = Position::at(rank, file);
        let head = Move::Normal { from, to: here };
        let rest = ray(board, color, from, dr, df, k + 1);
        from.lemma_on_board();
        Position::lemma_at(rank, file);
        lemma_ray_distinct(board, color, from, dr, df, k + 1);
        assert forall|x: Move| seq![head].contains(x) implies !rest.contains(x) by {
            assert(seq![head][0] == head);
            lemma_ray(board, color, from, dr, df, k + 1, x);
            assert(span(from, here) == k);
        }
        lemma_concat_distinct(seq![head], rest);
    }
}

/// The first `n` entries of a table differ from one another.
pub open spec fn entries_differ(table: Seq<(i8, i8)>, n: int) -> bool {
    forall|i: int, j: int| 0 <= i < j < n ==> table[i] != table[j]
}

/// The first `n` entries of a table are directions.
pub open spec fn entries_point(table: Seq<(i8, i8)>, n: int) -> bool {
    forall|i: int|
        0 <= i < n ==> {
            &&& -1 <= (#[trigger] table[i]).0 <= 1
            &&& -1 <= table[i].1 <= 1
            &&& (table[i].0 != 0 || table[i].1 != 0)
        }
}

/// No move stands twice in the list of a table whose entries differ.
pub proof fn lemma_sweep_distinct(
    board: Seq<Square>,
    color: PieceColor,
    from: Position,
    sliding: bool,
    table: Seq<(i8, i8)>,
    n: int,
)
    requires
        from.on_board(),
        0 <= n <= table.len(),
        entries_differ(table, n),
        sliding ==> entries_point(table, n),
    ensures
        sweep(board, color, from, sliding, table, n).no_duplicates(),
    decreases n,
{
    if n > 0 {
        let front = sweep(board, color, from, sliding, table, n - 1);
        let last = along(board, color, from, sliding, table[n - 1]);
        lemma_sweep_distinct(board, color, from, sliding, table, n - 1);
        if sliding {
            lemma_ray_distinct(board, color, from, table[n - 1].0 as int, table[n - 1].1 as int, 1);
        }
        assert forall|x: Move| front.contains(x) implies !last.contains(x) by {
            lemma_sweep(board, color, from, sliding, table, n - 1, x);
            let i = choose|i: int|
                0 <= i < n - 1 && (#[trigger] along(board, color, from, sliding, table[i])).contains(
                    x,
                );
            if sliding {
                lemma_slide(board, color, from, table[i], x);
                lemma_slide(board, color, from, table[n - 1], x);
                if last.contains(x) {
                    assert(points(table[i], from, x.spec_to()));
                    assert(points(table[n - 1], from, x.spec_to()));
                    assert(table[i] == table[n - 1]);
                }
            } else {
                lemma_hop(board, color, from, table[i], x);
                lemma_hop(board, color, from, table[n - 1], x);
                if last.contains(x) {
                    assert(leads(table[i], from, x.spec_to()));
                    assert(leads(table[n - 1], from, x.spec_to()));
                    assert(table[i] == table[n - 1]);
                }
            }
        }
        lemma_concat_distinct(front, last);
    }
}

/// No move stands twice in the list of captures of a pawn toward one
/// side.
pub proof fn lemma_pawn_captures_toward_distinct(
    board: Seq<Square>,
    en_passant: Option<Position>,
    color: PieceColor,
    from: Position,
    df: int,
)
    ensures
        pawn_captures_toward(board, en_passant, color, from, df).no_duplicates(),
{
    let rank = from.spec_rank() + forward(color);
    let file = from.spec_file() + df;
    if on_grid(rank, file) {
        if let Some(piece) = board[rank * 8 + file] {
            lemma_promotions_distinct(from, Position::at(rank, file), piece, color);
        }
    }
}

/// No move stands twice in the list of pushes of a pawn.
pub proof fn lemma_pawn_pushes_distinct(board: Seq<Square>, color: PieceColor, from: Position)
    ensures
        pawn_pushes(board, color, from).no_duplicates(),
{
    let rank = from.spec_rank() + forward(color);
    let file = from.spec_file() as int;
    if on_grid(rank, file) && board[rank * 8 + file] is None {
        let ahead = Position::at(rank, file);
        let first = double_push(board, color, from);
        let second = if rank == pawn_promotion_rank(color) {
            promotions(from, ahead, color)
        } else {
            seq![Move::Normal { from, to: ahead }]
        };
        lemma_promotions_distinct(from, ahead, Piece { kind: PieceKind::Pawn, color }, color);
        assert forall|x: Move| first.contains(x) implies !second.contains(x) by {
            assert(first.len() == 1 && first[0] is DoublePawnPush);
            lemma_promotions(from, ahead, color, x);
            if second.contains(x) && rank != pawn_promotion_rank(color) {
                assert(second[0] is Normal);
            }
        }
        lemma_concat_distinct(first, second);
    }
}

/// No move stands twice in the list of the moves of a piece.
pub proof fn lemma_piece_moves_distinct(
    board: Seq<Square>,
    en_passant: Option<Position>,
    color: PieceColor,
    kind: PieceKind,
    from: Position,
)
    requires
        from.on_board(),
    ensures
        piece_moves(board, en_passant, color, kind, from).no_duplicates(),
{
    match kind {
        PieceKind::Pawn => {
            let pushes = pawn_pushes(board, color, from);
            let left = pawn_captures_toward(board, en_passant, color, from, -1);
            let right = pawn_captures_toward(board, en_passant, color, from, 1);
            lemma_pawn_pushes_distinct(board, color, from);
            lemma_pawn_captures_toward_distinct(board, en_passant, color, from, -1);
            lemma_pawn_captures_toward_distinct(board, en_passant, color, from, 1);
            assert forall|x: Move| left.contains(x) implies !right.contains(x) by {
                lemma_pawn_captures_toward(board, en_passant, color, from, -1, x);
                lemma_pawn_captures_toward(board, en_passant, color, from, 1, x);
            }
            lemma_concat_distinct(left, right);
            assert forall|x: Move| pushes.contains(x) implies !(left + right).contains(x) by {
                lemma_pawn_pushes(board, en_passant, color, from, x);
                lemma_pawn_captures_toward(board, en_passant, color, from, -1, x);
                lemma_pawn_captures_toward(board, en_passant, color, from, 1, x);
                vstd::seq_lib::lemma_seq_concat_contains_all_elements(left, right, x);
            }
            lemma_concat_distinct(pushes, left + right);
        },
        PieceKind::Knight => {
            lemma_sweep_distinct(board, color, from, false, KNIGHT_JUMPS@, 8);
        },
        PieceKind::King => {
            lemma_sweep_distinct(board, color, from, false, KING_STEPS@, 8);
        },
        PieceKind::Bishop => {
            lemma_sweep_distinct(board, color, from, true, BISHOP_DIRECTIONS@, 4);
        },
        PieceKind::Rook => {
            lemma_sweep_distinct(board, color, from, true, ROOK_DIRECTIONS@, 4);
        },
        PieceKind::Queen => {
            let diagonal = sweep(board, color, from, true, BISHOP_DIRECTIONS@, 4);
            let straight = sweep(board, color, from, true, ROOK_DIRECTIONS@, 4);
            lemma_sweep_distinct(board, color, from, true, BISHOP_DIRECTIONS@, 4);
            lemma_sweep_distinct(board, color, from, true, ROOK_DIRECTIONS@, 4);
            assert forall|x: Move| diagonal.contains(x) implies !straight.contains(x) by {
                lemma_slider_moves(board, color, from, false, x);
                lemma_slider_moves(board, color, from, true, x);
            }
            lemma_concat_distinct(diagonal, straight);
        },
    }
}

/// No move stands twice in the list of the first `n` squares.
pub proof fn lemma_scan_distinct(s: GameStateView, color: PieceColor, n: int)
    requires
        0 <= n <= 64,
    ensures
        s.scan(color, n).no_duplicates(),
    decreases n,
{
    if n > 0 {
        let here = Position::of_index(n - 1);
        let square = s.board[n - 1];
        let front = s.scan(color, n - 1);
        let last = s.square_moves(color, square, here);
        lemma_scan_distinct(s, color, n - 1);
        if let Some(piece) = square {
            if piece.color == color {
                lemma_piece_moves_distinct(s.board, s.en_passant, color, piece.kind, here);
                assert forall|x: Move| front.contains(x) implies !last.contains(x) by {
                    lemma_scan(s, color, n - 1, x);
                    lemma_piece_moves(s.board, s.en_passant, color, piece.kind, here, x);
                    if last.contains(x) {
                        lemma_piece_move_starts(s.board, s.en_passant, color, piece.kind, here, x);
                    }
                }
            }
        }
        lemma_concat_distinct(front, last);
    }
}

/// No move stands twice among the pseudo-legal moves of a side, nor
/// among the legal moves of the side to move.
pub proof fn lemma_moves_distinct(s: GameStateView, color: PieceColor)
    ensures
        s.pseudo_legal_moves(color).no_duplicates(),
        s.legal_moves().no_duplicates(),
{
    lemma_all_distinct(s, color);
    lemma_all_distinct(s, s.turn);
    lemma_filter_distinct(s.pseudo_legal_moves(s.turn), s.safe());
}

/// No move stands twice among the pseudo-legal moves of a side.
proof fn lemma_all_distinct(s: GameStateView, color: PieceColor)
    ensures
        s.pseudo_legal_moves(color).no_duplicates(),
{
    let scanned = s.scan(color, 64);
    let king_side = s.castle_on(color, CastleSide::KingSide);
    let queen_side = s.castle_on(color, CastleSide::QueenSide);
    lemma_scan_distinct(s, color, 64);
    assert forall|x: Move| king_side.contains(x) implies !queen_side.contains(x) by {
        let home = home_rank(color) as int;
        Position::lemma_at(home, 6);
        Position::lemma_at(home, 2);
        lemma_single_contains(castle_of(color, CastleSide::KingSide), x);
        lemma_single_contains(castle_of(color, CastleSide::QueenSide), x);
    }
    lemma_concat_distinct(king_side, queen_side);
    assert forall|x: Move| scanned.contains(x) implies !s.castle_moves(color).contains(x) by {
        lemma_scan(s, color, 64, x);
        vstd::seq_lib::lemma_seq_concat_contains_all_elements(king_side, queen_side, x);
        if king_side.contains(x) {
            assert(king_side[0] is Castle);
        }
        if queen_side.contains(x) {
            assert(queen_side[0] is Castle);
        }
    }
    lemma_concat_distinct(scanned, s.castle_moves(color));
}

} // verus!
