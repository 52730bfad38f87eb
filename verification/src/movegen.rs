//! The move generator: the pseudo-legal moves of a square and of a side,
//! and the filter that keeps the moves after which the mover's king is
//! not in check.

use crate::agreement::{lemma_piece_moves, lemma_pseudo_legal_moves};
use crate::board::Square;
use crate::distinct::{lemma_moves_distinct, lemma_piece_moves_distinct};
use crate::laws::lemma_check_is_of_placement;
use crate::listing::{
    double_push, hop, landing, pawn_captures, pawn_captures_toward, pawn_pushes, piece_moves,
    promotion_captures, promotions, ray, sweep, BISHOP_DIRECTIONS, KING_STEPS, KNIGHT_JUMPS,
    ROOK_DIRECTIONS,
};
use crate::moves::{Move, PawnMoveInfo};
use crate::piece::{Piece, PieceColor, PieceKind};
use crate::position::Position;
use crate::rules::{forward, piece_move, steps};
use crate::seqs::lemma_filter_holds;
use crate::state::{CastleSide, GameState};
use vstd::prelude::*;

verus! {

/// Adds the move of a piece of `color` from `center` to `target`, if
/// there is one, and says whether `target` is taken.
fn add_move_if_valid(
    target: Position,
    moves: &mut Vec<Move>,
    center: Position,
    state: &GameState,
    color: PieceColor,
) -> (blocked: bool)
    ensures
        final(moves)@ == old(moves)@ + landing(state@.board, color, center, target),
        blocked == state@.board[target.index()] is Some,
{
    if let Some(piece) = state.board.get(target) {
        if piece.color() != color {
            moves.push(Move::Capture { from: center, to: target, captured: piece });
        }
        assert(moves@ =~= old(moves)@ + landing(state@.board, color, center, target));
        true
    } else {
        moves.push(Move::Normal { from: center, to: target });
        assert(moves@ =~= old(moves)@ + landing(state@.board, color, center, target));
        false
    }
}

/// Adds the moves of a sliding piece in one direction.
fn cast_ray(
    center: Position,
    dr: i8,
    df: i8,
    moves: &mut Vec<Move>,
    state: &GameState,
    color: PieceColor,
)
    requires
        -1 <= dr <= 1,
        -1 <= df <= 1,
    ensures
        final(moves)@ == old(moves)@ + ray(state@.board, color, center, dr as int, df as int, 1),
{
    let ghost board = state@.board;
    let ghost whole = old(moves)@ + ray(board, color, center, dr as int, df as int, 1);
    let mut rank: i8 = center.rank() as i8 + dr;
    let mut file: i8 = center.file() as i8 + df;
    let mut k: i8 = 1;
    let mut done = false;
    while k <= 7 && !done
        invariant
            -1 <= dr <= 1,
            -1 <= df <= 1,
            1 <= k <= 8,
            board == state@.board,
            rank == center.spec_rank() + steps(dr as int, k as int),
            file == center.spec_file() + steps(df as int, k as int),
            whole == moves@ + if done {
                Seq::<Move>::empty()
            } else {
                ray(board, color, center, dr as int, df as int, k as int)
            },
        decreases 8 - k + if done { 0int } else { 1int },
    {
        if rank < 0 || rank > 7 || file < 0 || file > 7 {
            done = true;
        } else {
            let target = Position::new(rank as u8, file as u8);
            let ghost before = moves@;
            let blocked = add_move_if_valid(target, moves, center, state, color);
            if blocked {
                done = true;
            } else {
                proof {
                    let rest = ray(board, color, center, dr as int, df as int, k + 1);
                    assert(whole =~= moves@ + rest);
                }
                k += 1;
                rank += dr;
                file += df;
            }
        }
    }
    assert(moves@ =~= whole);
}

/// The moves of a piece along each entry of its table: a leap to each,
/// or, for a piece that slides, a ray in each direction.
fn sweep_table(
    center: Position,
    state: &GameState,
    color: PieceColor,
    table: &[(i8, i8)],
    sliding: bool,
) -> (moves: Vec<Move>)
    requires
        forall|i: int|
            0 <= i < table@.len() ==> -2 <= (#[trigger] table@[i]).0 <= 2 && -2 <= table@[i].1 <= 2,
        sliding ==> forall|i: int|
            0 <= i < table@.len() ==> -1 <= (#[trigger] table@[i]).0 <= 1 && -1 <= table@[i].1 <= 1,
    ensures
        moves@ == sweep(state@.board, color, center, sliding, table@, table@.len() as int),
{
    let mut moves: Vec<Move> = Vec::new();
    let mut i: usize = 0;
    while i < table.len()
        invariant
            i <= table@.len(),
            forall|i: int|
                0 <= i < table@.len() ==> -2 <= (#[trigger] table@[i]).0 <= 2 && -2
                    <= table@[i].1 <= 2,
            sliding ==> forall|i: int|
                0 <= i < table@.len() ==> -1 <= (#[trigger] table@[i]).0 <= 1 && -1
                    <= table@[i].1 <= 1,
            moves@ == sweep(state@.board, color, center, sliding, table@, i as int),
        decreases table@.len() - i,
    {
        let (dr, df) = table[i];
        if sliding {
            cast_ray(center, dr, df, &mut moves, state, color);
        } else {
            let rank: i8 = center.rank() as i8 + dr;
            let file: i8 = center.file() as i8 + df;
            if 0 <= rank && rank <= 7 && 0 <= file && file <= 7 {
                add_move_if_valid(
                    Position::new(rank as u8, file as u8),
                    &mut moves,
                    center,
                    state,
                    color,
                );
            } else {
                assert(moves@ =~= moves@ + hop(
                    state@.board,
                    color,
                    center,
                    dr as int,
                    df as int,
                ));
            }
        }
        i += 1;
    }
    moves
}

fn make_bishop_moves(center: Position, state: &GameState, color: PieceColor) -> (moves: Vec<Move>)
    ensures
        moves@ == piece_moves(state@.board, state@.en_passant, color, PieceKind::Bishop, center),
{
    sweep_table(center, state, color, BISHOP_DIRECTIONS.as_slice(), true)
}

fn make_rook_moves(center: Position, state: &GameState, color: PieceColor) -> (moves: Vec<Move>)
    ensures
        moves@ == piece_moves(state@.board, state@.en_passant, color, PieceKind::Rook, center),
{
    sweep_table(center, state, color, ROOK_DIRECTIONS.as_slice(), true)
}

fn make_queen_moves(center: Position, state: &GameState, color: PieceColor) -> (moves: Vec<Move>)
    ensures
        moves@ == piece_moves(state@.board, state@.en_passant, color, PieceKind::Queen, center),
{
    let mut moves = Vec::new();
    let mut diagonal = make_bishop_moves(center, state, color);
    let mut straight = make_rook_moves(center, state, color);
    moves.append(&mut diagonal);
    moves.append(&mut straight);
    assert(moves@ =~= piece_moves(
        state@.board,
        state@.en_passant,
        color,
        PieceKind::Queen,
        center,
    ));
    moves
}

fn make_knight_moves(center: Position, state: &GameState, color: PieceColor) -> (moves: Vec<Move>)
    ensures
        moves@ == piece_moves(state@.board, state@.en_passant, color, PieceKind::Knight, center),
{
    sweep_table(center, state, color, KNIGHT_JUMPS.as_slice(), false)
}

fn make_king_moves(center: Position, state: &GameState, color: PieceColor) -> (moves: Vec<Move>)
    ensures
        moves@ == piece_moves(state@.board, state@.en_passant, color, PieceKind::King, center),
{
    sweep_table(center, state, color, KING_STEPS.as_slice(), false)
}

fn make_pawn_promotions(from: Position, to: Position, color: PieceColor) -> (moves: Vec<Move>)
    ensures
        moves@ == promotions(from, to, color),
{
    let mut moves = Vec::new();
    moves.push(Move::Promotion { from, to, promoted: Piece::new(PieceKind::Queen, color) });
    moves.push(Move::Promotion { from, to, promoted: Piece::new(PieceKind::Rook, color) });
    moves.push(Move::Promotion { from, to, promoted: Piece::new(PieceKind::Bishop, color) });
    moves.push(Move::Promotion { from, to, promoted: Piece::new(PieceKind::Knight, color) });
    assert(moves@ =~= promotions(from, to, color));
    moves
}

fn make_pawn_promotion_captures(
    from: Position,
    to: Position,
    captured: Piece,
    color: PieceColor,
) -> (moves: Vec<Move>)
    ensures
        moves@ == promotion_captures(from, to, captured, color),
{
    let mut moves = Vec::new();
    moves.push(
        Move::PromotionCapture {
            from,
            to,
            captured,
            promoted: Piece::new(PieceKind::Queen, color),
        },
    );
    moves.push(
        Move::PromotionCapture { from, to, captured, promoted: Piece::new(PieceKind::Rook, color) },
    );
    moves.push(
        Move::PromotionCapture {
            from,
            to,
            captured,
            promoted: Piece::new(PieceKind::Bishop, color),
        },
    );
    moves.push(
        Move::PromotionCapture {
            from,
            to,
            captured,
            promoted: Piece::new(PieceKind::Knight, color),
        },
    );
    assert(moves@ =~= promotion_captures(from, to, captured, color));
    moves
}

fn make_pawn_pushes(center: Position, state: &GameState, info: &PawnMoveInfo) -> (moves: Vec<Move>)
    requires
        *info == PawnMoveInfo::standard(info.color),
    ensures
        moves@ == pawn_pushes(state@.board, info.color, center),
{
    let mut moves = Vec::new();
    proof {
        use_type_invariant(center);
    }
    if center.rank() == info.promotion_rank {
        return moves;
    }
    let push = info.push(center);
    if state.board.get(push).is_none() {
        if center.rank() == info.start_rank {
            let double_push = info.double_push(center);
            if state.board.get(double_push).is_none() {
                moves.push(Move::DoublePawnPush { from: center, to: double_push, en_passant: push });
            }
        }
        assert(moves@ =~= double_push(state@.board, info.color, center));
        if push.rank() == info.promotion_rank {
            let mut promoted = make_pawn_promotions(center, push, info.color);
            moves.append(&mut promoted);
        } else {
            moves.push(Move::Normal { from: center, to: push });
        }
        assert(moves@ =~= pawn_pushes(state@.board, info.color, center));
    }
    moves
}

/// Adds the capture of a pawn onto `target`, the square diagonally ahead
/// of it on the file `df` beside its own, if there is one: of the enemy
/// that stands there, or en passant of the pawn on `beside`.
fn add_pawn_capture(
    moves: &mut Vec<Move>,
    center: Position,
    target: Position,
    beside: Position,
    state: &GameState,
    info: &PawnMoveInfo,
    df: i8,
)
    requires
        *info == PawnMoveInfo::standard(info.color),
        df == 1 || df == -1,
        target == Position::at(
            center.spec_rank() + forward(info.color),
            center.spec_file() + df,
        ),
        target.on_board(),
        target.spec_rank() == center.spec_rank() + forward(info.color),
        target.spec_file() == center.spec_file() + df,
        beside == Position::at(center.spec_rank() as int, center.spec_file() + df),
    ensures
        final(moves)@ == old(moves)@ + pawn_captures_toward(
            state@.board,
            state@.en_passant,
            info.color,
            center,
            df as int,
        ),
{
    let ghost found = pawn_captures_toward(
        state@.board,
        state@.en_passant,
        info.color,
        center,
        df as int,
    );
    if let Some(piece) = state.board.get(target) {
        if piece.color() != info.color {
            if target.rank() == info.promotion_rank {
                let mut promoted = make_pawn_promotion_captures(center, target, piece, info.color);
                moves.append(&mut promoted);
            } else {
                moves.push(Move::Capture { from: center, to: target, captured: piece });
            }
        }
    } else if let Some(ep) = state.en_passant {
        if ep == target {
            moves.push(Move::EnPassant { from: center, to: target, captured: beside });
        }
    }
    assert(moves@ =~= old(moves)@ + found);
}

fn make_pawn_captures(center: Position, state: &GameState, info: &PawnMoveInfo) -> (moves: Vec<
    Move,
>)
    requires
        *info == PawnMoveInfo::standard(info.color),
    ensures
        moves@ == pawn_captures(state@.board, state@.en_passant, info.color, center),
{
    let mut moves = Vec::new();
    proof {
        use_type_invariant(center);
    }
    if center.rank() == info.promotion_rank {
        assert(moves@ =~= pawn_captures(state@.board, state@.en_passant, info.color, center));
        return moves;
    }
    if center.file() > 0 {
        let left_target = info.left_capture(center);
        let beside = info.left_en_passant(center);
        add_pawn_capture(&mut moves, center, left_target, beside, state, info, -1);
    }
    let ghost left = moves@;
    assert(left =~= pawn_captures_toward(
        state@.board,
        state@.en_passant,
        info.color,
        center,
        -1,
    ));
    if center.file() < 7 {
        let right_target = info.right_capture(center);
        let beside = info.right_en_passant(center);
        add_pawn_capture(&mut moves, center, right_target, beside, state, info, 1);
    }
    assert(moves@ =~= pawn_captures(state@.board, state@.en_passant, info.color, center));
    moves
}

fn make_pawn_moves(center: Position, state: &GameState, info: &PawnMoveInfo) -> (moves: Vec<Move>)
    requires
        *info == PawnMoveInfo::standard(info.color),
    ensures
        moves@ == piece_moves(state@.board, state@.en_passant, info.color, PieceKind::Pawn, center),
{
    let mut moves = Vec::new();
    let mut pushes = make_pawn_pushes(center, state, info);
    let mut captures = make_pawn_captures(center, state, info);
    let ghost listed = pushes@ + captures@;
    moves.append(&mut pushes);
    moves.append(&mut captures);
    assert(moves@ =~= listed);
    moves
}

/// Adds the castling move of `color` on `side`, if it holds the right
/// and the squares between king and rook are empty.
fn add_castle_move(moves: &mut Vec<Move>, state: &GameState, color: PieceColor, side: CastleSide)
    ensures
        final(moves)@ == old(moves)@ + state@.castle_on(color, side),
{
    let home: u8 = match color {
        PieceColor::White => 0,
        PieceColor::Black => 7,
    };
    if state.can_castle(color, side) {
        let king = Position::new(home, 4);
        match side {
            CastleSide::KingSide => {
                let rook = Position::new(home, 7);
                let rook_target = Position::new(home, 5);
                let king_target = Position::new(home, 6);
                if state.board.get(rook_target).is_none() && state.board.get(king_target).is_none() {
                    moves.push(
                        Move::Castle {
                            from: king,
                            to: king_target,
                            rook_from: rook,
                            rook_to: rook_target,
                        },
                    );
                }
            },
            CastleSide::QueenSide => {
                let rook = Position::new(home, 0);
                let rook_target = Position::new(home, 3);
                let king_target = Position::new(home, 2);
                if state.board.get(rook_target).is_none() && state.board.get(king_target).is_none()
                    && state.board.get(Position::new(home, 1)).is_none() {
                    moves.push(
                        Move::Castle {
                            from: king,
                            to: king_target,
                            rook_from: rook,
                            rook_to: rook_target,
                        },
                    );
                }
            },
        }
    }
    assert(moves@ =~= old(moves)@ + state@.castle_on(color, side));
}

fn make_castle_moves(state: &GameState, color: PieceColor) -> (moves: Vec<Move>)
    ensures
        moves@ == state@.castle_moves(color),
{
    let mut moves = Vec::new();
    add_castle_move(&mut moves, state, color, CastleSide::KingSide);
    add_castle_move(&mut moves, state, color, CastleSide::QueenSide);
    assert(moves@ =~= state@.castle_moves(color));
    moves
}

/// The pseudo-legal moves for `color` of what `square` holds, taken to
/// stand on `position`: none if it is empty or holds a piece of the other
/// colour.
pub fn get_moves_for_square(
    square: Square,
    position: Position,
    state: &GameState,
    color: PieceColor,
) -> (moves: Vec<Move>)
    ensures
        moves@ == state@.square_moves(color, square, position),
        forall|m: Move|
            moves@.contains(m) <==> (square matches Some(piece) && piece.color == color
                && piece_move(state@.board, state@.en_passant, color, piece.kind, position, m)),
        moves@.no_duplicates(),
{
    if square.is_none() {
        return Vec::new();
    }
    let piece = square.unwrap();
    if piece.color() != color {
        return Vec::new();
    }
    proof {
        use_type_invariant(position);
        lemma_piece_moves_distinct(state@.board, state@.en_passant, color, piece.kind, position);
        assert forall|m: Move|
            piece_moves(state@.board, state@.en_passant, color, piece.kind, position).contains(m)
                <==> piece_move(
                state@.board,
                state@.en_passant,
                color,
                piece.kind,
                position,
                m,
            ) by {
            lemma_piece_moves(state@.board, state@.en_passant, color, piece.kind, position, m);
        }
    }
    match piece.kind() {
        PieceKind::Pawn => make_pawn_moves(position, state, &PawnMoveInfo::new(color)),
        PieceKind::Knight => make_knight_moves(position, state, color),
        PieceKind::Bishop => make_bishop_moves(position, state, color),
        PieceKind::Rook => make_rook_moves(position, state, color),
        PieceKind::Queen => make_queen_moves(position, state, color),
        PieceKind::King => make_king_moves(position, state, color),
    }
}

/// The pseudo-legal moves of `color`: those of each of its pieces, square
/// by square, and then its castling moves.
pub fn get_moves(state: &GameState, color: PieceColor) -> (moves: Vec<Move>)
    ensures
        moves@ == state@.pseudo_legal_moves(color),
        forall|m: Move| moves@.contains(m) <==> state@.pseudo_legal(color, m),
        moves@.no_duplicates(),
{
    let mut moves = Vec::new();
    let mut index: usize = 0;
    while index < 64
        invariant
            index <= 64,
            moves@ == state@.scan(color, index as int),
        decreases 64 - index,
    {
        let position = Position::from_index(index);
        let mut found = get_moves_for_square(state.board.get(position), position, state, color);
        moves.append(&mut found);
        index += 1;
    }
    let mut castles = make_castle_moves(state, color);
    moves.append(&mut castles);
    proof {
        assert forall|m: Move| moves@.contains(m) <==> state@.pseudo_legal(color, m) by {
            lemma_pseudo_legal_moves(state@, color, m);
        }
        lemma_moves_distinct(state@, color);
    }
    moves
}

/// The moves among `moves` that do not leave the mover's king in check,
/// in the same order. Each move is tried out on a copy of the state; a
/// castling move is first held to its own conditions.
pub fn prune_moves_into_check(moves: Vec<Move>, state: &GameState) -> (kept: Vec<Move>)
    requires
        forall|i: int| 0 <= i < moves@.len() ==> state@.can_try(#[trigger] moves@[i]),
    ensures
        kept@ == moves@.filter(state@.safe()),
        forall|m: Move| kept@.contains(m) <==> moves@.contains(m) && state@.keeps_king_safe(m),
{
    let mut kept: Vec<Move> = Vec::new();
    let mut i: usize = 0;
    assert(moves@.take(0) =~= Seq::<Move>::empty());
    proof {
        moves@.take(0).lemma_all_neg_filter_empty(state@.safe());
    }
    while i < moves.len()
        invariant
            i <= moves@.len(),
            forall|i: int| 0 <= i < moves@.len() ==> state@.can_try(#[trigger] moves@[i]),
            kept@ == moves@.take(i as int).filter(state@.safe()),
        decreases moves@.len() - i,
    {
        let m = moves[i];
        assert(state@.can_try(moves@[i as int]));
        let mut keep = true;
        if let Move::Castle { rook_to, .. } = m {
            if state.is_in_check() || state.is_attacked(state.turn.opposite(), rook_to) {
                keep = false;
            }
        }
        if keep {
            let mut tried = GameState::new(
                state.board,
                state.turn,
                state.castling_rights,
                state.en_passant,
                0,
                state.fullmove_number,
            );
            tried.apply_move(m);
            proof {
                lemma_check_is_of_placement(tried@, state@.next(m));
            }
            if tried.is_in_check() {
                keep = false;
            }
        }
        proof {
            moves@.lemma_take_succ_push(i as int);
            moves@.take(i as int).lemma_filter_push(m, state@.safe());
        }
        if keep {
            kept.push(m);
        }
        i += 1;
    }
    proof {
        moves@.lemma_take_len();
        assert forall|m: Move| kept@.contains(m) <==> moves@.contains(m)
            && state@.keeps_king_safe(m) by {
            lemma_filter_holds(moves@, state@.safe(), m);
        }
    }
    kept
}

} // verus!
