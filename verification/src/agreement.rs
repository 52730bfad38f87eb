//! The lists of the generator hold the moves that the rules allow, and
//! no others.

use crate::board::Square;
use crate::listing::{
    along, double_push, hop, landing, pawn_captures_toward, pawn_pushes, piece_moves,
    promotion_captures, promotions, ray, sweep, BISHOP_DIRECTIONS, KING_STEPS, KNIGHT_JUMPS,
    ROOK_DIRECTIONS,
};
use crate::moves::Move;
use crate::piece::{Piece, PieceColor, PieceKind};
use crate::position::Position;
use crate::rules::{
    castle_of, forward, king_step, knight_jump, lands, on_grid, on_line, path_clear, pawn_move,
    pawn_promotion_rank, pawn_start_rank, piece_move, promotes_to, ray_index, span, steps, toward,
};
use crate::seqs::{lemma_concat_contains, lemma_single_contains};
use crate::state::{CastleSide, GameStateView};
use vstd::prelude::*;

verus! {

/// The list of moves onto one square holds the move that lands there.
pub proof fn lemma_landing(
    board: Seq<Square>,
    color: PieceColor,
    from: Position,
    to: Position,
    m: Move,
)
    ensures
        landing(board, color, from, to).contains(m) <==> lands(board, color, from, to, m),
{
    match board[to.index()] {
        None => {
            lemma_single_contains(Move::Normal { from, to }, m);
        },
        Some(piece) => {
            if piece.color != color {
                lemma_single_contains(Move::Capture { from, to, captured: piece }, m);
            }
        },
    }
}

/// `to` lies `span(from, to)` steps from `from` in the direction
/// `(dr, df)`.
pub open spec fn on_ray(from: Position, dr: int, df: int, to: Position) -> bool {
    let n = span(from, to);
    n >= 1 && to.spec_rank() == from.spec_rank() + steps(dr, n) && to.spec_file()
        == from.spec_file() + steps(df, n)
}

/// The squares of the ray from its `k`-th up to, but without, `to` are
/// empty.
pub open spec fn clear_from(
    board: Seq<Square>,
    from: Position,
    dr: int,
    df: int,
    k: int,
    to: Position,
) -> bool {
    forall|j: int| k <= j < span(from, to) ==> board[#[trigger] ray_index(from, dr, df, j)] is None
}

/// `m` goes to a square of the ray at least `k` steps away, over empty
/// squares from the `k`-th on.
pub open spec fn ray_move(
    board: Seq<Square>,
    color: PieceColor,
    from: Position,
    dr: int,
    df: int,
    k: int,
    m: Move,
) -> bool {
    let to = m.spec_to();
    &&& to.on_board()
    &&& on_ray(from, dr, df, to)
    &&& span(from, to) >= k
    &&& clear_from(board, from, dr, df, k, to)
    &&& lands(board, color, from, to, m)
}

/// The list of a ray from its `k`-th square on holds the moves to the
/// squares of the ray that can be reached over empty squares.
pub proof fn lemma_ray(
    board: Seq<Square>,
    color: PieceColor,
    from: Position,
    dr: int,
    df: int,
    k: int,
    m: Move,
)
    requires
        from.on_board(),
        -1 <= dr <= 1,
        -1 <= df <= 1,
        dr != 0 || df != 0,
        k >= 1,
    ensures
        ray(board, color, from, dr, df, k).contains(m) <==> ray_move(
            board,
            color,
            from,
            dr,
            df,
            k,
            m,
        ),
    decreases 8 - k,
{
    let rank = from.spec_rank() + steps(dr, k);
    let file = from.spec_file() + steps(df, k);
    let to = m.spec_to();
    if k > 7 || !on_grid(rank, file) {
        assert(!ray(board, color, from, dr, df, k).contains(m));
        if to.on_board() && on_ray(from, dr, df, to) && span(from, to) >= k {
            to.lemma_on_board();
        }
    } else {
        let here = Position::at(rank, file);
        Position::lemma_at(rank, file);
        assert(span(from, here) == k);
        assert(on_ray(from, dr, df, here));
        assert(ray_index(from, dr, df, k) == rank * 8 + file);
        if board[rank * 8 + file] is Some {
            lemma_landing(board, color, from, here, m);
            if ray_move(board, color, from, dr, df, k, m) {
                to.lemma_on_board();
                if span(from, to) > k {
                    assert(board[ray_index(from, dr, df, k)] is None);
                }
                assert(to.index() == here.index());
            }
        } else {
            let head = Move::Normal { from, to: here };
            let rest = ray(board, color, from, dr, df, k + 1);
            lemma_concat_contains(seq![head], rest, m);
            lemma_single_contains(head, m);
            lemma_ray(board, color, from, dr, df, k + 1, m);
            if ray_move(board, color, from, dr, df, k, m) {
                to.lemma_on_board();
                if span(from, to) == k {
                    assert(to.index() == here.index());
                } else {
                    assert(clear_from(board, from, dr, df, k + 1, to));
                }
            }
            if ray_move(board, color, from, dr, df, k + 1, m) {
                assert forall|j: int| k <= j < span(from, to) implies board[#[trigger] ray_index(
                    from,
                    dr,
                    df,
                    j,
                )] is None by {
                    if j > k {
                        assert(board[ray_index(from, dr, df, j)] is None);
                    }
                }
            }
        }
    }
}

/// `m` is in the list of some one of the first `n` entries of a table.
pub open spec fn in_some_entry(
    board: Seq<Square>,
    color: PieceColor,
    from: Position,
    sliding: bool,
    table: Seq<(i8, i8)>,
    n: int,
    m: Move,
) -> bool {
    exists|i: int|
        0 <= i < n && (#[trigger] along(board, color, from, sliding, table[i])).contains(m)
}

/// The list of a table holds what the lists of its entries hold.
pub proof fn lemma_sweep(
    board: Seq<Square>,
    color: PieceColor,
    from: Position,
    sliding: bool,
    table: Seq<(i8, i8)>,
    n: int,
    m: Move,
)
    ensures
        sweep(board, color, from, sliding, table, n).contains(m) <==> in_some_entry(
            board,
            color,
            from,
            sliding,
            table,
            n,
            m,
        ),
    decreases n,
{
    if n <= 0 {
        assert(!sweep(board, color, from, sliding, table, n).contains(m));
    } else {
        lemma_sweep(board, color, from, sliding, table, n - 1, m);
        lemma_concat_contains(
            sweep(board, color, from, sliding, table, n - 1),
            along(board, color, from, sliding, table[n - 1]),
            m,
        );
        if in_some_entry(board, color, from, sliding, table, n - 1, m) {
            let i = choose|i: int|
                0 <= i < n - 1 && (#[trigger] along(board, color, from, sliding, table[i])).contains(
                    m,
                );
            assert(0 <= i < n && along(board, color, from, sliding, table[i]).contains(m));
        }
        if in_some_entry(board, color, from, sliding, table, n, m) {
            let i = choose|i: int|
                0 <= i < n && (#[trigger] along(board, color, from, sliding, table[i])).contains(m);
            if i < n - 1 {
                assert(in_some_entry(board, color, from, sliding, table, n - 1, m));
            }
        }
    }
}

/// `entry` is the change of rank and file from `from` to `to`.
pub open spec fn leads(entry: (i8, i8), from: Position, to: Position) -> bool {
    to.spec_rank() == from.spec_rank() + entry.0 && to.spec_file() == from.spec_file() + entry.1
}

/// The list of a leap holds the move that lands on the square of the
/// leap.
pub proof fn lemma_hop(
    board: Seq<Square>,
    color: PieceColor,
    from: Position,
    entry: (i8, i8),
    m: Move,
)
    requires
        from.on_board(),
    ensures
        along(board, color, from, false, entry).contains(m) <==> m.spec_to().on_board() && leads(
            entry,
            from,
            m.spec_to(),
        ) && lands(board, color, from, m.spec_to(), m),
{
    let rank = from.spec_rank() + entry.0;
    let file = from.spec_file() + entry.1;
    let to = m.spec_to();
    from.lemma_on_board();
    if on_grid(rank, file) {
        let here = Position::at(rank, file);
        Position::lemma_at(rank, file);
        lemma_landing(board, color, from, here, m);
        if to.on_board() && leads(entry, from, to) {
            to.lemma_on_board();
            assert(to.index() == here.index());
        }
    } else {
        assert(!hop(board, color, from, entry.0 as int, entry.1 as int).contains(m));
        if to.on_board() {
            to.lemma_on_board();
        }
    }
}

/// The list of a knight holds the moves that land a knight's jump away.
pub proof fn lemma_knight_moves(board: Seq<Square>, color: PieceColor, from: Position, m: Move)
    requires
        from.on_board(),
    ensures
        sweep(board, color, from, false, KNIGHT_JUMPS@, 8).contains(m) <==> {
            &&& m.spec_to().on_board()
            &&& knight_jump(from, m.spec_to())
            &&& lands(board, color, from, m.spec_to(), m)
        },
{
    let table = KNIGHT_JUMPS@;
    let to = m.spec_to();
    lemma_sweep(board, color, from, false, table, 8, m);
    from.lemma_on_board();
    assert forall|i: int| 0 <= i < 8 implies (along(board, color, from, false, table[i]).contains(m)
        <==> to.on_board() && leads(#[trigger] table[i], from, to) && lands(
        board,
        color,
        from,
        to,
        m,
    )) by {
        lemma_hop(board, color, from, table[i], m);
    }
    if to.on_board() && knight_jump(from, to) && lands(board, color, from, to, m) {
        to.lemma_on_board();
        let dr = to.spec_rank() - from.spec_rank();
        let df = to.spec_file() - from.spec_file();
        let i: int = if dr == -2 {
            if df == -1 {
                0
            } else {
                1
            }
        } else if dr == -1 {
            if df == -2 {
                2
            } else {
                3
            }
        } else if dr == 2 {
            if df == -1 {
                4
            } else {
                5
            }
        } else {
            if df == -2 {
                6
            } else {
                7
            }
        };
        assert(leads(table[i], from, to));
        assert(along(board, color, from, false, table[i]).contains(m));
    }
    if in_some_entry(board, color, from, false, table, 8, m) {
        let i = choose|i: int|
            0 <= i < 8 && (#[trigger] along(board, color, from, false, table[i])).contains(m);
        assert(leads(table[i], from, to));
        to.lemma_on_board();
    }
}

/// The list of a king holds the moves that land a king's step away.
pub proof fn lemma_king_moves(board: Seq<Square>, color: PieceColor, from: Position, m: Move)
    requires
        from.on_board(),
    ensures
        sweep(board, color, from, false, KING_STEPS@, 8).contains(m) <==> {
            &&& m.spec_to().on_board()
            &&& king_step(from, m.spec_to())
            &&& lands(board, color, from, m.spec_to(), m)
        },
{
    let table = KING_STEPS@;
    let to = m.spec_to();
    lemma_sweep(board, color, from, false, table, 8, m);
    from.lemma_on_board();
    assert forall|i: int| 0 <= i < 8 implies (along(board, color, from, false, table[i]).contains(m)
        <==> to.on_board() && leads(#[trigger] table[i], from, to) && lands(
        board,
        color,
        from,
        to,
        m,
    )) by {
        lemma_hop(board, color, from, table[i], m);
    }
    if to.on_board() && king_step(from, to) && lands(board, color, from, to, m) {
        to.lemma_on_board();
        let dr = to.spec_rank() - from.spec_rank();
        let df = to.spec_file() - from.spec_file();
        let i: int = if df == -1 {
            if dr == -1 {
                0
            } else if dr == 1 {
                1
            } else {
                2
            }
        } else if df == 1 {
            if dr == -1 {
                3
            } else if dr == 1 {
                4
            } else {
                5
            }
        } else {
            if dr == -1 {
                6
            } else {
                7
            }
        };
        assert(leads(table[i], from, to));
        assert(along(board, color, from, false, table[i]).contains(m));
    }
    if in_some_entry(board, color, from, false, table, 8, m) {
        let i = choose|i: int|
            0 <= i < 8 && (#[trigger] along(board, color, from, false, table[i])).contains(m);
        assert(leads(table[i], from, to));
        to.lemma_on_board();
    }
}

/// `entry` is the direction from `from` to `to`.
pub open spec fn points(entry: (i8, i8), from: Position, to: Position) -> bool {
    entry.0 == toward(from.spec_rank() as int, to.spec_rank() as int) && entry.1 == toward(
        from.spec_file() as int,
        to.spec_file() as int,
    )
}

/// The list of one direction of a sliding piece holds the moves along
/// the line in that direction, over empty squares.
pub proof fn lemma_slide(
    board: Seq<Square>,
    color: PieceColor,
    from: Position,
    entry: (i8, i8),
    m: Move,
)
    requires
        from.on_board(),
        -1 <= entry.0 <= 1,
        -1 <= entry.1 <= 1,
        entry.0 != 0 || entry.1 != 0,
    ensures
        along(board, color, from, true, entry).contains(m) <==> {
            &&& m.spec_to().on_board()
            &&& on_line(from, m.spec_to(), true, true)
            &&& points(entry, from, m.spec_to())
            &&& path_clear(board, from, m.spec_to())
            &&& lands(board, color, from, m.spec_to(), m)
        },
{
    let to = m.spec_to();
    lemma_ray(board, color, from, entry.0 as int, entry.1 as int, 1, m);
    from.lemma_on_board();
    if to.on_board() {
        to.lemma_on_board();
    }
}

/// The list of a bishop, of a rook and of a queen hold the moves along
/// the lines of the piece, over empty squares.
pub proof fn lemma_slider_moves(
    board: Seq<Square>,
    color: PieceColor,
    from: Position,
    straight: bool,
    m: Move,
)
    requires
        from.on_board(),
    ensures
        sweep(
            board,
            color,
            from,
            true,
            if straight {
                ROOK_DIRECTIONS@
            } else {
                BISHOP_DIRECTIONS@
            },
            4,
        ).contains(m) <==> {
            &&& m.spec_to().on_board()
            &&& on_line(from, m.spec_to(), straight, !straight)
            &&& path_clear(board, from, m.spec_to())
            &&& lands(board, color, from, m.spec_to(), m)
        },
{
    let table = if straight {
        ROOK_DIRECTIONS@
    } else {
        BISHOP_DIRECTIONS@
    };
    let to = m.spec_to();
    lemma_sweep(board, color, from, true, table, 4, m);
    from.lemma_on_board();
    assert forall|i: int| 0 <= i < 4 implies (along(board, color, from, true, table[i]).contains(m)
        <==> to.on_board() && on_line(from, to, true, true) && points(
        #[trigger] table[i],
        from,
        to,
    ) && path_clear(board, from, to) && lands(board, color, from, to, m)) by {
        lemma_slide(board, color, from, table[i], m);
    }
    if to.on_board() && on_line(from, to, straight, !straight) && path_clear(board, from, to)
        && lands(board, color, from, to, m) {
        to.lemma_on_board();
        let dr = toward(from.spec_rank() as int, to.spec_rank() as int);
        let df = toward(from.spec_file() as int, to.spec_file() as int);
        let i: int = if straight {
            if dr == 1 {
                0
            } else if dr == -1 {
                1
            } else if df == 1 {
                2
            } else {
                3
            }
        } else {
            if dr == -1 {
                if df == -1 {
                    0
                } else {
                    1
                }
            } else {
                if df == -1 {
                    2
                } else {
                    3
                }
            }
        };
        assert(points(table[i], from, to));
        assert(along(board, color, from, true, table[i]).contains(m));
    }
    if in_some_entry(board, color, from, true, table, 4, m) {
        let i = choose|i: int|
            0 <= i < 4 && (#[trigger] along(board, color, from, true, table[i])).contains(m);
        assert(points(table[i], from, to));
        to.lemma_on_board();
    }
}

/// The list of promotions holds the promotions on `to` to a queen, a
/// rook, a bishop and a knight of the pawn's colour.
pub proof fn lemma_promotions(from: Position, to: Position, color: PieceColor, m: Move)
    ensures
        promotions(from, to, color).contains(m) <==> (m matches Move::Promotion {
            from: f,
            to: t,
            promoted,
        } && f == from && t == to && promotes_to(color, promoted)),
{
    let list = promotions(from, to, color);
    assert(list.len() == 4);
    if let Move::Promotion { from: f, to: t, promoted } = m {
        if f == from && t == to && promotes_to(color, promoted) {
            let i: int = match promoted.kind {
                PieceKind::Queen => 0,
                PieceKind::Rook => 1,
                PieceKind::Bishop => 2,
                _ => 3,
            };
            assert(list[i] == m);
        }
    }
    if list.contains(m) {
        let i = choose|i: int| 0 <= i < list.len() && list[i] == m;
        assert(list[i] == m);
    }
}

/// The list of promotions with capture holds the captures of `captured`
/// on `to` with promotion to a queen, a rook, a bishop and a knight of
/// the pawn's colour.
pub proof fn lemma_promotion_captures(
    from: Position,
    to: Position,
    captured: Piece,
    color: PieceColor,
    m: Move,
)
    ensures
        promotion_captures(from, to, captured, color).contains(m) <==> (
        m matches Move::PromotionCapture { from: f, to: t, captured: c, promoted } && f == from && t
            == to && c == captured && promotes_to(color, promoted)),
{
    let list = promotion_captures(from, to, captured, color);
    assert(list.len() == 4);
    if let Move::PromotionCapture { from: f, to: t, captured: c, promoted } = m {
        if f == from && t == to && c == captured && promotes_to(color, promoted) {
            let i: int = match promoted.kind {
                PieceKind::Queen => 0,
                PieceKind::Rook => 1,
                PieceKind::Bishop => 2,
                _ => 3,
            };
            assert(list[i] == m);
        }
    }
    if list.contains(m) {
        let i = choose|i: int| 0 <= i < list.len() && list[i] == m;
        assert(list[i] == m);
    }
}

/// `m` is a push of a pawn: one square, two squares, or a promotion
/// without capture.
pub open spec fn is_push(m: Move) -> bool {
    m is Normal || m is DoublePawnPush || m is Promotion
}

/// The list of pushes of a pawn holds its pawn moves that are pushes.
pub proof fn lemma_pawn_pushes(
    board: Seq<Square>,
    en_passant: Option<Position>,
    color: PieceColor,
    from: Position,
    m: Move,
)
    requires
        from.on_board(),
    ensures
        pawn_pushes(board, color, from).contains(m) <==> is_push(m) && pawn_move(
            board,
            en_passant,
            color,
            from,
            m,
        ),
{
    let rank = from.spec_rank() + forward(color);
    let file = from.spec_file() as int;
    from.lemma_on_board();
    match m {
        Move::Normal { to, .. } => {
            if to.on_board() {
                to.lemma_on_board();
            }
        },
        Move::Promotion { to, .. } => {
            if to.on_board() {
                to.lemma_on_board();
            }
        },
        Move::DoublePawnPush { to, en_passant: over, .. } => {
            if to.on_board() {
                to.lemma_on_board();
            }
            if over.on_board() {
                over.lemma_on_board();
            }
        },
        _ => {},
    }
    if !on_grid(rank, file) || board[rank * 8 + file] is Some {
        assert(!pawn_pushes(board, color, from).contains(m));
    } else {
        let ahead = Position::at(rank, file);
        Position::lemma_at(rank, file);
        let first = double_push(board, color, from);
        let second = if rank == pawn_promotion_rank(color) {
            promotions(from, ahead, color)
        } else {
            seq![Move::Normal { from, to: ahead }]
        };
        lemma_concat_contains(first, second, m);
        lemma_promotions(from, ahead, color, m);
        lemma_single_contains(Move::Normal { from, to: ahead }, m);
        if from.spec_rank() == pawn_start_rank(color) {
            let beyond = Position::at(rank + forward(color), file);
            Position::lemma_at(rank + forward(color), file);
            lemma_single_contains(
                Move::DoublePawnPush { from, to: beyond, en_passant: ahead },
                m,
            );
            if board[(rank + forward(color)) * 8 + file] is Some {
                assert(!first.contains(m));
            }
        } else {
            assert(!first.contains(m));
        }
    }
}

/// The list of captures of a pawn toward one side holds its pawn moves
/// that capture on the file on that side.
pub proof fn lemma_pawn_captures_toward(
    board: Seq<Square>,
    en_passant: Option<Position>,
    color: PieceColor,
    from: Position,
    df: int,
    m: Move,
)
    requires
        from.on_board(),
        df == 1 || df == -1,
    ensures
        pawn_captures_toward(board, en_passant, color, from, df).contains(m) <==> !is_push(m)
            && m.spec_to().spec_file() == from.spec_file() + df && pawn_move(
            board,
            en_passant,
            color,
            from,
            m,
        ),
{
    let rank = from.spec_rank() + forward(color);
    let file = from.spec_file() + df;
    let to = m.spec_to();
    from.lemma_on_board();
    if to.on_board() {
        to.lemma_on_board();
    }
    if let Move::EnPassant { captured, .. } = m {
        if captured.on_board() {
            captured.lemma_on_board();
        }
    }
    if !on_grid(rank, file) {
        assert(!pawn_captures_toward(board, en_passant, color, from, df).contains(m));
    } else {
        let target = Position::at(rank, file);
        Position::lemma_at(rank, file);
        match board[rank * 8 + file] {
            Some(piece) => {
                if piece.color == color {
                    assert(!pawn_captures_toward(board, en_passant, color, from, df).contains(m));
                } else if rank == pawn_promotion_rank(color) {
                    lemma_promotion_captures(from, target, piece, color, m);
                } else {
                    lemma_single_contains(Move::Capture { from, to: target, captured: piece }, m);
                }
            },
            None => {
                if en_passant == Some(target) {
                    let beside = Position::at(from.spec_rank() as int, file);
                    Position::lemma_at(from.spec_rank() as int, file);
                    lemma_single_contains(
                        Move::EnPassant { from, to: target, captured: beside },
                        m,
                    );
                } else {
                    assert(!pawn_captures_toward(board, en_passant, color, from, df).contains(m));
                }
            },
        }
    }
}

/// The list of the moves of a piece holds the moves that the rules give
/// the piece, and no others.
pub proof fn lemma_piece_moves(
    board: Seq<Square>,
    en_passant: Option<Position>,
    color: PieceColor,
    kind: PieceKind,
    from: Position,
    m: Move,
)
    requires
        from.on_board(),
    ensures
        piece_moves(board, en_passant, color, kind, from).contains(m) <==> piece_move(
            board,
            en_passant,
            color,
            kind,
            from,
            m,
        ),
{
    match kind {
        PieceKind::Pawn => {
            let pushes = pawn_pushes(board, color, from);
            let left = pawn_captures_toward(board, en_passant, color, from, -1);
            let right = pawn_captures_toward(board, en_passant, color, from, 1);
            lemma_concat_contains(pushes, left + right, m);
            lemma_concat_contains(left, right, m);
            lemma_pawn_pushes(board, en_passant, color, from, m);
            lemma_pawn_captures_toward(board, en_passant, color, from, -1, m);
            lemma_pawn_captures_toward(board, en_passant, color, from, 1, m);
        },
        PieceKind::Knight => {
            lemma_knight_moves(board, color, from, m);
        },
        PieceKind::King => {
            lemma_king_moves(board, color, from, m);
        },
        PieceKind::Bishop => {
            lemma_slider_moves(board, color, from, false, m);
        },
        PieceKind::Rook => {
            lemma_slider_moves(board, color, from, true, m);
        },
        PieceKind::Queen => {
            lemma_slider_moves(board, color, from, false, m);
            lemma_slider_moves(board, color, from, true, m);
            lemma_concat_contains(
                sweep(board, color, from, true, BISHOP_DIRECTIONS@, 4),
                sweep(board, color, from, true, ROOK_DIRECTIONS@, 4),
                m,
            );
        },
    }
}

/// `m` is a move of a piece of `color` that stands on one of the first
/// `n` squares.
pub open spec fn found_below(s: GameStateView, color: PieceColor, n: int, m: Move) -> bool {
    &&& !(m is Castle)
    &&& m.spec_from().on_board()
    &&& m.spec_from().index() < n
    &&& s.board[m.spec_from().index()] matches Some(piece)
    &&& piece.color == color
    &&& piece_move(s.board, s.en_passant, color, piece.kind, m.spec_from(), m)
}

/// A move that the rules give a piece on `from` starts on `from` and is
/// no castling move.
pub proof fn lemma_piece_move_starts(
    board: Seq<Square>,
    en_passant: Option<Position>,
    color: PieceColor,
    kind: PieceKind,
    from: Position,
    m: Move,
)
    requires
        piece_move(board, en_passant, color, kind, from, m),
    ensures
        m.spec_from() == from,
        !(m is Castle),
{
}

/// The list of the first `n` squares holds the moves of the pieces of
/// `color` on those squares.
pub proof fn lemma_scan(s: GameStateView, color: PieceColor, n: int, m: Move)
    requires
        0 <= n <= 64,
    ensures
        s.scan(color, n).contains(m) <==> found_below(s, color, n, m),
    decreases n,
{
    if n <= 0 {
        assert(!s.scan(color, n).contains(m));
    } else {
        let here = Position::of_index(n - 1);
        let square = s.board[n - 1];
        lemma_scan(s, color, n - 1, m);
        lemma_concat_contains(s.scan(color, n - 1), s.square_moves(color, square, here), m);
        match square {
            Some(piece) => {
                if piece.color == color {
                    lemma_piece_moves(s.board, s.en_passant, color, piece.kind, here, m);
                    if piece_move(s.board, s.en_passant, color, piece.kind, here, m) {
                        lemma_piece_move_starts(
                            s.board,
                            s.en_passant,
                            color,
                            piece.kind,
                            here,
                            m,
                        );
                    }
                } else {
                    assert(!s.square_moves(color, square, here).contains(m));
                }
            },
            None => {
                assert(!s.square_moves(color, square, here).contains(m));
            },
        }
    }
}

/// The list of pseudo-legal moves of a side holds the moves that are
/// pseudo-legal for it, and no others.
pub proof fn lemma_pseudo_legal_moves(s: GameStateView, color: PieceColor, m: Move)
    ensures
        s.pseudo_legal_moves(color).contains(m) <==> s.pseudo_legal(color, m),
{
    let king_side = s.castle_on(color, CastleSide::KingSide);
    let queen_side = s.castle_on(color, CastleSide::QueenSide);
    lemma_scan(s, color, 64, m);
    lemma_concat_contains(s.scan(color, 64), s.castle_moves(color), m);
    lemma_concat_contains(king_side, queen_side, m);
    lemma_single_contains(castle_of(color, CastleSide::KingSide), m);
    lemma_single_contains(castle_of(color, CastleSide::QueenSide), m);
    if !s.castle_open(color, CastleSide::KingSide) {
        assert(!king_side.contains(m));
    }
    if !s.castle_open(color, CastleSide::QueenSide) {
        assert(!queen_side.contains(m));
    }
    if m.spec_from().on_board() {
        m.spec_from().lemma_on_board();
    }
}

} // verus!
