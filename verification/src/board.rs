use crate::piece::{Piece, PieceColor, PieceKind};
use crate::position::Position;
use vstd::prelude::*;

verus! {

/// What a square holds: a piece, or nothing.
pub type Square = Option<Piece>;

/// The 64 squares of a board, the square of index `rank * 8 + file` at
/// that place of the array. A board knows nothing of the rules.
#[derive(Copy, Clone, Debug, PartialEq)]
pub struct Board {
    pub squares: [Square; 64],
}

impl View for Board {
    type V = Seq<Square>;

    open spec fn view(&self) -> Seq<Square> {
        self.squares@
    }
}

/// The square with index `i` holds the king of `color`.
pub open spec fn is_king_at(squares: Seq<Square>, color: PieceColor, i: int) -> bool {
    0 <= i < 64 && squares[i] == Some(Piece { kind: PieceKind::King, color })
}

/// Some square holds the king of `color`.
pub open spec fn has_king(squares: Seq<Square>, color: PieceColor) -> bool {
    exists|i: int| is_king_at(squares, color, i)
}

/// `i` is the lowest index of a square that holds the king of `color`.
pub open spec fn is_first_king(squares: Seq<Square>, color: PieceColor, i: int) -> bool {
    is_king_at(squares, color, i) && forall|j: int| 0 <= j < i ==> !is_king_at(squares, color, j)
}

/// The lowest index of a square that holds the king of `color`, where
/// there is one.
pub open spec fn first_king(squares: Seq<Square>, color: PieceColor) -> int {
    choose|i: int| is_first_king(squares, color, i)
}

/// A board with a king of `color` has a lowest square that holds one, and
/// only one index is the lowest.
pub proof fn lemma_first_king(squares: Seq<Square>, color: PieceColor, i: int)
    requires
        is_first_king(squares, color, i),
    ensures
        has_king(squares, color),
        first_king(squares, color) == i,
{
    let chosen = first_king(squares, color);
    assert(is_first_king(squares, color, chosen));
    if chosen < i {
        assert(!is_king_at(squares, color, chosen));
    } else if i < chosen {
        assert(!is_king_at(squares, color, i));
    }
}

/// If no king of `color` stands below the square `n`, but one stands
/// somewhere, then one of the squares from `n` on is the lowest with
/// such a king.
proof fn lemma_first_king_from(squares: Seq<Square>, color: PieceColor, n: int)
    requires
        0 <= n <= 64,
        has_king(squares, color),
        forall|j: int| 0 <= j < n ==> !is_king_at(squares, color, j),
    ensures
        is_first_king(squares, color, first_king(squares, color)),
    decreases 64 - n,
{
    if n == 64 {
        let i = choose|i: int| is_king_at(squares, color, i);
        assert(!is_king_at(squares, color, i));
    } else if is_king_at(squares, color, n) {
        lemma_first_king(squares, color, n);
    } else {
        lemma_first_king_from(squares, color, n + 1);
    }
}

/// A board with a king of `color` has a lowest square that holds one.
pub proof fn lemma_has_first_king(squares: Seq<Square>, color: PieceColor)
    requires
        has_king(squares, color),
    ensures
        is_first_king(squares, color, first_king(squares, color)),
{
    lemma_first_king_from(squares, color, 0);
}

impl Board {
    /// What stands on the square `position`.
    pub open spec fn at(self, position: Position) -> Square {
        self@[position.index()]
    }

    /// The square of the king of `color`: the lowest one, should the board
    /// hold several.
    pub open spec fn king_square(self, color: PieceColor) -> Option<Position> {
        if has_king(self@, color) {
            Some(Position::of_index(first_king(self@, color)))
        } else {
            None
        }
    }

    /// The board with nothing on it.
    pub fn empty() -> (r: Self)
        ensures
            forall|i: int| 0 <= i < 64 ==> r@[i] is None,
    {
        Self { squares: [None;64] }
    }

    pub fn squares(&self) -> (r: &[Square; 64])
        ensures
            r@ == self@,
    {
        &self.squares
    }

    pub fn squares_mut(&mut self) -> (r: &mut [Square; 64])
        ensures
            r@ == old(self)@,
            final(self)@ == final(r)@,
    {
        &mut self.squares
    }

    /// The eight squares of a rank, from the a-file to the h-file.
    pub fn rank(&self, rank: usize) -> (r: [Square; 8])
        requires
            rank <= 7,
        ensures
            r@ == self@.subrange(rank * 8, rank * 8 + 8),
    {
        let mut result: [Square; 8] = [None;8];
        let mut file: usize = 0;
        while file < 8
            invariant
                rank <= 7,
                file <= 8,
                forall|k: int| 0 <= k < file ==> result@[k] == self@[rank * 8 + k],
            decreases 8 - file,
        {
            result[file] = self.squares[rank * 8 + file];
            file += 1;
        }
        assert(result@ =~= self@.subrange(rank * 8, rank * 8 + 8));
        result
    }

    /// The eight squares of a file, from rank 0 to rank 7.
    pub fn file(&self, file: usize) -> (r: [Square; 8])
        requires
            file <= 7,
        ensures
            forall|k: int| 0 <= k < 8 ==> r@[k] == self@[k * 8 + file],
    {
        let mut result: [Square; 8] = [None;8];
        let mut rank: usize = 0;
        while rank < 8
            invariant
                file <= 7,
                rank <= 8,
                forall|k: int| 0 <= k < rank ==> result@[k] == self@[k * 8 + file],
            decreases 8 - rank,
        {
            result[rank] = self.squares[rank * 8 + file];
            rank += 1;
        }
        result
    }

    pub fn get(&self, position: Position) -> (r: Square)
        ensures
            r == self.at(position),
    {
        proof {
            use_type_invariant(position);
        }
        self.squares[usize::from(position)]
    }

    pub fn set(&mut self, position: Position, square: Square)
        ensures
            final(self)@ == old(self)@.update(position.index(), square),
    {
        proof {
            use_type_invariant(position);
        }
        self.squares[usize::from(position)] = square;
    }

    /// The square of the king of `color`: the lowest one, should the board
    /// hold several.
    pub fn find_king(&self, color: PieceColor) -> (r: Option<Position>)
        ensures
            r == self.king_square(color),
            r is Some <==> has_king(self@, color),
            r matches Some(p) ==> p.on_board() && is_first_king(self@, color, p.index()),
    {
        let mut index: usize = 0;
        while index < 64
            invariant
                index <= 64,
                forall|j: int| 0 <= j < index ==> !is_king_at(self@, color, j),
            decreases 64 - index,
        {
            if let Some(piece) = self.squares[index] {
                if piece.kind() == PieceKind::King && piece.color() == color {
                    proof {
                        lemma_first_king(self@, color, index as int);
                    }
                    return Some(Position::from_index(index));
                }
            }
            index += 1;
        }
        None
    }
}

} // verus!
