use vstd::prelude::*;
use vstd::std_specs::convert::{FromSpecImpl, TryFromSpecImpl};
use vstd::string::{StrSliceExecFns, StringExecFns};

verus! {

/// A square of the board, held as `rank * 8 + file`.
///
/// Ranks and files both run from 0 to 7: rank 0 is White's back rank and
/// file 0 is the a-file.
#[derive(Clone, Copy, Debug, PartialEq, Eq, Structural)]
pub struct Position {
    pub(crate) data: u8,
}

/// The file letter `a`..`h` taken as a file number, if it is one.
pub open spec fn file_of_letter(c: char) -> Option<u8> {
    if 'a' <= c <= 'h' {
        Some((c as int - 'a' as int) as u8)
    } else {
        None
    }
}

/// The rank digit `1`..`8` taken as a rank number, if it is one.
pub open spec fn rank_of_digit(c: char) -> Option<u8> {
    if '1' <= c <= '8' {
        Some((c as int - '1' as int) as u8)
    } else {
        None
    }
}

/// The square named by a file letter and a rank digit, if they are such.
pub open spec fn square_named(file: char, rank: char) -> Option<Position> {
    match (file_of_letter(file), rank_of_digit(rank)) {
        (Some(f), Some(r)) => Some(Position::at(r as int, f as int)),
        _ => None,
    }
}

/// The text takes exactly two bytes in UTF-8: two ASCII characters, or one
/// character of the two-byte range.
pub open spec fn is_two_bytes(s: Seq<char>) -> bool {
    ||| s.len() == 2 && (s[0] as int) < 0x80 && (s[1] as int) < 0x80
    ||| s.len() == 1 && 0x80 <= (s[0] as int) < 0x800
}

/// The reading of a square written in algebraic notation, `a1` to `h8`:
/// the square, or why the text names none.
pub open spec fn parse_square(s: Seq<char>) -> Result<Position, &'static str> {
    if !is_two_bytes(s) {
        Err("Position must be 2 characters long")
    } else if file_of_letter(s[0]) is None {
        Err("Invalid file")
    } else if rank_of_digit(s[1]) is None {
        Err("Invalid rank")
    } else {
        Ok(Position::at(rank_of_digit(s[1])->0 as int, file_of_letter(s[0])->0 as int))
    }
}

impl Position {
    /// Every square lies on the board.
    #[verifier::type_invariant]
    pub open(crate) spec fn on_board(self) -> bool {
        self.data < 64
    }

    /// The flat index of the square, `rank * 8 + file`.
    pub open(crate) spec fn index(self) -> int {
        self.data as int
    }

    /// The square with the given rank and file.
    pub open(crate) spec fn at(rank: int, file: int) -> Position {
        Position { data: (rank * 8 + file) as u8 }
    }

    /// The square with the given flat index.
    pub open(crate) spec fn of_index(index: int) -> Position {
        Position { data: index as u8 }
    }

    /// The rank of the square, from 0 for White's back rank to 7.
    pub open spec fn spec_rank(&self) -> u8 {
        (self.index() / 8) as u8
    }

    /// The file of the square, from 0 for the a-file to 7.
    pub open spec fn spec_file(&self) -> u8 {
        (self.index() % 8) as u8
    }

    /// The square's name in algebraic notation.
    pub open spec fn name(self) -> Seq<char> {
        seq![(('a' as int) + self.spec_file()) as char, (('1' as int) + self.spec_rank()) as char]
    }

    /// `at` builds the square of the board that its rank and file name.
    pub proof fn lemma_at(rank: int, file: int)
        requires
            0 <= rank <= 7,
            0 <= file <= 7,
        ensures
            Self::at(rank, file).on_board(),
            Self::at(rank, file).index() == rank * 8 + file,
            Self::at(rank, file).spec_rank() == rank,
            Self::at(rank, file).spec_file() == file,
    {
    }

    /// Every square of the board has an index under 64, a rank and a file
    /// under 8, and is the square `at` its rank and file.
    pub proof fn lemma_on_board(self)
        requires
            self.on_board(),
        ensures
            0 <= self.index() < 64,
            self.spec_rank() <= 7,
            self.spec_file() <= 7,
            self.index() == self.spec_rank() * 8 + self.spec_file(),
            self == Self::at(self.spec_rank() as int, self.spec_file() as int),
    {
    }

    /// The square with the given rank and file, both from 0 to 7.
    pub fn new(rank: u8, file: u8) -> (r: Self)
        requires
            rank <= 7,
            file <= 7,
        ensures
            r == Self::at(rank as int, file as int),
            r.on_board(),
            r.spec_rank() == rank,
            r.spec_file() == file,
    {
        assert((rank << 3) | file == rank * 8 + file) by (bit_vector)
            requires
                rank <= 7,
                file <= 7,
        ;
        Self { data: (rank << 3) | file }
    }

    /// The square with the given flat index.
    pub fn from_index(index: usize) -> (r: Self)
        requires
            index < 64,
        ensures
            r == Self::of_index(index as int),
            r.index() == index,
            r.on_board(),
    {
        Self { data: index as u8 }
    }

    /// The rank of the square, from 0 for White's back rank to 7.
    #[inline]
    #[verifier::when_used_as_spec(spec_rank)]
    pub fn rank(&self) -> (r: u8)
        ensures
            r == self.spec_rank(),
            r <= 7,
    {
        proof {
            use_type_invariant(self);
        }
        let d = self.data;
        assert(d >> 3 == d / 8) by (bit_vector);
        d >> 3
    }

    /// The file of the square, from 0 for the a-file to 7.
    #[inline]
    #[verifier::when_used_as_spec(spec_file)]
    pub fn file(&self) -> (r: u8)
        ensures
            r == self.spec_file(),
            r <= 7,
    {
        let d = self.data;
        assert(d & 0b00000111 == d % 8) by (bit_vector);
        d & 0b00000111
    }

    /// The square named by a file letter `a`..`h` and a rank digit
    /// `1`..`8`, if they are such.
    pub(crate) fn named(file: char, rank: char) -> (r: Option<Self>)
        ensures
            r == square_named(file, rank),
            r matches Some(p) ==> p.on_board(),
    {
        let file: u8 = match file {
            'a' => 0,
            'b' => 1,
            'c' => 2,
            'd' => 3,
            'e' => 4,
            'f' => 5,
            'g' => 6,
            'h' => 7,
            _ => { return None; },
        };
        let rank: u8 = match rank {
            '1' => 0,
            '2' => 1,
            '3' => 2,
            '4' => 3,
            '5' => 4,
            '6' => 5,
            '7' => 6,
            '8' => 7,
            _ => { return None; },
        };
        Some(Self::new(rank, file))
    }

    /// The square's name in algebraic notation, `a1` to `h8`.
    pub fn to_string(&self) -> (r: String)
        ensures
            r@ == self.name(),
    {
        let file = match self.file() {
            0 => "a",
            1 => "b",
            2 => "c",
            3 => "d",
            4 => "e",
            5 => "f",
            6 => "g",
            _ => "h",
        };
        let rank = match self.rank() {
            0 => "1",
            1 => "2",
            2 => "3",
            3 => "4",
            4 => "5",
            5 => "6",
            6 => "7",
            _ => "8",
        };
        proof {
            reveal_strlit("a");
            reveal_strlit("b");
            reveal_strlit("c");
            reveal_strlit("d");
            reveal_strlit("e");
            reveal_strlit("f");
            reveal_strlit("g");
            reveal_strlit("h");
            reveal_strlit("1");
            reveal_strlit("2");
            reveal_strlit("3");
            reveal_strlit("4");
            reveal_strlit("5");
            reveal_strlit("6");
            reveal_strlit("7");
            reveal_strlit("8");
        }
        let r = String::from_str(file).concat(rank);
        assert(r@ =~= self.name());
        r
    }
}

impl From<Position> for (u8, u8) {
    fn from(position: Position) -> (r: Self) {
        (position.rank(), position.file())
    }
}

impl FromSpecImpl<Position> for (u8, u8) {
    open spec fn obeys_from_spec() -> bool {
        true
    }

    open spec fn from_spec(position: Position) -> Self {
        (position.spec_rank(), position.spec_file())
    }
}

impl From<Position> for usize {
    fn from(position: Position) -> (r: Self) {
        position.data as usize
    }
}

impl FromSpecImpl<Position> for usize {
    open spec fn obeys_from_spec() -> bool {
        true
    }

    open spec fn from_spec(position: Position) -> Self {
        position.index() as usize
    }
}

impl From<Position> for u8 {
    fn from(position: Position) -> (r: Self) {
        position.data
    }
}

impl FromSpecImpl<Position> for u8 {
    open spec fn obeys_from_spec() -> bool {
        true
    }

    open spec fn from_spec(position: Position) -> Self {
        position.index() as u8
    }
}

impl<'a> TryFrom<&'a str> for Position {
    type Error = &'static str;

    /// The square that a text names in algebraic notation, `a1` to `h8`,
    /// or why it names none.
    fn try_from(value: &'a str) -> (r: Result<Self, Self::Error>) {
        let n = value.unicode_len();
        if n == 1 {
            let c = value.get_char(0);
            if c >= '\u{80}' && c <= '\u{7ff}' {
                return Err("Invalid file");
            }
            return Err("Position must be 2 characters long");
        }
        if n != 2 {
            return Err("Position must be 2 characters long");
        }
        let f = value.get_char(0);
        let r = value.get_char(1);
        if f >= '\u{80}' || r >= '\u{80}' {
            return Err("Position must be 2 characters long");
        }
        let file: u8 = match f {
            'a' => 0,
            'b' => 1,
            'c' => 2,
            'd' => 3,
            'e' => 4,
            'f' => 5,
            'g' => 6,
            'h' => 7,
            _ => { return Err("Invalid file"); },
        };
        let rank: u8 = match r {
            '1' => 0,
            '2' => 1,
            '3' => 2,
            '4' => 3,
            '5' => 4,
            '6' => 5,
            '7' => 6,
            '8' => 7,
            _ => { return Err("Invalid rank"); },
        };
        Ok(Self::new(rank, file))
    }
}

impl<'a> TryFromSpecImpl<&'a str> for Position {
    open spec fn obeys_try_from_spec() -> bool {
        true
    }

    open spec fn try_from_spec(value: &'a str) -> Result<Self, &'static str> {
        parse_square(value@)
    }
}

} // verus!
