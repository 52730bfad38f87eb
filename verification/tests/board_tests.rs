use ruschess::{Board, Piece, PieceColor, PieceKind, Position};

#[test]
fn test_board_empty_board() {
    let board = Board::empty();
    assert_eq!(board.squares(), &[None; 64]);
}

#[test]
fn test_board_rank_refs() {
    let board = Board::empty();
    assert_eq!(&board.rank(0)[..], &board.squares()[0..8]);
    assert_eq!(&board.rank(1)[..], &board.squares()[8..16]);
    assert_eq!(&board.rank(2)[..], &board.squares()[16..24]);
    assert_eq!(&board.rank(3)[..], &board.squares()[24..32]);
    assert_eq!(&board.rank(4)[..], &board.squares()[32..40]);
    assert_eq!(&board.rank(5)[..], &board.squares()[40..48]);
    assert_eq!(&board.rank(6)[..], &board.squares()[48..56]);
    assert_eq!(&board.rank(7)[..], &board.squares()[56..64]);
}

#[test]
fn test_board_file_refs() {
    let board = Board::empty();
    assert_eq!(board.file(0), [None; 8]);
    assert_eq!(board.file(1), [None; 8]);
    assert_eq!(board.file(2), [None; 8]);
    assert_eq!(board.file(3), [None; 8]);
    assert_eq!(board.file(4), [None; 8]);
    assert_eq!(board.file(5), [None; 8]);
    assert_eq!(board.file(6), [None; 8]);
    assert_eq!(board.file(7), [None; 8]);
}

#[test]
fn test_board_find_king() {
    let mut board = Board::empty();
    board.set(Position::try_from("e4").unwrap(), Some(Piece::new(PieceKind::King, PieceColor::White)));
    assert_eq!(board.find_king(PieceColor::White), Some(Position::try_from("e4").unwrap()));
    assert_eq!(board.find_king(PieceColor::Black), None);
}
