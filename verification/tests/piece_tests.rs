use ruschess::PieceColor;

#[test]
fn test_piece_color_opposite() {
    assert_eq!(PieceColor::Black.opposite(), PieceColor::White);
    assert_eq!(PieceColor::White.opposite(), PieceColor::Black);
}
