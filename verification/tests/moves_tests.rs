use ruschess::{
    get_moves, get_moves_for_square, prune_moves_into_check, Board, GameState, Move, Piece,
    PieceColor, PieceKind, Position,
};

#[test]
fn test_get_moves_pawn_pushes() {
    let mut board = Board::empty();
    board.set(
        Position::new(1, 0),
        Some(Piece::new(PieceKind::Pawn, PieceColor::White)),
    );
    let state = GameState::new(board, PieceColor::White, 0b0000, None, 0, 0);
    let moves = get_moves(&state, PieceColor::White);
    assert_eq!(moves.len(), 2);
    assert!(moves.contains(&Move::Normal {
        from: Position::new(1, 0),
        to: Position::new(2, 0)
    }));
    assert!(moves.contains(&Move::DoublePawnPush {
        from: Position::new(1, 0),
        to: Position::new(3, 0),
        en_passant: Position::new(2, 0)
    }));

    let mut board = Board::empty();
    board.set(
        Position::new(6, 0),
        Some(Piece::new(PieceKind::Pawn, PieceColor::Black)),
    );
    let state = GameState::new(board, PieceColor::Black, 0b0000, None, 0, 0);
    let moves = get_moves(&state, PieceColor::Black);
    assert_eq!(moves.len(), 2);
    assert!(moves.contains(&Move::Normal {
        from: Position::new(6, 0),
        to: Position::new(5, 0)
    }));
    assert!(moves.contains(&Move::DoublePawnPush {
        from: Position::new(6, 0),
        to: Position::new(4, 0),
        en_passant: Position::new(5, 0)
    }));
}
#[test]
fn test_get_moves_pawn_captures() {
    let mut board = Board::empty();
    board.set(
        Position::new(4, 2),
        Some(Piece::new(PieceKind::Pawn, PieceColor::White)),
    );
    board.set(
        Position::new(5, 1),
        Some(Piece::new(PieceKind::Pawn, PieceColor::Black)),
    );
    board.set(
        Position::new(5, 3),
        Some(Piece::new(PieceKind::Pawn, PieceColor::Black)),
    );

    let state = GameState::new(board, PieceColor::White, 0b0000, None, 0, 0);
    let moves = get_moves(&state, PieceColor::White);
    assert_eq!(moves.len(), 3);
    assert!(moves.contains(&Move::Capture {
        from: Position::new(4, 2),
        to: Position::new(5, 1),
        captured: Piece::new(PieceKind::Pawn, PieceColor::Black)
    }));
    assert!(moves.contains(&Move::Capture {
        from: Position::new(4, 2),
        to: Position::new(5, 3),
        captured: Piece::new(PieceKind::Pawn, PieceColor::Black)
    }));

    let mut board = Board::empty();
    board.set(
        Position::new(4, 2),
        Some(Piece::new(PieceKind::Pawn, PieceColor::Black)),
    );
    board.set(
        Position::new(3, 1),
        Some(Piece::new(PieceKind::Pawn, PieceColor::White)),
    );
    board.set(
        Position::new(3, 3),
        Some(Piece::new(PieceKind::Pawn, PieceColor::White)),
    );

    let state = GameState::new(board, PieceColor::Black, 0b0000, None, 0, 0);
    let moves = get_moves(&state, PieceColor::Black);
    assert_eq!(moves.len(), 3);
    assert!(moves.contains(&Move::Capture {
        from: Position::new(4, 2),
        to: Position::new(3, 1),
        captured: Piece::new(PieceKind::Pawn, PieceColor::White)
    }));
    assert!(moves.contains(&Move::Capture {
        from: Position::new(4, 2),
        to: Position::new(3, 3),
        captured: Piece::new(PieceKind::Pawn, PieceColor::White)
    }));
}
#[test]
fn test_get_moves_pawn_en_passant() {
    // White left
    let mut board = Board::empty();
    board.set(
        Position::new(4, 2),
        Some(Piece::new(PieceKind::Pawn, PieceColor::White)),
    );
    board.set(
        Position::new(4, 1),
        Some(Piece::new(PieceKind::Pawn, PieceColor::Black)),
    );

    let state = GameState::new(
        board,
        PieceColor::White,
        0b0000,
        Some(Position::new(5, 1)),
        0,
        0,
    );
    let moves = get_moves(&state, PieceColor::White);
    assert_eq!(moves.len(), 2);
    assert!(moves.contains(&Move::Normal {
        from: Position::new(4, 2),
        to: Position::new(5, 2)
    }));
    assert!(moves.contains(&Move::EnPassant {
        from: Position::new(4, 2),
        to: Position::new(5, 1),
        captured: Position::new(4, 1)
    }));

    // White right
    let mut board = Board::empty();
    board.set(
        Position::new(4, 2),
        Some(Piece::new(PieceKind::Pawn, PieceColor::White)),
    );
    board.set(
        Position::new(4, 3),
        Some(Piece::new(PieceKind::Pawn, PieceColor::Black)),
    );

    let state = GameState::new(
        board,
        PieceColor::White,
        0b0000,
        Some(Position::new(5, 3)),
        0,
        0,
    );
    let moves = get_moves(&state, PieceColor::White);
    assert_eq!(moves.len(), 2);
    assert!(moves.contains(&Move::Normal {
        from: Position::new(4, 2),
        to: Position::new(5, 2)
    }));
    assert!(moves.contains(&Move::EnPassant {
        from: Position::new(4, 2),
        to: Position::new(5, 3),
        captured: Position::new(4, 3)
    }));

    // Black left
    let mut board = Board::empty();
    board.set(
        Position::new(4, 2),
        Some(Piece::new(PieceKind::Pawn, PieceColor::Black)),
    );
    board.set(
        Position::new(4, 1),
        Some(Piece::new(PieceKind::Pawn, PieceColor::White)),
    );

    let state = GameState::new(
        board,
        PieceColor::Black,
        0b0000,
        Some(Position::new(3, 1)),
        0,
        0,
    );
    let moves = get_moves(&state, PieceColor::Black);
    assert_eq!(moves.len(), 2);
    assert!(moves.contains(&Move::Normal {
        from: Position::new(4, 2),
        to: Position::new(3, 2)
    }));
    assert!(moves.contains(&Move::EnPassant {
        from: Position::new(4, 2),
        to: Position::new(3, 1),
        captured: Position::new(4, 1)
    }));

    // Black right
    let mut board = Board::empty();
    board.set(
        Position::new(4, 2),
        Some(Piece::new(PieceKind::Pawn, PieceColor::Black)),
    );
    board.set(
        Position::new(4, 3),
        Some(Piece::new(PieceKind::Pawn, PieceColor::White)),
    );

    let state = GameState::new(
        board,
        PieceColor::Black,
        0b0000,
        Some(Position::new(3, 3)),
        0,
        0,
    );
    let moves = get_moves(&state, PieceColor::Black);
    assert_eq!(moves.len(), 2);
    assert!(moves.contains(&Move::Normal {
        from: Position::new(4, 2),
        to: Position::new(3, 2)
    }));
    assert!(moves.contains(&Move::EnPassant {
        from: Position::new(4, 2),
        to: Position::new(3, 3),
        captured: Position::new(4, 3)
    }));
}

#[test]
fn test_get_moves_pawn_promotions() {
    let mut board = Board::empty();
    board.set(
        Position::new(6, 0),
        Some(Piece::new(PieceKind::Pawn, PieceColor::White)),
    );
    let state = GameState::new(board, PieceColor::White, 0b0000, None, 0, 0);
    let moves = get_moves(&state, PieceColor::White);
    assert_eq!(moves.len(), 4);
    assert!(moves.contains(&Move::Promotion {
        from: Position::new(6, 0),
        to: Position::new(7, 0),
        promoted: Piece::new(PieceKind::Queen, PieceColor::White)
    }));
    assert!(moves.contains(&Move::Promotion {
        from: Position::new(6, 0),
        to: Position::new(7, 0),
        promoted: Piece::new(PieceKind::Rook, PieceColor::White)
    }));
    assert!(moves.contains(&Move::Promotion {
        from: Position::new(6, 0),
        to: Position::new(7, 0),
        promoted: Piece::new(PieceKind::Bishop, PieceColor::White)
    }));
    assert!(moves.contains(&Move::Promotion {
        from: Position::new(6, 0),
        to: Position::new(7, 0),
        promoted: Piece::new(PieceKind::Knight, PieceColor::White)
    }));
}

#[test]
fn test_get_moves_pawn_promotion_captures() {
    let mut board = Board::empty();
    board.set(
        Position::new(6, 1),
        Some(Piece::new(PieceKind::Pawn, PieceColor::White)),
    );
    board.set(
        Position::new(7, 0),
        Some(Piece::new(PieceKind::Bishop, PieceColor::Black)),
    );
    board.set(
        Position::new(7, 2),
        Some(Piece::new(PieceKind::Rook, PieceColor::Black)),
    );
    let state = GameState::new(board, PieceColor::White, 0b0000, None, 0, 0);
    let moves = get_moves(&state, PieceColor::White);
    assert_eq!(moves.len(), 12);

    assert!(moves.contains(&Move::Promotion {
        from: Position::new(6, 1),
        to: Position::new(7, 1),
        promoted: Piece::new(PieceKind::Queen, PieceColor::White)
    }));
    assert!(moves.contains(&Move::Promotion {
        from: Position::new(6, 1),
        to: Position::new(7, 1),
        promoted: Piece::new(PieceKind::Rook, PieceColor::White)
    }));
    assert!(moves.contains(&Move::Promotion {
        from: Position::new(6, 1),
        to: Position::new(7, 1),
        promoted: Piece::new(PieceKind::Bishop, PieceColor::White)
    }));
    assert!(moves.contains(&Move::Promotion {
        from: Position::new(6, 1),
        to: Position::new(7, 1),
        promoted: Piece::new(PieceKind::Knight, PieceColor::White)
    }));

    assert!(moves.contains(&Move::PromotionCapture {
        from: Position::new(6, 1),
        to: Position::new(7, 0),
        captured: Piece::new(PieceKind::Bishop, PieceColor::Black),
        promoted: Piece::new(PieceKind::Queen, PieceColor::White)
    }));
    assert!(moves.contains(&Move::PromotionCapture {
        from: Position::new(6, 1),
        to: Position::new(7, 0),
        captured: Piece::new(PieceKind::Bishop, PieceColor::Black),
        promoted: Piece::new(PieceKind::Rook, PieceColor::White)
    }));
    assert!(moves.contains(&Move::PromotionCapture {
        from: Position::new(6, 1),
        to: Position::new(7, 0),
        captured: Piece::new(PieceKind::Bishop, PieceColor::Black),
        promoted: Piece::new(PieceKind::Bishop, PieceColor::White)
    }));
    assert!(moves.contains(&Move::PromotionCapture {
        from: Position::new(6, 1),
        to: Position::new(7, 0),
        captured: Piece::new(PieceKind::Bishop, PieceColor::Black),
        promoted: Piece::new(PieceKind::Knight, PieceColor::White)
    }));

    assert!(moves.contains(&Move::PromotionCapture {
        from: Position::new(6, 1),
        to: Position::new(7, 2),
        captured: Piece::new(PieceKind::Rook, PieceColor::Black),
        promoted: Piece::new(PieceKind::Queen, PieceColor::White)
    }));
    assert!(moves.contains(&Move::PromotionCapture {
        from: Position::new(6, 1),
        to: Position::new(7, 2),
        captured: Piece::new(PieceKind::Rook, PieceColor::Black),
        promoted: Piece::new(PieceKind::Rook, PieceColor::White)
    }));
    assert!(moves.contains(&Move::PromotionCapture {
        from: Position::new(6, 1),
        to: Position::new(7, 2),
        captured: Piece::new(PieceKind::Rook, PieceColor::Black),
        promoted: Piece::new(PieceKind::Bishop, PieceColor::White)
    }));
    assert!(moves.contains(&Move::PromotionCapture {
        from: Position::new(6, 1),
        to: Position::new(7, 2),
        captured: Piece::new(PieceKind::Rook, PieceColor::Black),
        promoted: Piece::new(PieceKind::Knight, PieceColor::White)
    }));
}

#[test]
fn test_get_moves_pawn_edge_captures() {
    let mut board = Board::empty();
    board.set(
        Position::new(4, 0),
        Some(Piece::new(PieceKind::Pawn, PieceColor::White)),
    );
    board.set(
        Position::new(5, 1),
        Some(Piece::new(PieceKind::Pawn, PieceColor::Black)),
    );

    let state = GameState::new(board, PieceColor::White, 0b0000, None, 0, 0);
    let moves = get_moves(&state, PieceColor::White);
    assert_eq!(moves.len(), 2);
    assert!(moves.contains(&Move::Normal {
        from: Position::new(4, 0),
        to: Position::new(5, 0)
    }));
    assert!(moves.contains(&Move::Capture {
        from: Position::new(4, 0),
        to: Position::new(5, 1),
        captured: Piece::new(PieceKind::Pawn, PieceColor::Black)
    }));

    let mut board = Board::empty();
    board.set(
        Position::new(4, 7),
        Some(Piece::new(PieceKind::Pawn, PieceColor::White)),
    );
    board.set(
        Position::new(5, 6),
        Some(Piece::new(PieceKind::Pawn, PieceColor::Black)),
    );

    let state = GameState::new(board, PieceColor::White, 0b0000, None, 0, 0);
    let moves = get_moves(&state, PieceColor::White);
    assert_eq!(moves.len(), 2);
    assert!(moves.contains(&Move::Normal {
        from: Position::new(4, 7),
        to: Position::new(5, 7)
    }));
    assert!(moves.contains(&Move::Capture {
        from: Position::new(4, 7),
        to: Position::new(5, 6),
        captured: Piece::new(PieceKind::Pawn, PieceColor::Black)
    }));
}

#[test]
fn test_get_moves_pawn_start_rank_captures() {
    let mut board = Board::empty();
    board.set(
        Position::new(1, 1),
        Some(Piece::new(PieceKind::Pawn, PieceColor::White)),
    );
    board.set(
        Position::new(2, 0),
        Some(Piece::new(PieceKind::Pawn, PieceColor::Black)),
    );
    board.set(
        Position::new(2, 2),
        Some(Piece::new(PieceKind::Pawn, PieceColor::Black)),
    );

    let state = GameState::new(board, PieceColor::White, 0b0000, None, 0, 0);
    let moves = get_moves(&state, PieceColor::White);
    assert_eq!(moves.len(), 4);
    assert!(moves.contains(&Move::Normal {
        from: Position::new(1, 1),
        to: Position::new(2, 1)
    }));
    assert!(moves.contains(&Move::DoublePawnPush {
        from: Position::new(1, 1),
        to: Position::new(3, 1),
        en_passant: Position::new(2, 1)
    }));
    assert!(moves.contains(&Move::Capture {
        from: Position::new(1, 1),
        to: Position::new(2, 0),
        captured: Piece::new(PieceKind::Pawn, PieceColor::Black)
    }));
    assert!(moves.contains(&Move::Capture {
        from: Position::new(1, 1),
        to: Position::new(2, 2),
        captured: Piece::new(PieceKind::Pawn, PieceColor::Black)
    }));
} 

fn check_get_moves_bishop_layout(position: Position, expected_count: usize) {
    let mut board = Board::empty();
    board.set(
        position,
        Some(Piece::new(PieceKind::Bishop, PieceColor::White)),
    );
    let state = GameState::new(board, PieceColor::White, 0b0000, None, 0, 0);
    let moves = get_moves(&state, PieceColor::White);   
    assert_eq!(moves.len(), expected_count);

    assert!(moves.iter().all(|m| m.from() == position));   
    assert!(moves.iter().all(|m| m.to() != position));     
    assert!(moves.iter().all(|m| 
        u8::abs_diff(m.from().rank(), m.to().rank()) 
        == u8::abs_diff(m.from().file(), m.to().file())
    ));
}    

#[test]
fn test_get_moves_bishop_captures() {
    let mut board = Board::empty();
    
    board.set(
        Position::new(4, 4),
        Some(Piece::new(PieceKind::Bishop, PieceColor::White)),
    );
    board.set(
        Position::new(5, 5),
        Some(Piece::new(PieceKind::Pawn, PieceColor::Black)),
    );
    board.set(
        Position::new(3, 5),
        Some(Piece::new(PieceKind::Pawn, PieceColor::Black)),
    );
    board.set(
        Position::new(5, 3),
        Some(Piece::new(PieceKind::Pawn, PieceColor::Black)),
    );
    board.set(
        Position::new(3, 3),
        Some(Piece::new(PieceKind::Pawn, PieceColor::Black)),
    );

    let state = GameState::new(board, PieceColor::White, 0b0000, None, 0, 0);
    let moves = get_moves(&state, PieceColor::White);
    assert_eq!(moves.len(), 4);
    assert!(moves.iter().all(|m| matches!(m, Move::Capture{..})));
    assert!(moves.iter().all(
        |m| u8::abs_diff(m.from().rank(), m.to().rank()) == 1
    ));
    assert!(moves.iter().all(
        |m| u8::abs_diff(m.from().file(), m.to().file()) == 1
    ));
}

#[test]
fn test_get_moves_bishop_layout_0_0_7() {
    check_get_moves_bishop_layout(Position::new(0, 0), 7);
}

#[test]
fn test_get_moves_bishop_layout_1_1_9() {
    check_get_moves_bishop_layout(Position::new(1, 1), 9);
}

#[test]
fn test_get_moves_bishop_layout_2_2_11() {
    check_get_moves_bishop_layout(Position::new(2, 2), 11);
}

#[test]
fn test_get_moves_bishop_layout_3_3_13() {
    check_get_moves_bishop_layout(Position::new(3, 3), 13);
}

#[test]    
fn test_get_moves_bishop_blocked() {
    let mut board = Board::empty();
    
    board.set(
        Position::new(4, 4),
        Some(Piece::new(PieceKind::Bishop, PieceColor::White)),
    );
    board.set(
        Position::new(5, 5),
        Some(Piece::new(PieceKind::Pawn, PieceColor::White)),
    );
    board.set(
        Position::new(3, 5),
        Some(Piece::new(PieceKind::Pawn, PieceColor::White)),
    );
    board.set(
        Position::new(5, 3),
        Some(Piece::new(PieceKind::Pawn, PieceColor::White)),
    );
    board.set(
        Position::new(3, 3),
        Some(Piece::new(PieceKind::Pawn, PieceColor::White)),
    );

    let state = GameState::new(board, PieceColor::White, 0b0000, None, 0, 0);
    let moves = get_moves_for_square(
        board.get(Position::new(4, 4)),
        Position::new(4, 4),
        &state,
        PieceColor::White
    );
    assert!(moves.is_empty());
}

fn check_get_moves_rook_layout(position: Position) {
    let mut board = Board::empty();
    board.set(
        position,
        Some(Piece::new(PieceKind::Rook, PieceColor::White)),
    );

    let state = GameState::new(board, PieceColor::White, 0b0000, None, 0, 0);
    let moves = get_moves(&state, PieceColor::White);   
    
    assert_eq!(moves.len(), 14);
    assert!(moves.iter().all(|m| m.from() == position));
    assert!(moves.iter().all(|m| m.to() != position));
    assert!(moves.iter().all(|m| 
        m.from().rank() == m.to().rank() || m.from().file() == m.to().file()
    ));
}

#[test]
fn test_get_moves_rook_layout_0_0() {
    check_get_moves_rook_layout(Position::new(0, 0));
}

#[test]
fn test_get_moves_rook_layout_4_4() {
    check_get_moves_rook_layout(Position::new(4, 4));
}

#[test]
fn test_get_moves_rook_layout_7_7() {
    check_get_moves_rook_layout(Position::new(7, 7));
}

#[test]
fn test_get_moves_rook_captures() {
    let mut board = Board::empty();
    board.set(
        Position::new(4, 4),
        Some(Piece::new(PieceKind::Rook, PieceColor::White)),
    );
    board.set(
        Position::new(5, 4),
        Some(Piece::new(PieceKind::Pawn, PieceColor::Black)),
    );
    board.set(
        Position::new(3, 4),
        Some(Piece::new(PieceKind::Pawn, PieceColor::Black)),
    );
    board.set(
        Position::new(4, 5),
        Some(Piece::new(PieceKind::Pawn, PieceColor::Black)),
    );
    board.set(
        Position::new(4, 3),
        Some(Piece::new(PieceKind::Pawn, PieceColor::Black)),
    );

    let state = GameState::new(board, PieceColor::White, 0b0000, None, 0, 0);
    let moves = get_moves(&state, PieceColor::White);
    assert_eq!(moves.len(), 4);
    assert!(moves.iter().all(|m| matches!(m, Move::Capture{..})));        
    assert!(moves.iter().all(
        |m| m.from().rank() == m.to().rank() || m.from().file() == m.to().file()
    ));
}

#[test]
fn test_get_moves_rook_blocked() {
    let mut board = Board::empty();
    board.set(
        Position::new(4, 4),
        Some(Piece::new(PieceKind::Rook, PieceColor::White)),
    );
    board.set(
        Position::new(5, 4),
        Some(Piece::new(PieceKind::Pawn, PieceColor::White)),
    );
    board.set(
        Position::new(3, 4),
        Some(Piece::new(PieceKind::Pawn, PieceColor::White)),
    );
    board.set(
        Position::new(4, 5),
        Some(Piece::new(PieceKind::Pawn, PieceColor::White)),
    );
    board.set(
        Position::new(4, 3),
        Some(Piece::new(PieceKind::Pawn, PieceColor::White)),
    );

    let state = GameState::new(board, PieceColor::White, 0b0000, None, 0, 0);
    let moves = get_moves_for_square(
        board.get(Position::new(4, 4)),
        Position::new(4, 4),
        &state,
        PieceColor::White
    );
    assert!(moves.is_empty());
}

fn check_get_moves_knight_layout(position: Position, expected_count: usize) {
    let mut board = Board::empty();
    board.set(
        position,
        Some(Piece::new(PieceKind::Knight, PieceColor::White)),
    );

    let state = GameState::new(board, PieceColor::White, 0b0000, None, 0, 0);
    let moves = get_moves(&state, PieceColor::White);   
    
    assert_eq!(moves.len(), expected_count);
    assert!(moves.iter().all(|m| m.from() == position));
    assert!(moves.iter().all(|m| m.to() != position));
    assert!(moves.iter().all(|m| 
        (u8::abs_diff(m.from().rank(), m.to().rank()) == 2 
            && u8::abs_diff(m.from().file(), m.to().file()) == 1) 
        || (u8::abs_diff(m.from().rank(), m.to().rank()) == 1 
            && u8::abs_diff(m.from().file(), m.to().file()) == 2)
    ));
}

#[test]
fn test_get_moves_knight_layout_0_0_2() {
    check_get_moves_knight_layout(Position::new(0, 0), 2);
}

#[test]
fn test_get_moves_knight_layout_0_7_2() {
    check_get_moves_knight_layout(Position::new(0, 7), 2);
}

#[test]
fn test_get_moves_knight_layout_7_0_2() {
    check_get_moves_knight_layout(Position::new(7, 0), 2);
}

#[test]
fn test_get_moves_knight_layout_7_7_2() {
    check_get_moves_knight_layout(Position::new(7, 7), 2);
}

#[test]
fn test_get_moves_knight_layout_0_1_3() {
    check_get_moves_knight_layout(Position::new(0, 1), 3);
}

#[test]
fn test_get_moves_knight_layout_1_1_4() {
    check_get_moves_knight_layout(Position::new(1, 1), 4);
}

#[test]
fn test_get_moves_knight_layout_0_2_4() {
    check_get_moves_knight_layout(Position::new(0, 2), 4);
}

#[test]
fn test_get_moves_knight_layout_1_2_6() {
    check_get_moves_knight_layout(Position::new(1, 2), 6);
}

#[test]
fn test_get_moves_knight_layout_2_2_8() {
    check_get_moves_knight_layout(Position::new(2, 2), 8);
}

fn check_get_moves_king_layout(position: Position, expected_count: usize) {
    let mut board = Board::empty();
    board.set(
        position,
        Some(Piece::new(PieceKind::King, PieceColor::White)),
    );

    let state = GameState::new(board, PieceColor::White, 0b0000, None, 0, 0);
    let moves = get_moves(&state, PieceColor::White);   
    
    assert_eq!(moves.len(), expected_count);
    assert!(moves.iter().all(|m| m.from() == position));
    assert!(moves.iter().all(|m| m.to() != position));
    assert!(moves.iter().all(|m| 
        u8::abs_diff(m.from().rank(), m.to().rank()) <= 1 
        && u8::abs_diff(m.from().file(), m.to().file()) <= 1
    ));
}

#[test]
fn test_get_moves_king_layout_0_0_3() {
    check_get_moves_king_layout(Position::new(0, 0), 3);
}

#[test]
fn test_get_moves_king_layout_0_7_3() {
    check_get_moves_king_layout(Position::new(0, 7), 3);
}

#[test]
fn test_get_moves_king_layout_7_0_3() {
    check_get_moves_king_layout(Position::new(7, 0), 3);
}

#[test]
fn test_get_moves_king_layout_7_7_3() {
    check_get_moves_king_layout(Position::new(7, 7), 3);
}

#[test]
fn test_get_moves_king_layout_0_3_5() {
    check_get_moves_king_layout(Position::new(0, 3), 5);
}

#[test]
fn test_get_moves_king_layout_3_3_8() {
    check_get_moves_king_layout(Position::new(3, 3), 8);
}

#[test]
fn test_get_moves_king_captures() {
    let mut board = Board::empty();
    board.set(
        Position::new(4, 4),
        Some(Piece::new(PieceKind::King, PieceColor::White)),
    );
    board.set(
        Position::new(3, 5),
        Some(Piece::new(PieceKind::Pawn, PieceColor::Black)),
    );
    board.set(
        Position::new(4, 5),
        Some(Piece::new(PieceKind::Pawn, PieceColor::Black)),
    );
    board.set(
        Position::new(5, 5),
        Some(Piece::new(PieceKind::Pawn, PieceColor::Black)),
    );
    board.set(
        Position::new(5, 4),
        Some(Piece::new(PieceKind::Pawn, PieceColor::Black)),
    );
    board.set(
        Position::new(5, 3),
        Some(Piece::new(PieceKind::Pawn, PieceColor::Black)),
    );
    board.set(
        Position::new(4, 3),
        Some(Piece::new(PieceKind::Pawn, PieceColor::Black)),
    );
    board.set(
        Position::new(3, 3),
        Some(Piece::new(PieceKind::Pawn, PieceColor::Black)),
    );
    board.set(
        Position::new(3, 4),
        Some(Piece::new(PieceKind::Pawn, PieceColor::Black)),
    );

    let state = GameState::new(board, PieceColor::White, 0b0000, None, 0, 0);

    let moves = get_moves(&state, PieceColor::White);
    assert_eq!(moves.len(), 8);
    assert!(moves.iter().all(|m| matches!(m, Move::Capture{..})));
    assert!(moves.iter().all(|m| 
        u8::abs_diff(m.from().rank(), m.to().rank()) <= 1 
        && u8::abs_diff(m.from().file(), m.to().file()) <= 1
    ));
}

#[test]
fn test_get_moves_king_blocked() {
    let mut board = Board::empty();
    board.set(
        Position::new(4, 4),
        Some(Piece::new(PieceKind::King, PieceColor::White)),
    );
    board.set(
        Position::new(3, 5),
        Some(Piece::new(PieceKind::Pawn, PieceColor::White)),
    );
    board.set(
        Position::new(4, 5),
        Some(Piece::new(PieceKind::Pawn, PieceColor::White)),
    );
    board.set(
        Position::new(5, 5),
        Some(Piece::new(PieceKind::Pawn, PieceColor::White)),
    );
    board.set(
        Position::new(5, 4),
        Some(Piece::new(PieceKind::Pawn, PieceColor::White)),
    );
    board.set(
        Position::new(5, 3),
        Some(Piece::new(PieceKind::Pawn, PieceColor::White)),
    );
    board.set(
        Position::new(4, 3),
        Some(Piece::new(PieceKind::Pawn, PieceColor::White)),
    );
    board.set(
        Position::new(3, 3),
        Some(Piece::new(PieceKind::Pawn, PieceColor::White)),
    );
    board.set(
        Position::new(3, 4),
        Some(Piece::new(PieceKind::Pawn, PieceColor::White)),
    );

    let state = GameState::new(board, PieceColor::White, 0b0000, None, 0, 0);

    let moves = get_moves_for_square(
        board.get(Position::new(4, 4)),
        Position::new(4, 4),
        &state,
        PieceColor::White
    );
    assert!(moves.is_empty());
}

#[test]
fn test_get_moves_castle_moves() {
    let mut board = Board::empty();
    board.set(
        Position::new(0, 4),
        Some(Piece::new(PieceKind::King, PieceColor::White)),
    );
    board.set(
        Position::new(0, 0),
        Some(Piece::new(PieceKind::Rook, PieceColor::White)),
    );
    board.set(
        Position::new(0, 7),
        Some(Piece::new(PieceKind::Rook, PieceColor::White)),
    );

    let state = GameState::new(board, PieceColor::White, 0b1111, None, 0, 0);

    let moves = get_moves(&state, PieceColor::White);
    let castle_moves = moves.into_iter()
                        .filter(|m| matches!(m, Move::Castle{..}))
                        .collect::<Vec<_>>();
    
    assert_eq!(castle_moves.len(), 2);
    assert!(castle_moves.contains(&Move::Castle {
        from: Position::new(0, 4),
        to: Position::new(0, 2),
        rook_from: Position::new(0, 0),
        rook_to: Position::new(0, 3)
    }));
    assert!(castle_moves.contains(&Move::Castle {
        from: Position::new(0, 4),
        to: Position::new(0, 6),
        rook_from: Position::new(0, 7),
        rook_to: Position::new(0, 5)
    }));
}

#[test]
fn test_get_moves_castle_moves_require_rights() {
    let mut board = Board::empty();
    board.set(
        Position::new(0, 4),
        Some(Piece::new(PieceKind::King, PieceColor::White)),
    );
    board.set(
        Position::new(0, 0),
        Some(Piece::new(PieceKind::Rook, PieceColor::White)),
    );
    board.set(
        Position::new(0, 7),
        Some(Piece::new(PieceKind::Rook, PieceColor::White)),
    );

    let state = GameState::new(board, PieceColor::White, 0b0000, None, 0, 0);

    let moves = get_moves(&state, PieceColor::White);
    let castle_moves = moves.into_iter()
                        .filter(|m| matches!(m, Move::Castle{..}))
                        .collect::<Vec<_>>();
    
    assert!(castle_moves.is_empty());
}

#[test]
fn test_get_moves_castle_moves_blocked() {
    let mut board = Board::empty();
    board.set(
        Position::new(0, 4),
        Some(Piece::new(PieceKind::King, PieceColor::White)),
    );
    board.set(
        Position::new(0, 0),
        Some(Piece::new(PieceKind::Rook, PieceColor::White)),
    );
    board.set(
        Position::new(0, 7),
        Some(Piece::new(PieceKind::Rook, PieceColor::White)),
    );
    board.set(
        Position::new(0, 1),
        Some(Piece::new(PieceKind::Pawn, PieceColor::White)),
    );
    board.set(
        Position::new(0, 5),
        Some(Piece::new(PieceKind::Pawn, PieceColor::White)),
    );
    
    let state = GameState::new(board, PieceColor::White, 0b1111, None, 0, 0);
    
    let moves = get_moves(&state, PieceColor::White);
    let castle_moves = moves.into_iter()
                        .filter(|m| matches!(m, Move::Castle{..}))
                        .collect::<Vec<_>>();
    
    assert!(castle_moves.is_empty());
}

#[test]
fn test_prune_moves_into_check_force_escape() {
    let mut board = Board::empty();
    board.set(
        Position::new(4, 4),
        Some(Piece::new(PieceKind::King, PieceColor::White)),
    );
    board.set(
        Position::new(3, 3),
        Some(Piece::new(PieceKind::Pawn, PieceColor::Black)),
    );
    board.set(
        Position::new(3, 4),
        Some(Piece::new(PieceKind::Pawn, PieceColor::Black)),
    );
    board.set(
        Position::new(3, 5),
        Some(Piece::new(PieceKind::Pawn, PieceColor::Black)),
    );
    board.set(
        Position::new(4, 5),
        Some(Piece::new(PieceKind::Pawn, PieceColor::Black)),
    );
    board.set(
        Position::new(5, 5),
        Some(Piece::new(PieceKind::Pawn, PieceColor::Black)),
    );
    board.set(
        Position::new(5, 4),
        Some(Piece::new(PieceKind::Pawn, PieceColor::Black)),
    );
    board.set(
        Position::new(5, 3),
        Some(Piece::new(PieceKind::Pawn, PieceColor::Black)),
    );
    board.set(
        Position::new(4, 3),
        Some(Piece::new(PieceKind::Pawn, PieceColor::Black)),
    );
    board.set(
        Position::new(1, 1),
        Some(Piece::new(PieceKind::Pawn, PieceColor::White)),
    );

    let state = GameState::new(board, PieceColor::White, 0b0000, None, 0, 0);

    let moves = get_moves(&state, PieceColor::White);
    let moves = prune_moves_into_check(moves, &state);
    assert_eq!(moves.len(), 5);
    assert!(moves.iter().all(|m| matches!(m, Move::Capture{ .. })));
    assert!(moves.iter().all(|m| m.from() == Position::new(4, 4)));        
}

#[test]
fn test_prune_moves_into_check_force_block() {
    let mut board = Board::empty();
    board.set(
        Position::new(0, 0),
        Some(Piece::new(PieceKind::King, PieceColor::White)),
    );
    board.set(
        Position::new(0, 1),
        Some(Piece::new(PieceKind::Pawn, PieceColor::White)),
    );
    board.set(
        Position::new(1, 0),
        Some(Piece::new(PieceKind::Pawn, PieceColor::White)),
    );
    board.set(
        Position::new(4, 4),
        Some(Piece::new(PieceKind::Bishop, PieceColor::Black)),
    );

    let state = GameState::new(board, PieceColor::White, 0b0000, None, 0, 0);
    
    let moves = get_moves(&state, PieceColor::White);
    let moves = prune_moves_into_check(moves, &state);

    assert_eq!(moves.len(), 1);
    assert!(moves.iter().all(|m| matches!(m, Move::Normal{..})));
    assert!(moves.iter().all(|m| m.from() == Position::new(0, 1)));
    assert!(moves.iter().all(|m| m.to() == Position::new(1, 1)));
}

#[test]
fn test_prune_moves_into_check_prevent_pin_move() {
    let mut board = Board::empty();
    board.set(
        Position::new(0, 0),
        Some(Piece::new(PieceKind::King, PieceColor::White)),
    );
    board.set(
        Position::new(0, 1),
        Some(Piece::new(PieceKind::Pawn, PieceColor::White)),
    );
    board.set(
        Position::new(1, 1),
        Some(Piece::new(PieceKind::Pawn, PieceColor::White)),
    );
    board.set(
        Position::new(4, 4),
        Some(Piece::new(PieceKind::Bishop, PieceColor::Black)),
    );

    let state = GameState::new(board, PieceColor::White, 0b0000, None, 0, 0);
    
    let moves = get_moves(&state, PieceColor::White);
    let moves = prune_moves_into_check(moves, &state);

    assert_eq!(moves.len(), 1);
    assert!(moves.iter().all(|m| matches!(m, Move::Normal{..})));
    assert!(moves.iter().all(|m| m.from() == Position::new(0, 0)));
    assert!(moves.iter().all(|m| m.to() == Position::new(1, 0)));
}

#[test]
fn test_prune_moves_into_check_prevent_en_passant_exposing_capture() {
    let mut board = Board::empty();
    board.set(
        Position::new(4, 0),
        Some(Piece::new(PieceKind::King, PieceColor::White)),
    );
    board.set(
        Position::new(4, 1),
        Some(Piece::new(PieceKind::Pawn, PieceColor::White)),
    );
    board.set(
        Position::new(4, 2),
        Some(Piece::new(PieceKind::Pawn, PieceColor::Black)),
    );
    board.set(
        Position::new(4, 7),
        Some(Piece::new(PieceKind::Rook, PieceColor::Black)),
    );

    let state = GameState::new(board, PieceColor::White, 0b0000, Some(Position::new(5, 2)), 0, 0);
    
    let moves = get_moves(&state, PieceColor::White);
    let moves = prune_moves_into_check(moves, &state);
    println!("{:?}", moves);        
    assert_eq!(moves.len(), 4);
    assert!(moves.iter().all(|m| !matches!(m, Move::EnPassant{..})));
}

#[test]
fn test_prune_moves_into_check_prevent_king_into_check() {
    let mut board = Board::empty();
    board.set(
        Position::new(4, 1),
        Some(Piece::new(PieceKind::King, PieceColor::White)),
    );
    board.set(
        Position::new(5, 7),
        Some(Piece::new(PieceKind::Rook, PieceColor::Black)),
    );
    
    let state = GameState::new(board, PieceColor::White, 0b0000, None, 0, 0);
    
    let moves = get_moves(&state, PieceColor::White);
    let moves = prune_moves_into_check(moves, &state);

    assert_eq!(moves.len(), 5);
    assert!(moves.iter().all(|m| m.to().rank() != 5));
}

#[test]
fn test_prune_moves_into_check_prevent_king_capture_into_check() {
    let mut board = Board::empty();
    board.set(
        Position::new(4, 3),
        Some(Piece::new(PieceKind::King, PieceColor::White)),
    );
    board.set(
        Position::new(5, 7),
        Some(Piece::new(PieceKind::Rook, PieceColor::Black)),
    );
    board.set(
        Position::new(5, 0),
        Some(Piece::new(PieceKind::Rook, PieceColor::Black)),
    );
    board.set(
        Position::new(5, 3),
        Some(Piece::new(PieceKind::Pawn, PieceColor::Black)),
    );
    
    let state = GameState::new(board, PieceColor::White, 0b0000, None, 0, 0);
    
    let moves = get_moves(&state, PieceColor::White);
    let moves = prune_moves_into_check(moves, &state);        
    assert_eq!(moves.len(), 3);
    assert!(moves.iter().all(|m| m.to().rank() != 5));
}

#[test]
fn test_prune_moves_into_check_prevent_castle_through_check() {
    let mut board = Board::empty();
    board.set(
        Position::new(0, 4),
        Some(Piece::new(PieceKind::King, PieceColor::White)),
    );
    board.set(
        Position::new(0, 0),
        Some(Piece::new(PieceKind::Rook, PieceColor::White)),
    );
    board.set(
        Position::new(0, 7),
        Some(Piece::new(PieceKind::Rook, PieceColor::White)),
    );
    board.set(
        Position::new(1, 4),
        Some(Piece::new(PieceKind::Pawn, PieceColor::White)),
    );
    board.set(
        Position::new(7, 3),
        Some(Piece::new(PieceKind::Rook, PieceColor::Black)),
    );
    board.set(
        Position::new(7, 5),
        Some(Piece::new(PieceKind::Rook, PieceColor::Black)),
    );

    let state = GameState::new(board, PieceColor::White, 0b1100, None, 0, 0);
    
    let moves = get_moves(&state, PieceColor::White);
    let moves = prune_moves_into_check(moves, &state);
    
    assert!(moves.iter().all(|m| !matches!(m, Move::Castle{..})));
}

#[test]
fn test_prune_moves_into_check_prevent_castle_out_of_check() {
    let mut board = Board::empty();
    board.set(
        Position::new(0, 4),
        Some(Piece::new(PieceKind::King, PieceColor::White)),
    );
    board.set(
        Position::new(0, 0),
        Some(Piece::new(PieceKind::Rook, PieceColor::White)),
    );
    board.set(
        Position::new(0, 7),
        Some(Piece::new(PieceKind::Rook, PieceColor::White)),
    );
    board.set(
        Position::new(7, 4),
        Some(Piece::new(PieceKind::Rook, PieceColor::Black)),
    );

    let state = GameState::new(board, PieceColor::White, 0b1100, None, 0, 0);        
    let moves = get_moves(&state, PieceColor::White);
    let moves = prune_moves_into_check(moves, &state);
    
    assert!(moves.iter().all(|m| !matches!(m, Move::Castle{..})));
}

#[test]
fn test_prune_moves_into_check_prevent_castle_into_check() {
    let mut board = Board::empty();
}
