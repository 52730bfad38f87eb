use ruschess::{GameState, PieceColor};

/// The number of lines of play of the given length, the side to move
/// changing after each move.
fn count_lines(state: &GameState, depth: u32) -> u64 {
    if depth == 0 {
        return 1;
    }
    assert!(state.is_playable());
    let mut lines = 0;
    for m in state.legal_moves() {
        let mut next = state.clone();
        next.apply_move(m);
        if next.turn == PieceColor::Black {
            next.fullmove_number += 1;
        }
        next.turn = next.turn.opposite();
        lines += count_lines(&next, depth - 1);
    }
    lines
}

#[test]
fn test_lines_of_play_from_the_start_position() {
    let state = GameState::default();
    assert_eq!(count_lines(&state, 1), 20);
    assert_eq!(count_lines(&state, 2), 400);
    assert_eq!(count_lines(&state, 3), 8902);
}

#[test]
fn test_lines_of_play_with_castling_en_passant_and_promotion() {
    let state = GameState::from_fen(
        "r3k2r/p1ppqpb1/bn2pnp1/3PN3/1p2P3/2N2Q1p/PPPBBPPP/R3K2R w KQkq - 0 1",
    )
    .unwrap();
    assert_eq!(count_lines(&state, 1), 48);
    assert_eq!(count_lines(&state, 2), 2039);

    let endgame = GameState::from_fen("8/2p5/3p4/KP5r/1R3p1k/8/4P1P1/8 w - - 0 1").unwrap();
    assert_eq!(count_lines(&endgame, 1), 14);
    assert_eq!(count_lines(&endgame, 2), 191);
    assert_eq!(count_lines(&endgame, 3), 2812);

    let promoting = GameState::from_fen("n1n5/PPPk4/8/8/8/8/4Kppp/5N1N b - - 0 1").unwrap();
    assert_eq!(count_lines(&promoting, 1), 24);
    assert_eq!(count_lines(&promoting, 2), 496);
}
