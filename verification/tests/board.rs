use othello::board::{OthelloBoard, OthelloColor};

#[test]
fn test_legal_moves_and_place() {
    let mut board = OthelloBoard::new();
    // Initial legal moves for Black.
    // c4(26), d3(19), f5(37), e6(44)
    assert_eq!(
        board.legal_moves(),
        (1 << 19) | (1 << 26) | (1 << 37) | (1 << 44)
    );

    // Place at f5(37), which is a legal move.
    assert!(board.place(1 << 37));
    // Now it's White's turn.
    assert_eq!(board.get_turn(), OthelloColor::White);

    // After Black's move, e5(36) is flipped.
    // Black: d5(35), e4(28), f5(37), e5(36)
    // White: d4(27)
    assert_eq!(board.black, (1 << 35) | (1 << 28) | (1 << 37) | (1 << 36));
    assert_eq!(board.white, 1 << 27);

    // Legal moves for White should be f4(29), d6(43), f6(45).
    assert_eq!(board.legal_moves(), (1 << 29) | (1 << 43) | (1 << 45));

    // Try to place at an illegal position.
    assert!(!board.place(1 << 0));
    // Board state should not change.
    assert_eq!(board.get_turn(), OthelloColor::White);
    assert_eq!(board.black, (1 << 35) | (1 << 28) | (1 << 37) | (1 << 36));
    assert_eq!(board.white, 1 << 27);
}

#[test]
fn test_flip_horizontal() {
    let mut board = OthelloBoard {
        black: 1 << 0,                         // a1
        white: (1 << 1) | (1 << 2) | (1 << 3), // b1, c1, d1
        turn: 0,                               // Black's turn
    };
    // Legal move for black should be e1 (1<<4)
    assert_eq!(board.legal_moves(), 1 << 4);
    assert!(board.place(1 << 4));

    // Check board state: all pieces from a1 to e1 should be black
    let expected_black = (1 << 0) | (1 << 1) | (1 << 2) | (1 << 3) | (1 << 4);
    assert_eq!(board.black, expected_black);
    assert_eq!(board.white, 0);
    assert_eq!(board.get_turn(), OthelloColor::White);
}

#[test]
fn test_flip_vertical() {
    let mut board = OthelloBoard {
        black: 1 << 0,                           // a1
        white: (1 << 8) | (1 << 16) | (1 << 24), // a2, a3, a4
        turn: 0,                                 // Black's turn
    };
    // Legal move for black should be a5 (1<<32)
    assert_eq!(board.legal_moves(), 1 << 32);
    assert!(board.place(1 << 32));

    // Check board state
    let expected_black = (1 << 0) | (1 << 8) | (1 << 16) | (1 << 24) | (1 << 32);
    assert_eq!(board.black, expected_black);
    assert_eq!(board.white, 0);
}

#[test]
fn test_flip_diagonal_a1_h8() {
    let mut board = OthelloBoard {
        black: 1 << 0,                           // a1
        white: (1 << 9) | (1 << 18) | (1 << 27), // b2, c3, d4
        turn: 0,                                 // Black's turn
    };
    // Legal move for black should be e5 (1<<36)
    assert_eq!(board.legal_moves(), 1 << 36);
    assert!(board.place(1 << 36));

    // Check board state
    let expected_black = (1 << 0) | (1 << 9) | (1 << 18) | (1 << 27) | (1 << 36);
    assert_eq!(board.black, expected_black);
    assert_eq!(board.white, 0);
}

#[test]
fn test_flip_diagonal_h1_a8() {
    let mut board = OthelloBoard {
        black: 1 << 7,                            // h1
        white: (1 << 14) | (1 << 21) | (1 << 28), // g2, f3, e4
        turn: 0,                                  // Black's turn
    };
    // Legal move for black should be d5 (1<<35)
    assert_eq!(board.legal_moves(), 1 << 35);
    assert!(board.place(1 << 35));

    // Check board state
    let expected_black = (1 << 7) | (1 << 14) | (1 << 21) | (1 << 28) | (1 << 35);
    assert_eq!(board.black, expected_black);
    assert_eq!(board.white, 0);
}

#[test]
fn test_place_and_return_inversions() {
    let mut board = OthelloBoard::new();

    // 1. Test a legal move and check the returned flipped mask.
    // Placing at f5(37) should flip e5(36).
    let flipped = board.place_and_return_inversions(1 << 37);
    assert_eq!(flipped, 1 << 36);

    // Verify the board state is updated correctly.
    assert_eq!(board.get_turn(), OthelloColor::White);
    let expected_black = (1 << 35) | (1 << 28) | (1 << 37) | (1 << 36); // d5, e4, f5, e5
    let expected_white = 1 << 27; // d4
    assert_eq!(board.black, expected_black);
    assert_eq!(board.white, expected_white);

    // 2. Test an illegal move.
    // The board state is now after the first move.
    // Placing at a1(0) is illegal for White.
    let flipped_illegal = board.place_and_return_inversions(1 << 0);
    assert_eq!(flipped_illegal, 0);

    // Verify the board state has not changed.
    assert_eq!(board.get_turn(), OthelloColor::White);
    assert_eq!(board.black, expected_black);
    assert_eq!(board.white, expected_white);

    // 3. Test another legal move for White.
    // Placing at f4(29) should flip e4(28).
    let flipped2 = board.place_and_return_inversions(1 << 29);
    assert_eq!(flipped2, 1 << 28);
    assert_eq!(board.get_turn(), OthelloColor::Black);

    let expected_black2 = expected_black ^ (1 << 28); // d5, f5, e5
    let expected_white2 = expected_white | (1 << 29) | (1 << 28); // d4, f4, e4
    assert_eq!(board.black, expected_black2);
    assert_eq!(board.white, expected_white2);
}

#[test]
fn test_place_replay_agrees_with_inversions_replay() {
    // Replaying the same move sequence through `place` and through
    // `place_and_return_inversions` reaches the identical final state.
    let moves: [u64; 5] = [1 << 37, 1 << 29, 1 << 18, 1 << 45, 1 << 44];
    let mut a = OthelloBoard::new();
    let mut b = OthelloBoard::new();
    for m in moves {
        a.place(m);
        b.place_and_return_inversions(m);
        assert_eq!(a.black, b.black);
        assert_eq!(a.white, b.white);
        assert_eq!(a.turn, b.turn);
    }
}

#[test]
fn test_masks_stay_disjoint_and_turn_counts() {
    // Occupancy masks never overlap along a played line, and an accepted
    // placement advances the turn by exactly one.
    let mut board = OthelloBoard::new();
    let moves: [u64; 4] = [1 << 37, 1 << 29, 1 << 18, 1 << 20];
    let mut turn = 0u8;
    for m in moves {
        assert_eq!(board.black & board.white, 0);
        if board.place(m) {
            turn += 1;
        }
        assert_eq!(board.turn, turn);
        assert_eq!(board.black & board.white, 0);
    }
}

#[test]
fn test_illegal_placements_change_nothing() {
    let mut board = OthelloBoard::new();
    let before = (board.black, board.white, board.turn);
    // Not a single bit.
    assert!(!board.place((1 << 19) | (1 << 26)));
    // Zero.
    assert!(!board.place(0));
    // An occupied square.
    assert!(!board.place(1 << 27));
    // An empty but unreachable square.
    assert!(!board.place(1 << 0));
    assert_eq!(before, (board.black, board.white, board.turn));
    assert_eq!(board.place_and_return_inversions(1 << 0), 0);
    assert_eq!(before, (board.black, board.white, board.turn));
}

#[test]
fn test_can_place_pos_bounds() {
    let board = OthelloBoard::new();
    // d3 is square (3, 2) = bit 19: a legal opening.
    assert!(board.can_place_pos(3, 2));
    // The occupied center square (3, 3) = bit 27 is not.
    assert!(!board.can_place_pos(3, 3));
    // Off-board coordinates are never legal.
    assert!(!board.can_place_pos(8, 0));
    assert!(!board.can_place_pos(0, 8));
    assert!(!board.can_place_pos(255, 255));
}

#[test]
fn test_can_place_requires_single_bit() {
    let board = OthelloBoard::new();
    assert!(board.can_place(1 << 19));
    assert!(!board.can_place(0));
    assert!(!board.can_place((1 << 19) | (1 << 26)));
}

#[test]
fn test_get_current_player_and_opponent_follows_parity() {
    let mut board = OthelloBoard::new();
    let (p, o) = board.get_current_player_and_opponent();
    assert_eq!(p, board.black);
    assert_eq!(o, board.white);
    assert!(board.place(1 << 37));
    let (p, o) = board.get_current_player_and_opponent();
    assert_eq!(p, board.white);
    assert_eq!(o, board.black);
}
