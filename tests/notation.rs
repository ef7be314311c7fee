use badgine::history::repeated_positions;
use badgine::notation::{
    engine_castling_square, from_uci_castling, to_uci_castling, uci_castling_square,
};
use cozy_chess::{Board, Move};

fn mv(s: &str) -> Move {
    s.parse().unwrap()
}

#[test]
fn castling_round_trip() {
    let board: Board = "r3k2r/8/8/8/8/8/8/R3K2R w KQkq - 0 1".parse().unwrap();
    assert_eq!(from_uci_castling(&board, mv("e1g1")), mv("e1h1"));
    assert_eq!(from_uci_castling(&board, mv("e1c1")), mv("e1a1"));
    assert_eq!(to_uci_castling(&board, mv("e1h1")), mv("e1g1"));
    assert_eq!(to_uci_castling(&board, mv("e1a1")), mv("e1c1"));
    assert_eq!(from_uci_castling(&board, mv("e1e2")), mv("e1e2"));
    assert_eq!(to_uci_castling(&board, mv("a1a8")), mv("a1a8"));
    assert_eq!(from_uci_castling(&board, mv("a1c1")), mv("a1c1"));
}

#[test]
fn castling_squares() {
    // e1 = 4, h1 = 7, g1 = 6, a1 = 0, c1 = 2, e8 = 60, h8 = 63, g8 = 62.
    assert_eq!(uci_castling_square(4, 7, true), 6);
    assert_eq!(uci_castling_square(4, 0, true), 2);
    assert_eq!(uci_castling_square(60, 63, true), 62);
    assert_eq!(uci_castling_square(4, 12, false), 12);
    assert_eq!(engine_castling_square(4, 6, true), 7);
    assert_eq!(engine_castling_square(60, 58, true), 56);
    assert_eq!(engine_castling_square(4, 6, false), 6);
    assert_eq!(engine_castling_square(4, 5, true), 5);
}

#[test]
fn repeated_positions_keeps_recurring_hashes() {
    let r = repeated_positions(&vec![1, 2, 3, 2, 4, 1, 2]);
    let mut got: Vec<u64> = r.into_iter().collect();
    got.sort();
    assert_eq!(got, vec![1, 2]);
    assert!(repeated_positions(&vec![]).is_empty());
    assert!(repeated_positions(&vec![5, 6, 7]).is_empty());
}
