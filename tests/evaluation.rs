use badgine::evaluation::{
    evaluate, get_attack_set, king_space, material, pawn_advancedness, popcnt,
};
use badgine::position::{Position, Status};
use cozy_chess::Board;

fn board(fen: &str) -> Board {
    fen.parse().unwrap()
}

#[test]
fn start_position_material_is_even() {
    let p = Position::of(&Board::default());
    assert_eq!(material(&p), 0);
    assert_eq!(evaluate(&p), 0);
    assert_eq!(evaluate(&Position::of(&Board::default())), 0);
}

#[test]
fn material_weights() {
    // White: queen, rook, knight, two pawns; black: bishop, pawn.
    let b = board("4k3/4p3/2b5/8/8/8/PP6/QRN1K3 w - - 0 1");
    let p = Position::of(&b);
    assert_eq!(material(&p), 900 + 500 + 300 + 200 - 300 - 100);
    let b = board("4k3/4p3/2b5/8/8/8/PP6/QRN1K3 b - - 0 1");
    assert_eq!(material(&Position::of(&b)), -(900 + 500 + 300 + 200 - 300 - 100));
}

#[test]
fn king_space_walled_in() {
    // The rooks on a3 and b4 cut ranks one and two off from the rest of the
    // board; files a and b are attacked too, leaving c1..h1 and c2..h2.
    let b = board("k7/8/8/8/1r6/r7/6PP/7K w - - 0 1");
    let p = Position::of(&b);
    assert_eq!(king_space(&p, true), 12);
}

#[test]
fn king_space_enclosed_by_own_pieces() {
    // King a1 behind its pawns a2, b2 and knight b1; the black king on h8
    // attacks only g7, g8 and h7. Own pieces do not stop the walk, so every
    // square but those three and h8 behind them is reached, a1 included.
    let b = board("7k/8/8/8/8/8/PP6/KN6 w - - 0 1");
    let p = Position::of(&b);
    assert_eq!(king_space(&p, true), 60);
    // White attacks a3, b3, c3 (pawns), a2, b1, b2 (king) and d2 (knight);
    // a1 sits behind a2, b1 and b2, so the black king reaches 64 - 7 - 1.
    assert_eq!(king_space(&p, false), 56);
}

#[test]
fn king_space_in_start_position() {
    let p = Position::of(&Board::default());
    assert_eq!(king_space(&p, true), king_space(&p, false));
    assert!(king_space(&p, true) > 0);
}

#[test]
fn pawn_advancedness_table() {
    // White pawns on ranks 3, 4, 7 (relative 2, 3, 6); black pawn on rank 5
    // (relative 3).
    let b = board("4k3/P7/8/3p4/2P5/1P6/8/4K3 w - - 0 1");
    let p = Position::of(&b);
    assert_eq!(pawn_advancedness(&p, true), 4 + 10 + 25);
    assert_eq!(pawn_advancedness(&p, false), 10);
    let start = Position::of(&Board::default());
    assert_eq!(pawn_advancedness(&start, true), 0);
    assert_eq!(pawn_advancedness(&start, false), 0);
}

#[test]
fn attack_set_of_lone_pieces() {
    // White king a1 and knight h8, black king e5.
    let b = board("7N/8/8/4k3/8/8/8/K7 w - - 0 1");
    let p = Position::of(&b);
    let white = get_attack_set(&p, true);
    // King a1: a2, b1, b2. Knight h8: f7, g6.
    let expect = (1u64 << 8) | (1u64 << 1) | (1u64 << 9) | (1u64 << 53) | (1u64 << 46);
    assert_eq!(white, expect);
    assert_eq!(popcnt(get_attack_set(&p, false)), 8);
}

#[test]
fn position_reads_board() {
    let p = Position::of(&Board::default());
    assert_eq!(p.white_king, 4);
    assert_eq!(p.black_king, 60);
    assert!(p.white_to_move);
    assert_eq!(p.status, Status::Ongoing);
    assert_eq!(popcnt(p.pawns), 16);
    assert_eq!(p.hash, Board::default().hash());
    assert_eq!(popcnt(0), 0);
    assert_eq!(popcnt(u64::MAX), 64);
}

#[test]
fn attack_set_of_sliders() {
    // White rook d4 blocked by the black pawn on d6 and the white pawn on
    // f4; white king h1; black king a8.
    let b = board("k7/8/3p4/8/3R1P2/8/8/7K w - - 0 1");
    let p = Position::of(&b);
    let rook = get_attack_set(&p, true);
    let sq = |f: u64, r: u64| 1u64 << (r * 8 + f);
    let mut expect = sq(3, 4) | sq(3, 5) | sq(3, 2) | sq(3, 1) | sq(3, 0);
    expect |= sq(0, 3) | sq(1, 3) | sq(2, 3) | sq(4, 3) | sq(5, 3);
    expect |= sq(4, 4) | sq(6, 4); // pawn f4 captures
    expect |= sq(6, 0) | sq(6, 1) | sq(7, 1); // king h1
    assert_eq!(rook, expect);
}

