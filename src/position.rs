//! A position as plain values, read from the board engine.
use vstd::prelude::*;
use cozy_chess::{Board, Move};

verus! {

#[verifier::external_type_specification]
#[verifier::external_body]
pub struct ExBoard(cozy_chess::Board);

#[verifier::external_type_specification]
#[verifier::external_body]
pub struct ExMove(cozy_chess::Move);

/// Terminal status of a position, as the board engine reports it.
#[derive(PartialEq, Eq, Structural, Debug, Clone, Copy)]
pub enum Status {
    /// The game goes on.
    Ongoing,
    /// The side to move is checkmated.
    Checkmated,
    /// Stalemate, or a draw by the fifty-move rule.
    Drawn,
}

/// What the evaluator and the node classifier read of a position: one
/// bitboard per piece kind and per colour (bit `s` stands for square `s`,
/// A1 = 0, B1 = 1, ..., H8 = 63), the side to move, both king squares,
/// the position hash and the terminal status.
#[derive(Debug, Clone, Copy)]
pub struct Position {
    pub pawns: u64,
    pub knights: u64,
    pub bishops: u64,
    pub rooks: u64,
    pub queens: u64,
    pub kings: u64,
    pub white: u64,
    pub black: u64,
    pub white_to_move: bool,
    pub white_king: u8,
    pub black_king: u8,
    pub hash: u64,
    pub status: Status,
}

impl Position {
    /// King squares lie on the board.
    pub open spec fn wf(&self) -> bool {
        self.white_king < 64 && self.black_king < 64
    }

    /// Squares held by one colour.
    pub open spec fn side(&self, white: bool) -> u64 {
        if white { self.white } else { self.black }
    }

    /// King square of one colour.
    pub open spec fn king_of(&self, white: bool) -> u8 {
        if white { self.white_king } else { self.black_king }
    }

    /// Every occupied square.
    pub open spec fn occupied(&self) -> u64 {
        self.white | self.black
    }

    /// Reads the position out of a board.
    pub fn of(board: &Board) -> (r: Position)
        ensures
            r.wf(),
    {
        Position {
            pawns: piece_bits(board, 0),
            knights: piece_bits(board, 1),
            bishops: piece_bits(board, 2),
            rooks: piece_bits(board, 3),
            queens: piece_bits(board, 4),
            kings: piece_bits(board, 5),
            white: color_bits(board, 0),
            black: color_bits(board, 1),
            white_to_move: white_to_move(board),
            white_king: king_square(board, 0),
            black_king: king_square(board, 1),
            hash: position_hash(board),
            status: game_status(board),
        }
    }
}

/// Relies on cozy_chess::Board::pieces, with the piece kind taken by its
/// index in cozy_chess::Piece (pawn, knight, bishop, rook, queen, king).
#[verifier::external_body]
pub(crate) fn piece_bits(board: &Board, piece: usize) -> (r: u64)
    requires
        piece < 6,
{
    board.pieces(cozy_chess::Piece::index(piece)).0
}

/// Relies on cozy_chess::Board::colors, with the colour taken by its index
/// in cozy_chess::Color (white, black).
#[verifier::external_body]
pub(crate) fn color_bits(board: &Board, color: usize) -> (r: u64)
    requires
        color < 2,
{
    board.colors(cozy_chess::Color::index(color)).0
}

/// Relies on cozy_chess::Board::side_to_move.
#[verifier::external_body]
fn white_to_move(board: &Board) -> (r: bool) {
    board.side_to_move() == cozy_chess::Color::White
}

/// Relies on cozy_chess::Board::king: a board always holds one king of each
/// colour, and a square index is below 64.
#[verifier::external_body]
fn king_square(board: &Board, color: usize) -> (r: u8)
    requires
        color < 2,
    ensures
        r < 64,
{
    board.king(cozy_chess::Color::index(color)) as u8
}

/// Relies on cozy_chess::Board::hash.
#[verifier::external_body]
pub(crate) fn position_hash(board: &Board) -> (r: u64) {
    board.hash()
}

/// Relies on cozy_chess::Board::status, whose `Won` means that the side to
/// move has lost.
#[verifier::external_body]
fn game_status(board: &Board) -> (r: Status) {
    match board.status() {
        cozy_chess::GameStatus::Ongoing => Status::Ongoing,
        cozy_chess::GameStatus::Won => Status::Checkmated,
        cozy_chess::GameStatus::Drawn => Status::Drawn,
    }
}

/// Relies on cozy_chess::Board::generate_moves: every legal move of the
/// position, gathered from the move sets that it hands out.
#[verifier::external_body]
pub(crate) fn legal_moves(board: &Board) -> (r: Vec<Move>) {
    let mut moves = Vec::new();
    board.generate_moves(|set| {
        moves.extend(set);
        false
    });
    moves
}

/// Relies on cozy_chess::Board::try_play: plays the move when it is legal
/// and reports whether it was.
#[verifier::external_body]
pub(crate) fn try_play(board: &mut Board, mv: Move) -> (r: bool) {
    board.try_play(mv).is_ok()
}

/// Relies on cozy_chess::Board's `Clone`.
#[verifier::external_body]
pub(crate) fn copy_board(board: &Board) -> (r: Board) {
    board.clone()
}

} // verus!
