//! Castling notation: the board engine writes castling as the king taking
//! its own rook, the engine protocol as the king's two-square step.
use vstd::prelude::*;
use cozy_chess::{Board, Move};
use crate::evaluation::{has, file_of, rank_of};
use crate::position::{piece_bits, color_bits};

verus! {

/// Colour of the piece on square `s`, if any: `Some(true)` for white.
pub open spec fn color_at(white: u64, black: u64, s: int) -> Option<bool> {
    if has(white, s) {
        Some(true)
    } else if has(black, s) {
        Some(false)
    } else {
        None
    }
}

/// Target square in protocol notation of a move from `from` to `to`, where
/// `same_color` says whether both squares hold pieces of one colour (or are
/// both empty): a king taking its own rook lands on the g or c file.
pub open spec fn uci_target(from: int, to: int, same_color: bool) -> int {
    if same_color {
        if file_of(to) > file_of(from) {
            rank_of(to) * 8 + 6
        } else {
            rank_of(to) * 8 + 2
        }
    } else {
        to
    }
}

/// Target square in board-engine notation of a move from `from` to `to`,
/// where `king` says whether a king stands on `from`: a king on the e file
/// going to the g or c file takes the rook on the h or a file.
pub open spec fn engine_target(from: int, to: int, king: bool) -> int {
    if file_of(from) == 4 && king {
        if file_of(to) == 6 {
            rank_of(to) * 8 + 7
        } else if file_of(to) == 2 {
            rank_of(to) * 8
        } else {
            to
        }
    } else {
        to
    }
}

/// Relies on the public `from` and `to` fields of cozy_chess::Move; a
/// square index is below 64.
#[verifier::external_body]
fn move_squares(mv: Move) -> (r: (u8, u8))
    ensures
        r.0 < 64,
        r.1 < 64,
{
    (mv.from as u8, mv.to as u8)
}

/// Relies on cozy_chess::Square::index, setting the `to` field of the move.
#[verifier::external_body]
fn retarget(mv: Move, to: u8) -> (r: Move)
    requires
        to < 64,
{
    Move { to: cozy_chess::Square::index(to as usize), ..mv }
}

/// Target square in protocol notation; see `uci_target`.
pub fn uci_castling_square(from: u8, to: u8, same_color: bool) -> (r: u8)
    requires
        from < 64,
        to < 64,
    ensures
        r == uci_target(from as int, to as int, same_color),
        r < 64,
{
    if same_color {
        if to % 8 > from % 8 {
            to / 8 * 8 + 6
        } else {
            to / 8 * 8 + 2
        }
    } else {
        to
    }
}

/// Target square in board-engine notation; see `engine_target`.
pub fn engine_castling_square(from: u8, to: u8, king: bool) -> (r: u8)
    requires
        from < 64,
        to < 64,
    ensures
        r == engine_target(from as int, to as int, king),
        r < 64,
{
    if from % 8 == 4 && king {
        if to % 8 == 6 {
            to / 8 * 8 + 7
        } else if to % 8 == 2 {
            to / 8 * 8
        } else {
            to
        }
    } else {
        to
    }
}

/// Colour of the piece on a square, read from the colour bitboards.
fn color_on(white: u64, black: u64, s: u8) -> (r: Option<bool>)
    requires
        s < 64,
    ensures
        r == color_at(white, black, s as int),
{
    if (white >> (s as u64)) & 1 == 1 {
        Some(true)
    } else if (black >> (s as u64)) & 1 == 1 {
        Some(false)
    } else {
        None
    }
}

/// Rewrites a castling move from board-engine notation (king takes own
/// rook) to protocol notation (king steps to the g or c file); other moves
/// are returned as they are.
pub fn to_uci_castling(board: &Board, mv: Move) -> Move {
    let (from, to) = move_squares(mv);
    let white = color_bits(board, 0);
    let black = color_bits(board, 1);
    let same = color_on(white, black, from) == color_on(white, black, to);
    let target = uci_castling_square(from, to, same);
    if target == to {
        mv
    } else {
        retarget(mv, target)
    }
}

/// Rewrites a castling move from protocol notation (king steps to the g or
/// c file) to board-engine notation (king takes own rook); other moves are
/// returned as they are.
pub fn from_uci_castling(board: &Board, mv: Move) -> Move {
    let (from, to) = move_squares(mv);
    let kings = piece_bits(board, 5);
    let king = (kings >> (from as u64)) & 1 == 1;
    let target = engine_castling_square(from, to, king);
    if target == to {
        mv
    } else {
        retarget(mv, target)
    }
}

} // verus!
