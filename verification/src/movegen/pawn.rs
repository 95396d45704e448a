use vstd::prelude::*;

use crate::bitboard::{BitBoard, NOT_A_FILE, NOT_H_FILE};
use crate::{Colour, Square};

verus! {

/// The capture squares east of each pawn of the given colour. White pawns
/// move toward lower indices, black pawns toward higher ones; the guard mask
/// keeps a capture from wrapping across the board edge.
pub open spec fn east_attacks(b: u64, colour: Colour) -> u64
    recommends
        colour != Colour::Undefined,
{
    match colour {
        Colour::White => (b >> 9) & NOT_H_FILE,
        Colour::Black => (b << 9) & NOT_A_FILE,
        Colour::Undefined => 0,
    }
}

/// The capture squares west of each pawn of the given colour.
pub open spec fn west_attacks(b: u64, colour: Colour) -> u64
    recommends
        colour != Colour::Undefined,
{
    match colour {
        Colour::White => (b >> 7) & NOT_A_FILE,
        Colour::Black => (b << 7) & NOT_H_FILE,
        Colour::Undefined => 0,
    }
}

/// All capture squares of the pawns of the given colour.
pub open spec fn attacks(b: u64, colour: Colour) -> u64
    recommends
        colour != Colour::Undefined,
{
    east_attacks(b, colour) | west_attacks(b, colour)
}

/// The eastward capture squares of each pawn on `board`.
pub fn east(board: BitBoard, colour: Colour) -> (r: BitBoard)
    requires
        colour != Colour::Undefined,
    ensures
        r.0 == east_attacks(board.0, colour),
{
    match colour {
        Colour::White => BitBoard((board.0 >> 9) & NOT_H_FILE),
        Colour::Black => BitBoard((board.0 << 9) & NOT_A_FILE),
        Colour::Undefined => BitBoard(0),
    }
}

/// The westward capture squares of each pawn on `board`.
pub fn west(board: BitBoard, colour: Colour) -> (r: BitBoard)
    requires
        colour != Colour::Undefined,
    ensures
        r.0 == west_attacks(board.0, colour),
{
    match colour {
        Colour::White => BitBoard((board.0 >> 7) & NOT_A_FILE),
        Colour::Black => BitBoard((board.0 << 7) & NOT_H_FILE),
        Colour::Undefined => BitBoard(0),
    }
}

/// The capture squares of a single pawn of the given colour on the given
/// square.
pub fn lookup(square: Square, colour: Colour) -> (r: BitBoard)
    requires
        colour != Colour::Undefined,
    ensures
        r.0 == attacks(1u64 << square.idx(), colour),
{
    let board = BitBoard::from_sq(square);
    BitBoard(east(board, colour).0 | west(board, colour).0)
}

/// The capture squares of every pawn on `board` at once. Pawn captures are
/// fixed one-step shifts, so the whole board shifts in one go.
pub fn all(board: BitBoard, colour: Colour) -> (r: BitBoard)
    requires
        colour != Colour::Undefined,
    ensures
        r.0 == attacks(board.0, colour),
{
    BitBoard(east(board, colour).0 | west(board, colour).0)
}

} // verus!
