use vstd::prelude::*;

use crate::bitboard::{
    lemma_bit_ops, lemma_low_mask_step, low_mask, nth_bit, BitBoard, NOT_AB_FILE, NOT_A_FILE,
    NOT_HG_FILE, NOT_H_FILE,
};
use crate::utils::match_u32_to_sq;
use crate::Square;

verus! {

/// Two ranks toward higher indices, one file east.
pub open spec fn no_no_east_shift(b: u64) -> u64 {
    (b << 17) & NOT_A_FILE
}

/// Two ranks toward higher indices, one file west.
pub open spec fn no_no_west_shift(b: u64) -> u64 {
    (b << 15) & NOT_H_FILE
}

/// Two ranks toward lower indices, one file east.
pub open spec fn so_so_east_shift(b: u64) -> u64 {
    (b >> 15) & NOT_A_FILE
}

/// Two ranks toward lower indices, one file west.
pub open spec fn so_so_west_shift(b: u64) -> u64 {
    (b >> 17) & NOT_H_FILE
}

/// One rank toward higher indices, two files east.
pub open spec fn no_ea_east_shift(b: u64) -> u64 {
    (b << 10) & NOT_AB_FILE
}

/// One rank toward lower indices, two files east.
pub open spec fn so_ea_east_shift(b: u64) -> u64 {
    (b >> 6) & NOT_AB_FILE
}

/// One rank toward higher indices, two files west.
pub open spec fn no_we_west_shift(b: u64) -> u64 {
    (b << 6) & NOT_HG_FILE
}

/// One rank toward lower indices, two files west.
pub open spec fn so_we_west_shift(b: u64) -> u64 {
    (b >> 10) & NOT_HG_FILE
}

/// The knight destination mask: the union of all eight jumps.
pub open spec fn attacks(b: u64) -> u64 {
    no_no_east_shift(b) | no_no_west_shift(b) | so_so_east_shift(b) | so_so_west_shift(b)
        | no_ea_east_shift(b) | so_ea_east_shift(b) | no_we_west_shift(b) | so_we_west_shift(b)
}

/// Knight attacks distribute over union: the attacks of two merged boards are
/// the merged attacks, and an empty board attacks nothing.
pub proof fn lemma_attacks_union(x: u64, y: u64)
    ensures
        attacks(x | y) == attacks(x) | attacks(y),
        attacks(0) == 0,
{
    assert(attacks(x | y) == attacks(x) | attacks(y) && attacks(0) == 0) by (bit_vector);
}

/// Two ranks up, one file east, as a value.
pub fn no_no_east(board: BitBoard) -> (r: BitBoard)
    ensures
        r.0 == no_no_east_shift(board.0),
{
    BitBoard((board.0 << 17) & NOT_A_FILE)
}

/// Two ranks up, one file west, as a value.
pub fn no_no_west(board: BitBoard) -> (r: BitBoard)
    ensures
        r.0 == no_no_west_shift(board.0),
{
    BitBoard((board.0 << 15) & NOT_H_FILE)
}

/// Two ranks down, one file east, as a value.
pub fn so_so_east(board: BitBoard) -> (r: BitBoard)
    ensures
        r.0 == so_so_east_shift(board.0),
{
    BitBoard((board.0 >> 15) & NOT_A_FILE)
}

/// Two ranks down, one file west, as a value.
pub fn so_so_west(board: BitBoard) -> (r: BitBoard)
    ensures
        r.0 == so_so_west_shift(board.0),
{
    BitBoard((board.0 >> 17) & NOT_H_FILE)
}

/// One rank up, two files east, as a value.
pub fn no_ea_east(board: BitBoard) -> (r: BitBoard)
    ensures
        r.0 == no_ea_east_shift(board.0),
{
    BitBoard((board.0 << 10) & NOT_AB_FILE)
}

/// One rank down, two files east, as a value.
pub fn so_ea_east(board: BitBoard) -> (r: BitBoard)
    ensures
        r.0 == so_ea_east_shift(board.0),
{
    BitBoard((board.0 >> 6) & NOT_AB_FILE)
}

/// One rank up, two files west, as a value.
pub fn no_we_west(board: BitBoard) -> (r: BitBoard)
    ensures
        r.0 == no_we_west_shift(board.0),
{
    BitBoard((board.0 << 6) & NOT_HG_FILE)
}

/// One rank down, two files west, as a value.
pub fn so_we_west(board: BitBoard) -> (r: BitBoard)
    ensures
        r.0 == so_we_west_shift(board.0),
{
    BitBoard((board.0 >> 10) & NOT_HG_FILE)
}

/// The destination mask of a knight on the given square.
pub fn lookup(sq: Square) -> (r: BitBoard)
    ensures
        r.0 == attacks(1u64 << sq.idx()),
{
    let board = BitBoard::from_sq(sq);

    let no_no_east = no_no_east(board);
    let no_no_west = no_no_west(board);
    let so_so_east = so_so_east(board);
    let so_so_west = so_so_west(board);
    let no_ea_east = no_ea_east(board);
    let so_ea_east = so_ea_east(board);
    let no_we_west = no_we_west(board);
    let so_we_west = so_we_west(board);

    BitBoard(
        no_no_east.0 | no_no_west.0 | so_so_east.0 | so_so_west.0 | no_ea_east.0 | so_ea_east.0
            | no_we_west.0 | so_we_west.0,
    )
}

/// The destination mask of every knight on `board` at once, with the squares
/// in `occ` removed (the caller passes its own side's occupancy to rule out
/// self-captures).
pub fn all(board: BitBoard, occ: BitBoard) -> (r: BitBoard)
    ensures
        r.0 == attacks(board.0) & !occ.0,
{
    let mut bb = BitBoard::empty();
    let mut square: u64 = 0;
    proof {
        lemma_low_mask_step(board.0);
        lemma_attacks_union(0, 0);
    }
    while square < 64
        invariant
            square <= 64,
            bb.0 == attacks(board.0 & low_mask(square)),
        decreases 64 - square,
    {
        proof {
            lemma_low_mask_step(board.0);
            lemma_bit_ops();
            lemma_attacks_union(board.0 & low_mask(square), 1u64 << square);
        }
        if board.0 & (1u64 << square) != 0 {
            let board2 = lookup(match_u32_to_sq(square as u32));
            proof {
                assert(board2.0 == attacks(1u64 << square));
                assert(nth_bit(board.0, square));
                assert(board.0 & low_mask((square + 1) as u64) == (board.0 & low_mask(square)) | (
                1u64 << square));
                assert(attacks((board.0 & low_mask(square)) | (1u64 << square)) == attacks(
                    board.0 & low_mask(square),
                ) | attacks(1u64 << square));
            }
            bb.0 = bb.0 | board2.0;
        } else {
            proof {
                assert(!nth_bit(board.0, square));
                assert(board.0 & low_mask((square + 1) as u64) == (board.0 & low_mask(square))
                    | 0u64);
                assert((board.0 & low_mask(square)) | 0u64 == board.0 & low_mask(square));
            }
        }
        square = square + 1;
    }
    proof {
        lemma_low_mask_step(board.0);
        lemma_bit_ops();
    }
    BitBoard(bb.0 - (bb.0 & occ.0))
}

} // verus!
