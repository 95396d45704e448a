use vstd::prelude::*;

use crate::bitboard::{
    lemma_bit_ops, lemma_low_mask_step, low_mask, nth_bit, BitBoard, NOT_A_FILE, NOT_H_FILE,
};
use crate::utils::match_u32_to_sq;
use crate::Square;

verus! {

/// One-step shift toward higher indices by a whole rank.
pub open spec fn no_shift(b: u64) -> u64 {
    b << 8
}

/// One-step shift toward lower indices by a whole rank.
pub open spec fn so_shift(b: u64) -> u64 {
    b >> 8
}

/// One-step shift toward the h-file, guarded against wrapping onto the a-file.
pub open spec fn ea_shift(b: u64) -> u64 {
    (b << 1) & NOT_A_FILE
}

/// One-step shift toward the a-file, guarded against wrapping onto the h-file.
pub open spec fn we_shift(b: u64) -> u64 {
    (b >> 1) & NOT_H_FILE
}

/// Combined rank-and-east step, guarded like `ea_shift`.
pub open spec fn no_ea_shift(b: u64) -> u64 {
    (b << 9) & NOT_A_FILE
}

/// Combined rank-and-west step, guarded like `we_shift`.
pub open spec fn no_we_shift(b: u64) -> u64 {
    (b << 7) & NOT_H_FILE
}

/// Combined rank-and-east step in the other rank direction.
pub open spec fn so_ea_shift(b: u64) -> u64 {
    (b >> 7) & NOT_A_FILE
}

/// Combined rank-and-west step in the other rank direction.
pub open spec fn so_we_shift(b: u64) -> u64 {
    (b >> 9) & NOT_H_FILE
}

/// The king destination mask: the union of all eight one-step shifts.
pub open spec fn attacks(b: u64) -> u64 {
    no_shift(b) | so_shift(b) | ea_shift(b) | we_shift(b) | no_ea_shift(b) | no_we_shift(b)
        | so_ea_shift(b) | so_we_shift(b)
}

/// King attacks distribute over union: the attacks of two merged boards are
/// the merged attacks, and an empty board attacks nothing.
pub proof fn lemma_attacks_union(x: u64, y: u64)
    ensures
        attacks(x | y) == attacks(x) | attacks(y),
        attacks(0) == 0,
{
    assert(attacks(x | y) == attacks(x) | attacks(y) && attacks(0) == 0) by (bit_vector);
}

/// An eastward or westward shift of one square never wraps across the board
/// edge: from a square off the far file it lands exactly one file over, and
/// from a square on the far file it yields the empty mask.
pub proof fn lemma_edge_guards(i: u64)
    requires
        i < 64,
    ensures
        i % 8 != 7 ==> ea_shift(1u64 << i) == 1u64 << (i + 1),
        i % 8 == 7 ==> ea_shift(1u64 << i) == 0,
        i % 8 != 0 ==> we_shift(1u64 << i) == 1u64 << ((i - 1) as u64),
        i % 8 == 0 ==> we_shift(1u64 << i) == 0,
{
    assert((i < 64 && i % 8 != 7 ==> ea_shift(1u64 << i) == 1u64 << (i + 1)) && (i < 64 && i % 8
        == 7 ==> ea_shift(1u64 << i) == 0) && (i < 64 && i % 8 != 0 ==> we_shift(1u64 << i)
        == 1u64 << ((i - 1) as u64)) && (i < 64 && i % 8 == 0 ==> we_shift(1u64 << i)
        == 0)) by (bit_vector);
}

/// The one-rank shift toward higher indices.
pub fn no(board: BitBoard) -> (r: BitBoard)
    ensures
        r.0 == no_shift(board.0),
{
    BitBoard(board.0 << 8)
}

/// The one-rank shift toward lower indices.
pub fn so(board: BitBoard) -> (r: BitBoard)
    ensures
        r.0 == so_shift(board.0),
{
    BitBoard(board.0 >> 8)
}

/// The one-file shift toward the h-file.
pub fn ea(board: BitBoard) -> (r: BitBoard)
    ensures
        r.0 == ea_shift(board.0),
{
    BitBoard((board.0 << 1) & NOT_A_FILE)
}

/// The one-file shift toward the a-file.
pub fn we(board: BitBoard) -> (r: BitBoard)
    ensures
        r.0 == we_shift(board.0),
{
    BitBoard((board.0 >> 1) & NOT_H_FILE)
}

/// The combined rank-and-east step.
pub fn no_ea(board: BitBoard) -> (r: BitBoard)
    ensures
        r.0 == no_ea_shift(board.0),
{
    BitBoard((board.0 << 9) & NOT_A_FILE)
}

/// The combined rank-and-west step.
pub fn no_we(board: BitBoard) -> (r: BitBoard)
    ensures
        r.0 == no_we_shift(board.0),
{
    BitBoard((board.0 << 7) & NOT_H_FILE)
}

/// The combined rank-and-east step in the other rank direction.
pub fn so_ea(board: BitBoard) -> (r: BitBoard)
    ensures
        r.0 == so_ea_shift(board.0),
{
    BitBoard((board.0 >> 7) & NOT_A_FILE)
}

/// The combined rank-and-west step in the other rank direction.
pub fn so_we(board: BitBoard) -> (r: BitBoard)
    ensures
        r.0 == so_we_shift(board.0),
{
    BitBoard((board.0 >> 9) & NOT_H_FILE)
}

/// The destination mask of a king on the given square.
pub fn lookup(sq: Square) -> (r: BitBoard)
    ensures
        r.0 == attacks(1u64 << sq.idx()),
{
    let board = BitBoard::from_sq(sq);

    let no = no(board);
    let so = so(board);
    let ea = ea(board);
    let we = we(board);
    let no_ea = no_ea(board);
    let no_we = no_we(board);
    let so_ea = so_ea(board);
    let so_we = so_we(board);

    BitBoard(no.0 | so.0 | ea.0 | we.0 | no_ea.0 | no_we.0 | so_ea.0 | so_we.0)
}

/// The destination mask of every king on `board` at once, with the squares in
/// `occ` removed (the caller passes its own side's occupancy to rule out
/// self-captures).
pub fn all(board: BitBoard, occ: BitBoard) -> (r: BitBoard)
    ensures
        r.0 == attacks(board.0) & !occ.0,
{
    let mut bb = BitBoard::empty();
    let mut square: u64 = 0;
    proof {
        lemma_low_mask_step(board.0);
        lemma_attacks_union(0, 0);
    }
    while square < 64
        invariant
            square <= 64,
            bb.0 == attacks(board.0 & low_mask(square)),
        decreases 64 - square,
    {
        proof {
            lemma_low_mask_step(board.0);
            lemma_bit_ops();
            lemma_attacks_union(board.0 & low_mask(square), 1u64 << square);
            lemma_attacks_union(board.0 & low_mask(square), 0);
        }
        if board.0 & (1u64 << square) != 0 {
            let board2 = lookup(match_u32_to_sq(square as u32));
            proof {
                assert(board2.0 == attacks(1u64 << square));
                assert(nth_bit(board.0, square));
                assert(board.0 & low_mask((square + 1) as u64) == (board.0 & low_mask(square)) | (
                1u64 << square));
                assert(attacks((board.0 & low_mask(square)) | (1u64 << square)) == attacks(
                    board.0 & low_mask(square),
                ) | attacks(1u64 << square));
            }
            bb.0 = bb.0 | board2.0;
        } else {
            proof {
                assert(!nth_bit(board.0, square));
                assert(board.0 & low_mask((square + 1) as u64) == (board.0 & low_mask(square))
                    | 0u64);
                assert((board.0 & low_mask(square)) | 0u64 == board.0 & low_mask(square));
            }
        }
        square = square + 1;
    }
    proof {
        lemma_low_mask_step(board.0);
        lemma_bit_ops();
    }
    BitBoard(bb.0 - (bb.0 & occ.0))
}

} // verus!
