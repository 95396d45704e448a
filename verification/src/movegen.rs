use vstd::prelude::*;

pub mod king;
pub mod knight;
pub mod pawn;
pub mod sliding;

use crate::bitboard::{
    anti_diag_mask, anti_diag_masks, diag_mask, diag_masks, file_mask, file_masks, lemma_bit_ops,
    nth_bit, popcnt64, rank_mask, rank_masks, rev64, BitBoard,
};
use crate::utils::match_u32_to_sq;
use crate::Square;

verus! {

/// `x - y` with wraparound at 2^64, as the hardware subtraction computes it.
pub open spec fn wsub64(x: u64, y: u64) -> u64 {
    vstd::wrapping::u64_specs::wrapping_sub(x, y)
}

/// The attack squares along one line, by the hyperbola-quintessence rule:
/// the occupancy is masked to the line, the source-square mask is subtracted
/// from it with wraparound, the same is done on the bit-reversed board, and
/// the two results are combined and masked back to the line. The subtraction
/// borrows through the empty squares beyond the source up to the first
/// blocker, so the changed bits are exactly the visible squares in each
/// direction, blocker included.
pub open spec fn hyp_quint_attacks(sq_bb: u64, occ: u64, mask: u64) -> u64 {
    let forward = wsub64(occ & mask, sq_bb);
    let reverse = wsub64(rev64(occ & mask), rev64(sq_bb));
    (forward ^ rev64(reverse)) & mask
}

/// Computes the hyperbola-quintessence attack set of the piece on `sq` along
/// the line `mask`, against the blockers in `occ`.
pub fn hyp_quint(sq: Square, occ: BitBoard, mask: u64) -> (r: BitBoard)
    ensures
        r.0 == hyp_quint_attacks(1u64 << sq.idx(), occ.0, mask),
{
    let sq_bb = BitBoard::from_sq(sq);
    let mut forward = occ.0 & mask;
    let mut reverse = BitBoard(forward).reversed().0;

    forward = forward.wrapping_sub(sq_bb.0);
    reverse = reverse.wrapping_sub(sq_bb.reversed().0);
    forward = forward ^ BitBoard(reverse).reversed().0;
    forward = forward & mask;

    BitBoard(forward)
}

/// The attack set of a rook on square `sq` (an index in [0, 64)): the
/// hyperbola-quintessence sets along the square's file and rank.
pub open spec fn rook_attacks(sq: u64, occ: u64) -> u64
    recommends
        sq < 64,
{
    hyp_quint_attacks(1u64 << sq, occ, file_mask(sq % 8)) | hyp_quint_attacks(
        1u64 << sq,
        occ,
        rank_mask(sq / 8),
    )
}

/// The attack set of a bishop on square `sq`: the hyperbola-quintessence sets
/// along the square's diagonal and anti-diagonal.
pub open spec fn bishop_attacks(sq: u64, occ: u64) -> u64
    recommends
        sq < 64,
{
    hyp_quint_attacks(1u64 << sq, occ, diag_mask(((7 + sq / 8) - sq % 8) as u64))
        | hyp_quint_attacks(1u64 << sq, occ, anti_diag_mask((sq / 8 + sq % 8) as u64))
}

/// The attack set of a queen on square `sq`: everything a rook or a bishop
/// there attacks.
pub open spec fn queen_attacks(sq: u64, occ: u64) -> u64
    recommends
        sq < 64,
{
    rook_attacks(sq, occ) | bishop_attacks(sq, occ)
}

/// A queen attacks exactly the union of the rook and bishop attack sets from
/// the same square against the same occupancy.
pub proof fn lemma_queen_is_rook_or_bishop(sq: u64, occ: u64)
    requires
        sq < 64,
    ensures
        queen_attacks(sq, occ) == rook_attacks(sq, occ) | bishop_attacks(sq, occ),
{
}

/// The rook attack set of the rook on `sq`, against the blockers in `occ`.
pub fn rook(sq: Square, occ: BitBoard) -> (r: BitBoard)
    ensures
        r.0 == rook_attacks(sq.idx(), occ.0),
{
    let i = sq.index();
    let tr = i / 8;
    let tf = i % 8;

    BitBoard(hyp_quint(sq, occ, file_masks(tf)).0 | hyp_quint(sq, occ, rank_masks(tr)).0)
}

/// The bishop attack set of the bishop on `sq`, against the blockers in
/// `occ`.
pub fn bishop(sq: Square, occ: BitBoard) -> (r: BitBoard)
    ensures
        r.0 == bishop_attacks(sq.idx(), occ.0),
{
    let i = sq.index();
    let tr = i / 8;
    let tf = i % 8;

    let diag_index = (7 + tr) - tf;
    let anti_diag_index = tr + tf;

    BitBoard(
        hyp_quint(sq, occ, diag_masks(diag_index)).0 | hyp_quint(
            sq,
            occ,
            anti_diag_masks(anti_diag_index),
        ).0,
    )
}

/// The queen attack set of the queen on `sq`, against the blockers in `occ`.
pub fn queen(sq: Square, occ: BitBoard) -> (r: BitBoard)
    ensures
        r.0 == queen_attacks(sq.idx(), occ.0),
{
    BitBoard(rook(sq, occ).0 | bishop(sq, occ).0)
}

/// The union of the rook attack sets of the pieces on the first `n` squares
/// of `b`, each against the blockers in `occ`.
pub open spec fn rook_bb_fold(b: u64, occ: u64, n: int) -> u64
    decreases n,
{
    if n <= 0 {
        0
    } else {
        rook_bb_fold(b, occ, n - 1) | (if nth_bit(b, (n - 1) as u64) {
            rook_attacks((n - 1) as u64, occ)
        } else {
            0
        })
    }
}

/// The union of the bishop attack sets of the pieces on the first `n` squares
/// of `b`.
pub open spec fn bishop_bb_fold(b: u64, occ: u64, n: int) -> u64
    decreases n,
{
    if n <= 0 {
        0
    } else {
        bishop_bb_fold(b, occ, n - 1) | (if nth_bit(b, (n - 1) as u64) {
            bishop_attacks((n - 1) as u64, occ)
        } else {
            0
        })
    }
}

/// The union of the queen attack sets of the pieces on the first `n` squares
/// of `b`.
pub open spec fn queen_bb_fold(b: u64, occ: u64, n: int) -> u64
    decreases n,
{
    if n <= 0 {
        0
    } else {
        queen_bb_fold(b, occ, n - 1) | (if nth_bit(b, (n - 1) as u64) {
            queen_attacks((n - 1) as u64, occ)
        } else {
            0
        })
    }
}

/// The attack set of every rook on `board` at once, each computed against the
/// same blockers `occ`.
pub fn rook_bb(board: BitBoard, occ: BitBoard) -> (r: BitBoard)
    ensures
        r.0 == rook_bb_fold(board.0, occ.0, 64),
{
    let mut bb = BitBoard::empty();
    let mut square: u64 = 0;
    while square < 64
        invariant
            square <= 64,
            bb.0 == rook_bb_fold(board.0, occ.0, square as int),
        decreases 64 - square,
    {
        proof {
            lemma_bit_ops();
        }
        if board.0 & (1u64 << square) != 0 {
            let atk = rook(match_u32_to_sq(square as u32), occ);
            bb.0 = bb.0 | atk.0;
        }
        square = square + 1;
    }
    bb
}

/// The attack set of every bishop on `board` at once, each computed against
/// the same blockers `occ`.
pub fn bishop_bb(board: BitBoard, occ: BitBoard) -> (r: BitBoard)
    ensures
        r.0 == bishop_bb_fold(board.0, occ.0, 64),
{
    let mut bb = BitBoard::empty();
    let mut square: u64 = 0;
    while square < 64
        invariant
            square <= 64,
            bb.0 == bishop_bb_fold(board.0, occ.0, square as int),
        decreases 64 - square,
    {
        proof {
            lemma_bit_ops();
        }
        if board.0 & (1u64 << square) != 0 {
            let atk = bishop(match_u32_to_sq(square as u32), occ);
            bb.0 = bb.0 | atk.0;
        }
        square = square + 1;
    }
    bb
}

/// The attack set of every queen on `board` at once, each computed against
/// the same blockers `occ`.
pub fn queen_bb(board: BitBoard, occ: BitBoard) -> (r: BitBoard)
    ensures
        r.0 == queen_bb_fold(board.0, occ.0, 64),
{
    let mut bb = BitBoard::empty();
    let mut square: u64 = 0;
    while square < 64
        invariant
            square <= 64,
            bb.0 == queen_bb_fold(board.0, occ.0, square as int),
        decreases 64 - square,
    {
        proof {
            lemma_bit_ops();
        }
        if board.0 & (1u64 << square) != 0 {
            let atk = queen(match_u32_to_sq(square as u32), occ);
            bb.0 = bb.0 | atk.0;
        }
        square = square + 1;
    }
    bb
}

/// The mask of the bit positions strictly between `i` and `t`, in whichever
/// order they come.
pub open spec fn strictly_between_mask(i: u64, t: u64) -> u64
    recommends
        i < 64,
        t < 64,
{
    if i < t {
        crate::bitboard::low_mask(t) & !crate::bitboard::low_mask((i + 1) as u64)
    } else {
        crate::bitboard::low_mask(i) & !crate::bitboard::low_mask((t + 1) as u64)
    }
}

/// Whether a slider on square `i` sees square `t` along the line `m` against
/// the blockers in `occ`: `t` lies on the line, is not the slider's own
/// square, and no occupied line square lies strictly between them. The first
/// blocker itself is seen; everything beyond it is not.
pub open spec fn sees_along(occ: u64, m: u64, i: u64, t: u64) -> bool
    recommends
        i < 64,
        t < 64,
{
    nth_bit(m, t) && t != i && (occ & m) & strictly_between_mask(i, t) == 0
}

/// The hyperbola-quintessence computation is correct along any line through
/// the source square: provided the source square itself is not among the
/// line's blockers, the result marks exactly the squares the slider sees
/// along that line, up to and including the first blocker in each direction.
pub proof fn lemma_hyp_quint_visible(occ: u64, mask: u64, i: u64)
    by (bit_vector)
    requires
        i < 64,
        nth_bit(mask, i),
        !nth_bit(occ & mask, i),
    ensures
        forall|t: u64|
            t < 64 ==> #[trigger] nth_bit(hyp_quint_attacks(1u64 << i, occ, mask), t)
                == sees_along(occ, mask, i, t),
{
}

/// A rook whose own square is unoccupied attacks exactly the squares it sees
/// along its file and its rank, first blockers included.
pub proof fn lemma_rook_attacks_visible(sq: u64, occ: u64)
    requires
        sq < 64,
        !nth_bit(occ, sq),
    ensures
        forall|t: u64|
            t < 64 ==> #[trigger] nth_bit(rook_attacks(sq, occ), t) == (sees_along(
                occ,
                file_mask(sq % 8),
                sq,
                t,
            ) || sees_along(occ, rank_mask(sq / 8), sq, t)),
{
    lemma_bit_ops();
    assert(sq < 64 ==> ((file_mask(sq % 8) >> sq) & 1) == 1 && ((rank_mask(sq / 8) >> sq) & 1)
        == 1) by (bit_vector);
    lemma_hyp_quint_visible(occ, file_mask(sq % 8), sq);
    lemma_hyp_quint_visible(occ, rank_mask(sq / 8), sq);
    assert forall|t: u64|
        t < 64 implies #[trigger] nth_bit(rook_attacks(sq, occ), t) == (sees_along(
        occ,
        file_mask(sq % 8),
        sq,
        t,
    ) || sees_along(occ, rank_mask(sq / 8), sq, t)) by {
        assert(nth_bit(hyp_quint_attacks(1u64 << sq, occ, file_mask(sq % 8)), t) == sees_along(
            occ,
            file_mask(sq % 8),
            sq,
            t,
        ));
        assert(nth_bit(hyp_quint_attacks(1u64 << sq, occ, rank_mask(sq / 8)), t) == sees_along(
            occ,
            rank_mask(sq / 8),
            sq,
            t,
        ));
    }
}

/// A bishop whose own square is unoccupied attacks exactly the squares it
/// sees along its diagonal and its anti-diagonal, first blockers included.
pub proof fn lemma_bishop_attacks_visible(sq: u64, occ: u64)
    requires
        sq < 64,
        !nth_bit(occ, sq),
    ensures
        forall|t: u64|
            t < 64 ==> #[trigger] nth_bit(bishop_attacks(sq, occ), t) == (sees_along(
                occ,
                diag_mask(((7 + sq / 8) - sq % 8) as u64),
                sq,
                t,
            ) || sees_along(occ, anti_diag_mask((sq / 8 + sq % 8) as u64), sq, t)),
{
    lemma_bit_ops();
    assert(sq < 64 ==> ((diag_mask(((7 + sq / 8) - sq % 8) as u64) >> sq) & 1) == 1 && ((
    anti_diag_mask((sq / 8 + sq % 8) as u64) >> sq) & 1) == 1) by (bit_vector);
    lemma_hyp_quint_visible(occ, diag_mask(((7 + sq / 8) - sq % 8) as u64), sq);
    lemma_hyp_quint_visible(occ, anti_diag_mask((sq / 8 + sq % 8) as u64), sq);
    assert forall|t: u64|
        t < 64 implies #[trigger] nth_bit(bishop_attacks(sq, occ), t) == (sees_along(
        occ,
        diag_mask(((7 + sq / 8) - sq % 8) as u64),
        sq,
        t,
    ) || sees_along(occ, anti_diag_mask((sq / 8 + sq % 8) as u64), sq, t)) by {
        assert(nth_bit(
            hyp_quint_attacks(1u64 << sq, occ, diag_mask(((7 + sq / 8) - sq % 8) as u64)),
            t,
        ) == sees_along(occ, diag_mask(((7 + sq / 8) - sq % 8) as u64), sq, t));
        assert(nth_bit(
            hyp_quint_attacks(1u64 << sq, occ, anti_diag_mask((sq / 8 + sq % 8) as u64)),
            t,
        ) == sees_along(occ, anti_diag_mask((sq / 8 + sq % 8) as u64), sq, t));
    }
}

/// A queen whose own square is unoccupied attacks exactly the squares it sees
/// along its file, rank, diagonal and anti-diagonal, first blockers included.
pub proof fn lemma_queen_attacks_visible(sq: u64, occ: u64)
    requires
        sq < 64,
        !nth_bit(occ, sq),
    ensures
        forall|t: u64|
            t < 64 ==> #[trigger] nth_bit(queen_attacks(sq, occ), t) == (sees_along(
                occ,
                file_mask(sq % 8),
                sq,
                t,
            ) || sees_along(occ, rank_mask(sq / 8), sq, t) || sees_along(
                occ,
                diag_mask(((7 + sq / 8) - sq % 8) as u64),
                sq,
                t,
            ) || sees_along(occ, anti_diag_mask((sq / 8 + sq % 8) as u64), sq, t)),
{
    lemma_bit_ops();
    lemma_rook_attacks_visible(sq, occ);
    lemma_bishop_attacks_visible(sq, occ);
    assert forall|t: u64|
        t < 64 implies #[trigger] nth_bit(queen_attacks(sq, occ), t) == (sees_along(
        occ,
        file_mask(sq % 8),
        sq,
        t,
    ) || sees_along(occ, rank_mask(sq / 8), sq, t) || sees_along(
        occ,
        diag_mask(((7 + sq / 8) - sq % 8) as u64),
        sq,
        t,
    ) || sees_along(occ, anti_diag_mask((sq / 8 + sq % 8) as u64), sq, t)) by {
        assert(nth_bit(rook_attacks(sq, occ), t) == (sees_along(occ, file_mask(sq % 8), sq, t)
            || sees_along(occ, rank_mask(sq / 8), sq, t)));
        assert(nth_bit(bishop_attacks(sq, occ), t) == (sees_along(
            occ,
            diag_mask(((7 + sq / 8) - sq % 8) as u64),
            sq,
            t,
        ) || sees_along(occ, anti_diag_mask((sq / 8 + sq % 8) as u64), sq, t)));
    }
}

/// A leaper in a corner reaches fewer squares than anywhere else, and none of
/// them across the board edge: from the a1 corner (index 56) a knight has
/// exactly two destinations and a king three, all away from the g- and
/// h-files, and likewise from the h8 corner (index 7) toward the a- and
/// b-files.
pub proof fn lemma_corner_leaper_attacks()
    ensures
        popcnt64(knight::attacks(1u64 << 56)) == 2,
        popcnt64(king::attacks(1u64 << 56)) == 3,
        popcnt64(knight::attacks(1u64 << 7)) == 2,
        popcnt64(king::attacks(1u64 << 7)) == 3,
        knight::attacks(1u64 << 56) & (file_mask(6) | file_mask(7)) == 0,
        king::attacks(1u64 << 56) & (file_mask(6) | file_mask(7)) == 0,
        knight::attacks(1u64 << 7) & (file_mask(0) | file_mask(1)) == 0,
        king::attacks(1u64 << 7) & (file_mask(0) | file_mask(1)) == 0,
{
    assert(popcnt64(knight::attacks(1u64 << 56)) == 2 && popcnt64(king::attacks(1u64 << 56)) == 3
        && popcnt64(knight::attacks(1u64 << 7)) == 2 && popcnt64(king::attacks(1u64 << 7)) == 3 && (
    knight::attacks(1u64 << 56) & (file_mask(6) | file_mask(7))) == 0 && (king::attacks(1u64 << 56)
        & (file_mask(6) | file_mask(7))) == 0 && (knight::attacks(1u64 << 7) & (file_mask(0)
        | file_mask(1))) == 0 && (king::attacks(1u64 << 7) & (file_mask(0) | file_mask(1)))
        == 0) by (bit_vector);
}

} // verus!
