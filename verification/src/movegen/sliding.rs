use vstd::prelude::*;

use crate::bitboard::{lemma_bit_ops, nth_bit, BitBoard};
use crate::Square;

verus! {

/// Whether square `j` lies on the rook occupancy mask of square `sq`: on the
/// same file or rank, excluding `sq` itself and the board edge in the ray
/// direction (edge squares never matter as blockers).
pub open spec fn on_rook_mask(sq: u64, j: u64) -> bool
    recommends
        sq < 64,
        j < 64,
{
    (j % 8 == sq % 8 && j / 8 != sq / 8 && 1 <= j / 8 <= 6) || (j / 8 == sq / 8 && j % 8 != sq % 8
        && 1 <= j % 8 <= 6)
}

/// Whether square `j` lies on the bishop occupancy mask of square `sq`: on
/// the same diagonal or anti-diagonal, excluding `sq` itself and all edge
/// squares.
pub open spec fn on_bishop_mask(sq: u64, j: u64) -> bool
    recommends
        sq < 64,
        j < 64,
{
    (j / 8 + sq % 8 == j % 8 + sq / 8 || j / 8 + j % 8 == sq / 8 + sq % 8) && j != sq && 1 <= j / 8
        <= 6 && 1 <= j % 8 <= 6
}

/// Whether squares `sq` and `j` share a diagonal (constant rank minus file).
pub open spec fn on_diag(sq: u64, j: u64) -> bool {
    j / 8 + sq % 8 == j % 8 + sq / 8
}

/// Whether squares `sq` and `j` share an anti-diagonal (constant rank plus
/// file).
pub open spec fn on_anti_diag(sq: u64, j: u64) -> bool {
    j / 8 + j % 8 == sq / 8 + sq % 8
}

/// The bishop occupancy mask of the given square: every interior square of
/// the bishop's diagonal and anti-diagonal that could block it, which leaves
/// out the square itself and all board-edge squares.
pub fn bishop_atk_mask(square: Square) -> (res: BitBoard)
    ensures
        forall|j: u64| j < 64 ==> nth_bit(res.0, j) == on_bishop_mask(square.idx(), j),
{
    let mut atk = BitBoard::empty();

    let i = square.index();
    let tr = i / 8;
    let tf = i % 8;

    proof {
        lemma_bit_ops();
    }

    // toward larger rank offsets and files, along the diagonal
    let mut k: u64 = 1;
    while tr + k <= 6 && tf + k <= 6
        invariant
            i < 64,
            tr == i / 8,
            tf == i % 8,
            1 <= k <= 7,
            k == 1 || (tr + k <= 7 && tf + k <= 7),
            forall|j: u64|
                j < 64 ==> #[trigger] nth_bit(atk.0, j) == (on_diag(i, j) && tr < j / 8 && j / 8 < tr + k),
        decreases 7 - k,
    {
        proof {
            lemma_bit_ops();
        }
        atk.0 = atk.0 | (1u64 << ((tr + k) * 8 + (tf + k)));
        k = k + 1;
    }
    proof {
        assert(forall|j: u64|
            j < 64 ==> #[trigger] nth_bit(atk.0, j) == (on_diag(i, j) && tr < j / 8 && j / 8 < tr + k));
        assert forall|j: u64| j < 64 implies nth_bit(atk.0, j) == (on_diag(i, j) && tr < j / 8 && j
            / 8 <= 6 && j % 8 <= 6) by {
            assert(nth_bit(atk.0, j) == (on_diag(i, j) && tr < j / 8 && j / 8 < tr + k));
            if on_diag(i, j) && tr < j / 8 {
                assert(j / 8 + tf == j % 8 + tr);
                assert(j % 8 == j / 8 + tf - tr);
                if j / 8 < tr + k {
                    assert(k > 1);
                    assert(tr + k <= 7 && tf + k <= 7);
                    assert(j / 8 <= 6 && j % 8 <= 6);
                }
                if j / 8 <= 6 && j % 8 <= 6 {
                    assert(tr + k > 6 || tf + k > 6);
                    assert(j / 8 < tr + k);
                }
            }
        }
    }

    // toward smaller rank offsets and larger files, along the anti-diagonal
    let mut k: u64 = 1;
    while tr >= k + 1 && tf + k <= 6
        invariant
            i < 64,
            tr == i / 8,
            tf == i % 8,
            1 <= k <= 7,
            k == 1 || (tr >= k && tf + k <= 7),
            forall|j: u64|
                j < 64 ==> #[trigger] nth_bit(atk.0, j) == ((on_diag(i, j) && tr < j / 8 && j / 8 <= 6 && j % 8
                    <= 6) || (on_anti_diag(i, j) && tr < j / 8 + k && j / 8 < tr)),
        decreases 7 - k,
    {
        proof {
            lemma_bit_ops();
        }
        atk.0 = atk.0 | (1u64 << ((tr - k) * 8 + (tf + k)));
        k = k + 1;
    }
    proof {
        assert(forall|j: u64|
            j < 64 ==> #[trigger] nth_bit(atk.0, j) == ((on_diag(i, j) && tr < j / 8 && j / 8 <= 6 && j % 8
                <= 6) || (on_anti_diag(i, j) && tr < j / 8 + k && j / 8 < tr)));
        assert forall|j: u64| j < 64 implies nth_bit(atk.0, j) == ((on_diag(i, j) && tr < j / 8 && j
            / 8 <= 6 && j % 8 <= 6) || (on_anti_diag(i, j) && 1 <= j / 8 && j / 8 < tr && j % 8
            <= 6)) by {
            assert(nth_bit(atk.0, j) == ((on_diag(i, j) && tr < j / 8 && j / 8 <= 6 && j % 8 <= 6)
                || (on_anti_diag(i, j) && tr < j / 8 + k && j / 8 < tr)));
            if on_anti_diag(i, j) && j / 8 < tr {
                assert(j / 8 + j % 8 == tr + tf);
                assert(j % 8 == tr + tf - j / 8);
                if tr < j / 8 + k {
                    assert(k == 1 || (tr >= k && tf + k <= 7));
                    assert(1 <= j / 8 && j % 8 <= 6);
                }
                if 1 <= j / 8 && j % 8 <= 6 {
                    assert(tr < k + 1 || tf + k > 6);
                    assert(tr < j / 8 + k);
                }
            }
        }
    }

    // toward larger rank offsets and smaller files, along the anti-diagonal
    let mut k: u64 = 1;
    while tr + k <= 6 && tf >= k + 1
        invariant
            i < 64,
            tr == i / 8,
            tf == i % 8,
            1 <= k <= 7,
            k == 1 || (tr + k <= 7 && tf >= k),
            forall|j: u64|
                j < 64 ==> #[trigger] nth_bit(atk.0, j) == ((on_diag(i, j) && tr < j / 8 && j / 8 <= 6 && j % 8
                    <= 6) || (on_anti_diag(i, j) && 1 <= j / 8 && j / 8 < tr && j % 8 <= 6) || (
                on_anti_diag(i, j) && tr < j / 8 && j / 8 < tr + k)),
        decreases 7 - k,
    {
        proof {
            lemma_bit_ops();
        }
        atk.0 = atk.0 | (1u64 << ((tr + k) * 8 + (tf - k)));
        k = k + 1;
    }
    proof {
        assert(forall|j: u64|
            j < 64 ==> #[trigger] nth_bit(atk.0, j) == ((on_diag(i, j) && tr < j / 8 && j / 8 <= 6 && j % 8
                <= 6) || (on_anti_diag(i, j) && 1 <= j / 8 && j / 8 < tr && j % 8 <= 6) || (
            on_anti_diag(i, j) && tr < j / 8 && j / 8 < tr + k)));
        assert forall|j: u64| j < 64 implies nth_bit(atk.0, j) == ((on_diag(i, j) && tr < j / 8 && j
            / 8 <= 6 && j % 8 <= 6) || (on_anti_diag(i, j) && 1 <= j / 8 && j / 8 < tr && j % 8
            <= 6) || (on_anti_diag(i, j) && tr < j / 8 && j / 8 <= 6 && 1 <= j % 8)) by {
            assert(nth_bit(atk.0, j) == ((on_diag(i, j) && tr < j / 8 && j / 8 <= 6 && j % 8 <= 6)
                || (on_anti_diag(i, j) && 1 <= j / 8 && j / 8 < tr && j % 8 <= 6) || (on_anti_diag(
                i,
                j,
            ) && tr < j / 8 && j / 8 < tr + k)));
            if on_anti_diag(i, j) && tr < j / 8 {
                assert(j / 8 + j % 8 == tr + tf);
                assert(j % 8 == tr + tf - j / 8);
                if j / 8 < tr + k {
                    assert(k == 1 || (tr + k <= 7 && tf >= k));
                    assert(j / 8 <= 6 && 1 <= j % 8);
                }
                if j / 8 <= 6 && 1 <= j % 8 {
                    assert(tr + k > 6 || tf < k + 1);
                    assert(j / 8 < tr + k);
                }
            }
        }
    }

    // toward smaller rank offsets and files, along the diagonal
    let mut k: u64 = 1;
    while tr >= k + 1 && tf >= k + 1
        invariant
            i < 64,
            tr == i / 8,
            tf == i % 8,
            1 <= k <= 7,
            k == 1 || (tr >= k && tf >= k),
            forall|j: u64|
                j < 64 ==> #[trigger] nth_bit(atk.0, j) == ((on_diag(i, j) && tr < j / 8 && j / 8 <= 6 && j % 8
                    <= 6) || (on_anti_diag(i, j) && 1 <= j / 8 && j / 8 < tr && j % 8 <= 6) || (
                on_anti_diag(i, j) && tr < j / 8 && j / 8 <= 6 && 1 <= j % 8) || (on_diag(i, j)
                    && tr < j / 8 + k && j / 8 < tr)),
        decreases 7 - k,
    {
        proof {
            lemma_bit_ops();
        }
        atk.0 = atk.0 | (1u64 << ((tr - k) * 8 + (tf - k)));
        k = k + 1;
    }
    proof {
        assert(forall|j: u64|
            j < 64 ==> #[trigger] nth_bit(atk.0, j) == ((on_diag(i, j) && tr < j / 8 && j / 8 <= 6 && j % 8
                <= 6) || (on_anti_diag(i, j) && 1 <= j / 8 && j / 8 < tr && j % 8 <= 6) || (
            on_anti_diag(i, j) && tr < j / 8 && j / 8 <= 6 && 1 <= j % 8) || (on_diag(i, j) && tr
                - k < j / 8 && j / 8 < tr)));
        assert forall|j: u64| j < 64 implies nth_bit(atk.0, j) == on_bishop_mask(i, j) by {
            assert(nth_bit(atk.0, j) == ((on_diag(i, j) && tr < j / 8 && j / 8 <= 6 && j % 8 <= 6)
                || (on_anti_diag(i, j) && 1 <= j / 8 && j / 8 < tr && j % 8 <= 6) || (on_anti_diag(
                i,
                j,
            ) && tr < j / 8 && j / 8 <= 6 && 1 <= j % 8) || (on_diag(i, j) && tr < j / 8 + k && j
                / 8 < tr)));
            if j / 8 == tr && j % 8 == tf {
                assert(j == i);
            }
            if on_diag(i, j) && tr < j / 8 {
                assert(j / 8 + tf == j % 8 + tr);
                assert(j % 8 == j / 8 + tf - tr);
            }
            if on_anti_diag(i, j) {
                assert(j / 8 + j % 8 == tr + tf);
                assert(j % 8 == tr + tf - j / 8);
            }
            if on_diag(i, j) && j / 8 < tr {
                assert(j / 8 + tf == j % 8 + tr);
                assert(j % 8 + tr == j / 8 + tf);
                if tr < j / 8 + k {
                    assert(k == 1 || (tr >= k && tf >= k));
                    assert(1 <= j / 8 && 1 <= j % 8);
                }
                if 1 <= j / 8 && 1 <= j % 8 {
                    assert(tr < k + 1 || tf < k + 1);
                    assert(tr < j / 8 + k);
                }
            }
        }
    }

    atk
}

/// The rook occupancy mask of the given square: every square of the rook's
/// file and rank that could block it, which leaves out the square itself and
/// the board edge at the end of each ray.
pub fn rook_atk_mask(square: Square) -> (res: BitBoard)
    ensures
        forall|j: u64| j < 64 ==> nth_bit(res.0, j) == on_rook_mask(square.idx(), j),
{
    let mut atk = BitBoard::empty();

    let i = square.index();
    let tr = i / 8;
    let tf = i % 8;

    proof {
        lemma_bit_ops();
    }

    // north of the square: same file, smaller rank offsets down to 1
    let mut rank = tr;
    while rank > 1
        invariant
            i < 64,
            tr == i / 8,
            tf == i % 8,
            rank <= tr,
            1 <= rank || rank == tr,
            forall|j: u64|
                j < 64 ==> #[trigger] nth_bit(atk.0, j) == (j % 8 == tf && rank <= j / 8 && j / 8 < tr),
        decreases rank,
    {
        proof {
            lemma_bit_ops();
        }
        rank = rank - 1;
        atk.0 = atk.0 | (1u64 << (rank * 8 + tf));
    }

    // south of the square: same file, larger rank offsets up to 6
    let mut rank = tr + 1;
    while rank <= 6
        invariant
            i < 64,
            tr == i / 8,
            tf == i % 8,
            tr < rank,
            rank <= 7 || rank == tr + 1,
            forall|j: u64|
                j < 64 ==> #[trigger] nth_bit(atk.0, j) == ((j % 8 == tf && 1 <= j / 8 && j / 8 < tr) || (j % 8
                    == tf && tr < j / 8 && j / 8 < rank)),
        decreases 7 - rank,
    {
        proof {
            lemma_bit_ops();
        }
        atk.0 = atk.0 | (1u64 << (rank * 8 + tf));
        rank = rank + 1;
    }

    // west of the square: same rank, smaller files down to 1
    let mut file = tf;
    while file > 1
        invariant
            i < 64,
            tr == i / 8,
            tf == i % 8,
            file <= tf,
            1 <= file || file == tf,
            forall|j: u64|
                j < 64 ==> #[trigger] nth_bit(atk.0, j) == ((j % 8 == tf && j / 8 != tr && 1 <= j / 8 <= 6) || (
                j / 8 == tr && file <= j % 8 && j % 8 < tf)),
        decreases file,
    {
        proof {
            lemma_bit_ops();
        }
        file = file - 1;
        atk.0 = atk.0 | (1u64 << (tr * 8 + file));
    }

    // east of the square: same rank, larger files up to 6
    let mut file = tf + 1;
    while file <= 6
        invariant
            i < 64,
            tr == i / 8,
            tf == i % 8,
            tf < file,
            file <= 7 || file == tf + 1,
            forall|j: u64|
                j < 64 ==> #[trigger] nth_bit(atk.0, j) == ((j % 8 == tf && j / 8 != tr && 1 <= j / 8 <= 6) || (
                j / 8 == tr && 1 <= j % 8 && j % 8 < tf) || (j / 8 == tr && tf < j % 8 && j % 8
                    < file)),
        decreases 7 - file,
    {
        proof {
            lemma_bit_ops();
        }
        atk.0 = atk.0 | (1u64 << (tr * 8 + file));
        file = file + 1;
    }

    atk
}

} // verus!
