use vstd::prelude::*;

use crate::{Colour, Kind, Piece, Square};

verus! {

/// A 64-bit occupancy mask: bit `i` set means square `i` is occupied (or
/// attacked, depending on context), under the a8-origin square ordering.
#[derive(Copy, Clone, Debug, PartialEq, Eq, Structural)]
pub struct BitBoard(pub u64);

/// Whether bit `i` of `x` is set.
pub open spec fn nth_bit(x: u64, i: u64) -> bool
    recommends
        i < 64,
{
    ((x >> i) & 1) == 1
}

/// The basic facts about single-bit operations that the rest of the crate
/// works from: how `|`, `&`, `^` and single-bit masks act on individual bits.
pub proof fn lemma_bit_ops()
    ensures
        forall|j: u64| j < 64 ==> !nth_bit(0u64, j),
        forall|i: u64, j: u64| i < 64 && j < 64 ==> nth_bit(1u64 << i, j) == (i == j),
        forall|x: u64, i: u64, j: u64|
            i < 64 && j < 64 ==> nth_bit(x | (1u64 << i), j) == (i == j || nth_bit(x, j)),
        forall|x: u64, i: u64, j: u64|
            i < 64 && j < 64 ==> nth_bit(x & !(1u64 << i), j) == (i != j && nth_bit(x, j)),
        forall|x: u64, i: u64, j: u64|
            i < 64 && j < 64 ==> nth_bit(x ^ (1u64 << i), j) == (if i == j {
                !nth_bit(x, j)
            } else {
                nth_bit(x, j)
            }),
        forall|x: u64, y: u64, j: u64|
            j < 64 ==> nth_bit(x | y, j) == (nth_bit(x, j) || nth_bit(y, j)),
        forall|x: u64, y: u64, j: u64|
            j < 64 ==> nth_bit(x & y, j) == (nth_bit(x, j) && nth_bit(y, j)),
        forall|x: u64, i: u64| i < 64 ==> ((x & (1u64 << i)) != 0) == nth_bit(x, i),
        forall|x: u64| #[trigger] (x | 0u64) == x,
        forall|x: u64| #[trigger] (x & !0u64) == x,
        forall|x: u64, y: u64| #[trigger] (x & y) <= x,
        forall|x: u64, y: u64| x - (x & y) == #[trigger] (x & !y),
{
    assert((forall|j: u64| j < 64 ==> ((0u64 >> j) & 1) != 1) && (forall|i: u64, j: u64|
        i < 64 && j < 64 ==> ((((1u64 << i) >> j) & 1) == 1) == (i == j)) && (forall|
        x: u64,
        i: u64,
        j: u64,
    |
        i < 64 && j < 64 ==> ((((x | (1u64 << i)) >> j) & 1) == 1) == (i == j || ((x >> j) & 1)
            == 1)) && (forall|x: u64, i: u64, j: u64|
        i < 64 && j < 64 ==> ((((x & !(1u64 << i)) >> j) & 1) == 1) == (i != j && ((x >> j) & 1)
            == 1)) && (forall|x: u64, i: u64, j: u64|
        i < 64 && j < 64 ==> ((((x ^ (1u64 << i)) >> j) & 1) == 1) == (if i == j {
            !(((x >> j) & 1) == 1)
        } else {
            ((x >> j) & 1) == 1
        }))) by (bit_vector);
    assert((forall|x: u64, y: u64, j: u64|
        j < 64 ==> ((((x | y) >> j) & 1) == 1) == ((((x >> j) & 1) == 1) || (((y >> j) & 1)
            == 1))) && (forall|x: u64, y: u64, j: u64|
        j < 64 ==> ((((x & y) >> j) & 1) == 1) == ((((x >> j) & 1) == 1) && (((y >> j) & 1)
            == 1))) && (forall|x: u64, i: u64|
        i < 64 ==> ((x & (1u64 << i)) != 0) == (((x >> i) & 1) == 1))) by (bit_vector);
    assert((forall|x: u64| #[trigger] (x | 0u64) == x) && (forall|x: u64|
        #[trigger] (x & !0u64) == x) && (forall|x: u64, y: u64| #[trigger] (x & y) <= x) && (forall|
        x: u64,
        y: u64,
    | x - (x & y) == #[trigger] (x & !y))) by (bit_vector);
}

/// All 64 bits set.
pub const UNIVERSAL: u64 = 0xffff_ffff_ffff_ffff;

/// The empty mask.
pub const EMPTY: u64 = 0;

/// Every square except the a-file. ANDing with this after an eastward shift
/// removes bits that would wrap from the h-file onto the a-file.
pub const NOT_A_FILE: u64 = 0xfefe_fefe_fefe_fefe;

/// Every square except the h-file. ANDing with this after a westward shift
/// removes bits that would wrap from the a-file onto the h-file.
pub const NOT_H_FILE: u64 = 0x7f7f_7f7f_7f7f_7f7f;

/// Every square except the g- and h-files, for two-file eastward knight moves.
pub const NOT_HG_FILE: u64 = 0x3f3f_3f3f_3f3f_3f3f;

/// Every square except the a- and b-files, for two-file westward knight moves.
pub const NOT_AB_FILE: u64 = 0xfcfc_fcfc_fcfc_fcfc;

/// The a-file.
pub const FILE_A: u64 = 0x0101_0101_0101_0101;

/// Rank 8, the rank of squares 0 through 7.
pub const RANK_8: u64 = 0xff;

/// The a8-h1 main diagonal: the squares whose rank offset equals their file.
pub const MAIN_DIAG: u64 = 0x8040_2010_0804_0201;

/// The h8-a1 main anti-diagonal: the squares whose rank offset plus file is 7.
pub const MAIN_ANTI_DIAG: u64 = 0x0102_0408_1020_4080;

/// The mask of the rank with rank offset `r` (0 is rank 8, 7 is rank 1).
pub open spec fn rank_mask(r: u64) -> u64
    recommends
        r < 8,
{
    RANK_8 << (8 * r)
}

/// The mask of file `f` (0 is the a-file, 7 the h-file).
pub open spec fn file_mask(f: u64) -> u64
    recommends
        f < 8,
{
    FILE_A << f
}

/// The mask of diagonal `d` in [0, 15), where a square with rank offset `r`
/// and file `f` lies on diagonal `7 + r - f`. Every diagonal is a shift of the
/// main diagonal by whole ranks.
pub open spec fn diag_mask(d: u64) -> u64
    recommends
        d < 15,
{
    if d >= 7 {
        MAIN_DIAG << ((8 * (d - 7)) as u64)
    } else {
        MAIN_DIAG >> ((8 * (7 - d)) as u64)
    }
}

/// The mask of anti-diagonal `d` in [0, 15), where a square with rank offset
/// `r` and file `f` lies on anti-diagonal `r + f`.
pub open spec fn anti_diag_mask(d: u64) -> u64
    recommends
        d < 15,
{
    if d >= 7 {
        MAIN_ANTI_DIAG << ((8 * (d - 7)) as u64)
    } else {
        MAIN_ANTI_DIAG >> ((8 * (7 - d)) as u64)
    }
}

/// The rank mask for rank offset `r`, as a value.
pub fn rank_masks(r: u64) -> (m: u64)
    requires
        r < 8,
    ensures
        m == rank_mask(r),
{
    RANK_8 << (8 * r)
}

/// The file mask for file `f`, as a value.
pub fn file_masks(f: u64) -> (m: u64)
    requires
        f < 8,
    ensures
        m == file_mask(f),
{
    FILE_A << f
}

/// The diagonal mask for diagonal `d`, as a value.
pub fn diag_masks(d: u64) -> (m: u64)
    requires
        d < 15,
    ensures
        m == diag_mask(d),
{
    if d >= 7 {
        MAIN_DIAG << (8 * (d - 7))
    } else {
        MAIN_DIAG >> (8 * (7 - d))
    }
}

/// The anti-diagonal mask for anti-diagonal `d`, as a value.
pub fn anti_diag_masks(d: u64) -> (m: u64)
    requires
        d < 15,
    ensures
        m == anti_diag_mask(d),
{
    if d >= 7 {
        MAIN_ANTI_DIAG << (8 * (d - 7))
    } else {
        MAIN_ANTI_DIAG >> (8 * (7 - d))
    }
}

/// `x` with its 64 bits in reverse order, computed by swapping ever larger
/// adjacent groups: single bits, pairs, nibbles, bytes, byte pairs, and
/// finally the two 32-bit halves.
pub open spec fn rev64(x: u64) -> u64 {
    let a = ((x >> 1) & 0x5555_5555_5555_5555) | ((x & 0x5555_5555_5555_5555) << 1);
    let b = ((a >> 2) & 0x3333_3333_3333_3333) | ((a & 0x3333_3333_3333_3333) << 2);
    let c = ((b >> 4) & 0x0f0f_0f0f_0f0f_0f0f) | ((b & 0x0f0f_0f0f_0f0f_0f0f) << 4);
    let d = ((c >> 8) & 0x00ff_00ff_00ff_00ff) | ((c & 0x00ff_00ff_00ff_00ff) << 8);
    let e = ((d >> 16) & 0x0000_ffff_0000_ffff) | ((d & 0x0000_ffff_0000_ffff) << 16);
    (e >> 32) | (e << 32)
}

/// Bit `i` of `rev64(x)` is bit `63 - i` of `x`.
pub proof fn lemma_rev64_bits(x: u64)
    ensures
        forall|i: u64| i < 64 ==> nth_bit(rev64(x), i) == nth_bit(x, (63 - i) as u64),
{
    assert(forall|i: u64|
        i < 64 ==> (((rev64(x) >> i) & 1) == 1) == (((x >> ((63 - i) as u64)) & 1)
            == 1)) by (bit_vector);
}

/// `x` with its eight ranks in reverse order: bytes are swapped pairwise, then
/// in 16-bit blocks, then as the two 32-bit halves.
pub open spec fn vflip64(x: u64) -> u64 {
    let a = ((x >> 8) & 0x00ff_00ff_00ff_00ff) | ((x & 0x00ff_00ff_00ff_00ff) << 8);
    let b = ((a >> 16) & 0x0000_ffff_0000_ffff) | ((a & 0x0000_ffff_0000_ffff) << 16);
    (b >> 32) | (b << 32)
}

/// Bit `i` of `vflip64(x)` is bit `i ^ 56` of `x`: the same file, with the
/// rank offset mirrored.
pub proof fn lemma_vflip64_bits(x: u64)
    ensures
        forall|i: u64| i < 64 ==> nth_bit(vflip64(x), i) == nth_bit(x, i ^ 56),
{
    assert(forall|i: u64|
        i < 64 ==> (((vflip64(x) >> i) & 1) == 1) == (((x >> (i ^ 56)) & 1) == 1)) by (bit_vector);
}

/// `x` with the eight files of every rank in reverse order: bits are swapped
/// pairwise, then in 2-bit groups, then in 4-bit groups, within each byte.
pub open spec fn hflip64(x: u64) -> u64 {
    let a = ((x >> 1) & 0x5555_5555_5555_5555) | ((x & 0x5555_5555_5555_5555) << 1);
    let b = ((a >> 2) & 0x3333_3333_3333_3333) | ((a & 0x3333_3333_3333_3333) << 2);
    ((b >> 4) & 0x0f0f_0f0f_0f0f_0f0f) | ((b & 0x0f0f_0f0f_0f0f_0f0f) << 4)
}

/// Bit `i` of `hflip64(x)` is bit `i ^ 7` of `x`: the same rank, with the
/// file mirrored.
pub proof fn lemma_hflip64_bits(x: u64)
    ensures
        forall|i: u64| i < 64 ==> nth_bit(hflip64(x), i) == nth_bit(x, i ^ 7),
{
    assert(forall|i: u64|
        i < 64 ==> (((hflip64(x) >> i) & 1) == 1) == (((x >> (i ^ 7)) & 1) == 1)) by (bit_vector);
}

impl BitBoard {
    /// A mask with exactly the given square's bit set.
    pub fn from_sq(square: Square) -> (r: Self)
        ensures
            r.0 == 1u64 << square.idx(),
    {
        BitBoard(1u64 << square.index())
    }

    /// The empty mask.
    pub fn empty() -> (r: Self)
        ensures
            r.0 == 0,
    {
        BitBoard(0)
    }

    /// Whether no bit is set.
    pub fn is_empty(&self) -> (r: bool)
        ensures
            r == (self.0 == 0),
    {
        self.0 == 0
    }

    /// Whether the two masks are equal.
    pub fn is_eq(&self, rhs: Self) -> (r: bool)
        ensures
            r == (self.0 == rhs.0),
    {
        self.0 == rhs.0
    }

    /// Sets the given square's bit; every other bit keeps its value.
    pub fn set_bit(&mut self, square: Square)
        ensures
            final(self).0 == old(self).0 | (1u64 << square.idx()),
            nth_bit(final(self).0, square.idx()),
            forall|j: u64|
                j < 64 && j != square.idx() ==> nth_bit(final(self).0, j) == nth_bit(
                    old(self).0,
                    j,
                ),
    {
        self.0 = self.0 | BitBoard::from_sq(square).0;
        proof {
            lemma_bit_ops();
        }
    }

    /// Flips the given square's bit; every other bit keeps its value.
    pub fn toggle_bit(&mut self, square: Square)
        ensures
            final(self).0 == old(self).0 ^ (1u64 << square.idx()),
            nth_bit(final(self).0, square.idx()) == !nth_bit(old(self).0, square.idx()),
            forall|j: u64|
                j < 64 && j != square.idx() ==> nth_bit(final(self).0, j) == nth_bit(
                    old(self).0,
                    j,
                ),
    {
        self.0 = self.0 ^ BitBoard::from_sq(square).0;
        proof {
            lemma_bit_ops();
        }
    }

    /// Whether the given square's bit is set.
    pub fn get_bit(&self, square: Square) -> (r: bool)
        ensures
            r == nth_bit(self.0, square.idx()),
    {
        proof {
            lemma_bit_ops();
        }
        self.0 & BitBoard::from_sq(square).0 != 0
    }

    /// Clears the given square's bit unconditionally: afterwards the square's
    /// bit is never set, whatever it held before, and every other bit keeps
    /// its value.
    pub fn pop_bit(&mut self, square: Square)
        ensures
            final(self).0 == old(self).0 & !(1u64 << square.idx()),
            !nth_bit(final(self).0, square.idx()),
            forall|j: u64|
                j < 64 && j != square.idx() ==> nth_bit(final(self).0, j) == nth_bit(
                    old(self).0,
                    j,
                ),
    {
        self.0 = self.0 & !BitBoard::from_sq(square).0;
        proof {
            lemma_bit_ops();
        }
    }

    /// The mask of the squares whose slot holds a piece drawn with the letter
    /// `compare`.
    pub fn gen(pieces: &[Option<Piece>; 64], compare: char) -> (r: Self)
        ensures
            board_matches(r.0, pieces@, compare),
    {
        let mut b: u64 = 0;
        let mut i: usize = 0;
        proof {
            lemma_bit_ops();
        }
        while i < 64
            invariant
                i <= 64,
                forall|t: int|
                    0 <= t < i ==> #[trigger] nth_bit(b, t as u64) == is_symbol(
                        pieces@[t],
                        compare,
                    ),
                forall|t: u64| i <= t < 64 ==> !nth_bit(b, t),
            decreases 64 - i,
        {
            proof {
                lemma_bit_ops();
            }
            let set = match &pieces[i] {
                Some(p) => p.symbol == compare,
                None => false,
            };
            if set {
                b = b | (1u64 << (i as u64));
            }
            i = i + 1;
        }
        BitBoard(b)
    }

    /// The mask whose bits are the digits of a binary numeral, with the
    /// numeral's least significant digit placed at the board's last square:
    /// the string is parsed as a binary number, then bit-reversed.
    pub fn from_string(bin_str: String) -> (r: Self)
        requires
            1 <= bin_str@.len() <= 64,
            forall|i: int| 0 <= i < bin_str@.len() ==> bin_str@[i] == '0' || bin_str@[i] == '1',
        ensures
            r.0 == rev64(bin_val(bin_str@, bin_str@.len() as int) as u64),
    {
        let s = bin_str.as_str();
        let n = s.unicode_len();
        let mut v: u64 = 0;
        let mut i: usize = 0;
        proof {
            assert(low_mask(0) == 0 && low_mask(64) == 0xffff_ffff_ffff_ffff) by (bit_vector);
        }
        while i < n
            invariant
                i <= n,
                n == bin_str@.len(),
                n <= 64,
                s@ == bin_str@,
                forall|t: int| 0 <= t < bin_str@.len() ==> bin_str@[t] == '0' || bin_str@[t] == '1',
                v == bin_val(bin_str@, i as int),
                v <= low_mask(i as u64),
            decreases n - i,
        {
            proof {
                lemma_low_mask_grow(v, i as u64);
            }
            let c = s.get_char(i);
            v = v * 2 + (if c == '1' {
                1
            } else {
                0
            });
            i = i + 1;
        }
        BitBoard(v).reversed()
    }

    /// The mask with its bits in reverse order, so that the board reads as if
    /// rotated by 180 degrees.
    pub fn reversed(&self) -> (r: Self)
        ensures
            r.0 == rev64(self.0),
    {
        let x = self.0;
        let a = ((x >> 1) & 0x5555_5555_5555_5555) | ((x & 0x5555_5555_5555_5555) << 1);
        let b = ((a >> 2) & 0x3333_3333_3333_3333) | ((a & 0x3333_3333_3333_3333) << 2);
        let c = ((b >> 4) & 0x0f0f_0f0f_0f0f_0f0f) | ((b & 0x0f0f_0f0f_0f0f_0f0f) << 4);
        let d = ((c >> 8) & 0x00ff_00ff_00ff_00ff) | ((c & 0x00ff_00ff_00ff_00ff) << 8);
        let e = ((d >> 16) & 0x0000_ffff_0000_ffff) | ((d & 0x0000_ffff_0000_ffff) << 16);
        BitBoard((e >> 32) | (e << 32))
    }

    /// Rotates the board by 180 degrees: bit `i` afterwards is bit `63 - i`
    /// before.
    pub fn rot_180(&mut self)
        ensures
            final(self).0 == rev64(old(self).0),
            forall|i: u64|
                i < 64 ==> nth_bit(final(self).0, i) == nth_bit(old(self).0, (63 - i) as u64),
    {
        proof {
            lemma_rev64_bits(self.0);
        }
        self.0 = self.reversed().0;
    }

    /// Mirrors the board vertically (swaps ranks): bit `i` afterwards is bit
    /// `i ^ 56` before, the square on the same file with the rank offset
    /// mirrored.
    pub fn flip_v(&mut self)
        ensures
            final(self).0 == vflip64(old(self).0),
            forall|i: u64| i < 64 ==> nth_bit(final(self).0, i) == nth_bit(old(self).0, i ^ 56),
    {
        let x = self.0;
        let a = ((x >> 8) & 0x00ff_00ff_00ff_00ff) | ((x & 0x00ff_00ff_00ff_00ff) << 8);
        let b = ((a >> 16) & 0x0000_ffff_0000_ffff) | ((a & 0x0000_ffff_0000_ffff) << 16);
        self.0 = (b >> 32) | (b << 32);
        proof {
            lemma_vflip64_bits(old(self).0);
            assert(self.0 == vflip64(old(self).0));
            assert forall|i: u64| i < 64 implies nth_bit(self.0, i) == nth_bit(
                old(self).0,
                i ^ 56,
            ) by {
                assert(nth_bit(vflip64(old(self).0), i) == nth_bit(old(self).0, i ^ 56));
            }
        }
    }

    /// Mirrors the board horizontally (swaps files): bit `i` afterwards is bit
    /// `i ^ 7` before, the square on the same rank with the file mirrored.
    pub fn flip_h(&mut self)
        ensures
            final(self).0 == hflip64(old(self).0),
            forall|i: u64| i < 64 ==> nth_bit(final(self).0, i) == nth_bit(old(self).0, i ^ 7),
    {
        let x = self.0;
        let a = ((x >> 1) & 0x5555_5555_5555_5555) | ((x & 0x5555_5555_5555_5555) << 1);
        let b = ((a >> 2) & 0x3333_3333_3333_3333) | ((a & 0x3333_3333_3333_3333) << 2);
        self.0 = ((b >> 4) & 0x0f0f_0f0f_0f0f_0f0f) | ((b & 0x0f0f_0f0f_0f0f_0f0f) << 4);
        proof {
            lemma_hflip64_bits(old(self).0);
            assert(self.0 == hflip64(old(self).0));
            assert forall|i: u64| i < 64 implies nth_bit(self.0, i) == nth_bit(
                old(self).0,
                i ^ 7,
            ) by {
                assert(nth_bit(hflip64(old(self).0), i) == nth_bit(old(self).0, i ^ 7));
            }
        }
    }

    /// The number of set bits.
    pub fn count_bits(&self) -> (r: u32)
        ensures
            r == popcnt64(self.0),
    {
        let x = self.0;
        proof {
            assert((forall|v: u64| ((v >> 1) & 0x5555_5555_5555_5555) <= v) && (forall|v: u64|
                (v & 0x3333_3333_3333_3333) + ((v >> 2) & 0x3333_3333_3333_3333)
                    <= 0x6666_6666_6666_6666) && (forall|v: u64|
                v <= 0x6666_6666_6666_6666 ==> v + (v >> 4) <= 0x7000_0000_0000_0000) && (forall|
                v: u64,
            |
                (v & 0xff) + ((v >> 8) & 0xff) + ((v >> 16) & 0xff) + ((v >> 24) & 0xff) + ((v
                    >> 32) & 0xff) + ((v >> 40) & 0xff) + ((v >> 48) & 0xff) + ((v >> 56) & 0xff)
                    < 0x1000)) by (bit_vector);
        }
        let a = x - ((x >> 1) & 0x5555_5555_5555_5555);
        let b = (a & 0x3333_3333_3333_3333) + ((a >> 2) & 0x3333_3333_3333_3333);
        let c = (b + (b >> 4)) & 0x0f0f_0f0f_0f0f_0f0f;
        let r = (c & 0xff) + ((c >> 8) & 0xff) + ((c >> 16) & 0xff) + ((c >> 24) & 0xff) + ((c
            >> 32) & 0xff) + ((c >> 40) & 0xff) + ((c >> 48) & 0xff) + ((c >> 56) & 0xff);
        r as u32
    }

    /// The index of the least significant set bit, or `None` when no bit is
    /// set.
    pub fn get_ls1b(&self) -> (r: Option<u32>)
        ensures
            match r {
                Option::Some(i) => self.0 != 0 && i < 64 && nth_bit(self.0, i as u64) && (forall|
                    j: u64,
                |
                    j < i ==> !nth_bit(self.0, j)),
                Option::None => self.0 == 0,
            },
    {
        if self.0 != 0 {
            proof {
                vstd::std_specs::bits::axiom_u64_trailing_zeros(self.0);
            }
            Some(self.0.trailing_zeros())
        } else {
            None
        }
    }
}

/// Whether the slot holds a piece drawn with the given letter.
pub open spec fn is_symbol(p: Option<Piece>, c: char) -> bool {
    match p {
        Option::Some(pc) => pc.symbol == c,
        Option::None => false,
    }
}

/// The letter of the piece with colour index `c` (0 black, 1 white) and kind
/// index `k` (pawn, knight, bishop, rook, queen, king in that order): lower
/// case for black, upper case for white.
pub open spec fn symbol_of(c: int, k: int) -> char
    recommends
        0 <= c < 2,
        0 <= k < 6,
{
    if c == 0 {
        if k == 0 {
            'p'
        } else if k == 1 {
            'n'
        } else if k == 2 {
            'b'
        } else if k == 3 {
            'r'
        } else if k == 4 {
            'q'
        } else {
            'k'
        }
    } else {
        if k == 0 {
            'P'
        } else if k == 1 {
            'N'
        } else if k == 2 {
            'B'
        } else if k == 3 {
            'R'
        } else if k == 4 {
            'Q'
        } else {
            'K'
        }
    }
}

/// The piece kind with the given index, in the bucket order of the position
/// bitboards.
pub open spec fn kind_of(k: int) -> Kind
    recommends
        0 <= k < 6,
{
    if k == 0 {
        Kind::Pawn
    } else if k == 1 {
        Kind::Knight
    } else if k == 2 {
        Kind::Bishop
    } else if k == 3 {
        Kind::Rook
    } else if k == 4 {
        Kind::Queen
    } else {
        Kind::King
    }
}

/// The bucket index of a piece kind.
pub open spec fn kind_index(k: Kind) -> int {
    match k {
        Kind::Pawn => 0,
        Kind::Knight => 1,
        Kind::Bishop => 2,
        Kind::Rook => 3,
        Kind::Queen => 4,
        Kind::King => 5,
    }
}

/// The colour with the given bucket index (0 black, 1 white).
pub open spec fn colour_of(c: int) -> Colour
    recommends
        0 <= c < 2,
{
    if c == 0 {
        Colour::Black
    } else {
        Colour::White
    }
}

/// The bucket index of a colour.
pub open spec fn colour_index(c: Colour) -> int
    recommends
        c != Colour::Undefined,
{
    match c {
        Colour::Black => 0,
        Colour::White => 1,
        Colour::Undefined => 0,
    }
}

/// The canonical piece with the given colour and kind indices: its letter
/// agrees with its kind and colour.
pub open spec fn canonical_piece(c: int, k: int) -> Piece
    recommends
        0 <= c < 2,
        0 <= k < 6,
{
    Piece { kind: kind_of(k), colour: colour_of(c), symbol: symbol_of(c, k) }
}

/// Whether a board slot is empty or holds a piece whose letter agrees with
/// its kind and colour.
pub open spec fn wf_slot(p: Option<Piece>) -> bool {
    match p {
        Option::Some(pc) => pc.colour != Colour::Undefined && pc.symbol == symbol_of(
            colour_index(pc.colour),
            kind_index(pc.kind),
        ),
        Option::None => true,
    }
}

/// Whether mask `b` marks exactly the squares whose slot holds a piece drawn
/// with the letter `c`.
pub open spec fn board_matches(b: u64, pieces: Seq<Option<Piece>>, c: char) -> bool {
    forall|t: int| 0 <= t < 64 ==> #[trigger] nth_bit(b, t as u64) == is_symbol(pieces[t], c)
}

/// The piece that the position bitboards hold on square `t`, scanning the
/// black buckets and then the white ones in kind order: the first bucket with
/// the square's bit set names the piece.
pub open spec fn piece_at(boards: [[BitBoard; 6]; 2], t: u64) -> Option<Piece>
    recommends
        t < 64,
{
    if nth_bit(boards[0][0].0, t) {
        Option::Some(canonical_piece(0, 0))
    } else if nth_bit(boards[0][1].0, t) {
        Option::Some(canonical_piece(0, 1))
    } else if nth_bit(boards[0][2].0, t) {
        Option::Some(canonical_piece(0, 2))
    } else if nth_bit(boards[0][3].0, t) {
        Option::Some(canonical_piece(0, 3))
    } else if nth_bit(boards[0][4].0, t) {
        Option::Some(canonical_piece(0, 4))
    } else if nth_bit(boards[0][5].0, t) {
        Option::Some(canonical_piece(0, 5))
    } else if nth_bit(boards[1][0].0, t) {
        Option::Some(canonical_piece(1, 0))
    } else if nth_bit(boards[1][1].0, t) {
        Option::Some(canonical_piece(1, 1))
    } else if nth_bit(boards[1][2].0, t) {
        Option::Some(canonical_piece(1, 2))
    } else if nth_bit(boards[1][3].0, t) {
        Option::Some(canonical_piece(1, 3))
    } else if nth_bit(boards[1][4].0, t) {
        Option::Some(canonical_piece(1, 4))
    } else if nth_bit(boards[1][5].0, t) {
        Option::Some(canonical_piece(1, 5))
    } else {
        Option::None
    }
}

/// Converts a square-indexed piece array into the twelve position bitboards,
/// indexed by colour (black first) and then kind (pawn, knight, bishop, rook,
/// queen, king). The array itself is left as it was.
pub fn convert(pieces: &mut [Option<Piece>; 64]) -> (r: [[BitBoard; 6]; 2])
    ensures
        final(pieces)@ == old(pieces)@,
        board_matches(r[0][0].0, final(pieces)@, 'p'),
        board_matches(r[0][1].0, final(pieces)@, 'n'),
        board_matches(r[0][2].0, final(pieces)@, 'b'),
        board_matches(r[0][3].0, final(pieces)@, 'r'),
        board_matches(r[0][4].0, final(pieces)@, 'q'),
        board_matches(r[0][5].0, final(pieces)@, 'k'),
        board_matches(r[1][0].0, final(pieces)@, 'P'),
        board_matches(r[1][1].0, final(pieces)@, 'N'),
        board_matches(r[1][2].0, final(pieces)@, 'B'),
        board_matches(r[1][3].0, final(pieces)@, 'R'),
        board_matches(r[1][4].0, final(pieces)@, 'Q'),
        board_matches(r[1][5].0, final(pieces)@, 'K'),
{
    let boards: [[BitBoard; 6]; 2] = [
        [
            BitBoard::gen(pieces, 'p'),
            BitBoard::gen(pieces, 'n'),
            BitBoard::gen(pieces, 'b'),
            BitBoard::gen(pieces, 'r'),
            BitBoard::gen(pieces, 'q'),
            BitBoard::gen(pieces, 'k'),
        ],
        [
            BitBoard::gen(pieces, 'P'),
            BitBoard::gen(pieces, 'N'),
            BitBoard::gen(pieces, 'B'),
            BitBoard::gen(pieces, 'R'),
            BitBoard::gen(pieces, 'Q'),
            BitBoard::gen(pieces, 'K'),
        ],
    ];
    boards
}

/// Reads a square-indexed piece array back out of the twelve position
/// bitboards, assigning each square the first bucket that claims it, in the
/// scan order of `piece_at`.
pub fn to_pieces(boards: [[BitBoard; 6]; 2]) -> (r: [Option<Piece>; 64])
    ensures
        forall|t: int| 0 <= t < 64 ==> r@[t] == piece_at(boards, t as u64),
{
    let mut out: [Option<Piece>; 64] = [None;64];
    let mut t: usize = 0;
    while t < 64
        invariant
            t <= 64,
            out@.len() == 64,
            forall|s: int| 0 <= s < t ==> out@[s] == piece_at(boards, s as u64),
        decreases 64 - t,
    {
        out[t] = piece_lookup(&boards, t as u64);
        t = t + 1;
    }
    out
}

/// The piece that the position bitboards hold on square `t`, as a value.
fn piece_lookup(boards: &[[BitBoard; 6]; 2], t: u64) -> (p: Option<Piece>)
    requires
        t < 64,
    ensures
        p == piece_at(*boards, t),
{
    if (boards[0][0].0 >> t) & 1 == 1 {
        Some(Piece { kind: Kind::Pawn, colour: Colour::Black, symbol: 'p' })
    } else if (boards[0][1].0 >> t) & 1 == 1 {
        Some(Piece { kind: Kind::Knight, colour: Colour::Black, symbol: 'n' })
    } else if (boards[0][2].0 >> t) & 1 == 1 {
        Some(Piece { kind: Kind::Bishop, colour: Colour::Black, symbol: 'b' })
    } else if (boards[0][3].0 >> t) & 1 == 1 {
        Some(Piece { kind: Kind::Rook, colour: Colour::Black, symbol: 'r' })
    } else if (boards[0][4].0 >> t) & 1 == 1 {
        Some(Piece { kind: Kind::Queen, colour: Colour::Black, symbol: 'q' })
    } else if (boards[0][5].0 >> t) & 1 == 1 {
        Some(Piece { kind: Kind::King, colour: Colour::Black, symbol: 'k' })
    } else if (boards[1][0].0 >> t) & 1 == 1 {
        Some(Piece { kind: Kind::Pawn, colour: Colour::White, symbol: 'P' })
    } else if (boards[1][1].0 >> t) & 1 == 1 {
        Some(Piece { kind: Kind::Knight, colour: Colour::White, symbol: 'N' })
    } else if (boards[1][2].0 >> t) & 1 == 1 {
        Some(Piece { kind: Kind::Bishop, colour: Colour::White, symbol: 'B' })
    } else if (boards[1][3].0 >> t) & 1 == 1 {
        Some(Piece { kind: Kind::Rook, colour: Colour::White, symbol: 'R' })
    } else if (boards[1][4].0 >> t) & 1 == 1 {
        Some(Piece { kind: Kind::Queen, colour: Colour::White, symbol: 'Q' })
    } else if (boards[1][5].0 >> t) & 1 == 1 {
        Some(Piece { kind: Kind::King, colour: Colour::White, symbol: 'K' })
    } else {
        None
    }
}

/// Converting a well-formed piece array to bitboards and reading it back
/// reproduces the array exactly: any twelve boards that match the array
/// letter for letter (as `convert` ensures) name on every square the very
/// piece the array holds there.
pub proof fn lemma_pieces_roundtrip(pieces: [Option<Piece>; 64], boards: [[BitBoard; 6]; 2])
    requires
        forall|t: int| 0 <= t < 64 ==> #[trigger] wf_slot(pieces@[t]),
        board_matches(boards[0][0].0, pieces@, 'p'),
        board_matches(boards[0][1].0, pieces@, 'n'),
        board_matches(boards[0][2].0, pieces@, 'b'),
        board_matches(boards[0][3].0, pieces@, 'r'),
        board_matches(boards[0][4].0, pieces@, 'q'),
        board_matches(boards[0][5].0, pieces@, 'k'),
        board_matches(boards[1][0].0, pieces@, 'P'),
        board_matches(boards[1][1].0, pieces@, 'N'),
        board_matches(boards[1][2].0, pieces@, 'B'),
        board_matches(boards[1][3].0, pieces@, 'R'),
        board_matches(boards[1][4].0, pieces@, 'Q'),
        board_matches(boards[1][5].0, pieces@, 'K'),
    ensures
        forall|t: int| 0 <= t < 64 ==> piece_at(boards, t as u64) == pieces@[t],
{
    assert forall|t: int| 0 <= t < 64 implies piece_at(boards, t as u64) == pieces@[t] by {
        assert(wf_slot(pieces@[t]));
        assert(nth_bit(boards[0][0].0, t as u64) == is_symbol(pieces@[t], 'p'));
        assert(nth_bit(boards[0][1].0, t as u64) == is_symbol(pieces@[t], 'n'));
        assert(nth_bit(boards[0][2].0, t as u64) == is_symbol(pieces@[t], 'b'));
        assert(nth_bit(boards[0][3].0, t as u64) == is_symbol(pieces@[t], 'r'));
        assert(nth_bit(boards[0][4].0, t as u64) == is_symbol(pieces@[t], 'q'));
        assert(nth_bit(boards[0][5].0, t as u64) == is_symbol(pieces@[t], 'k'));
        assert(nth_bit(boards[1][0].0, t as u64) == is_symbol(pieces@[t], 'P'));
        assert(nth_bit(boards[1][1].0, t as u64) == is_symbol(pieces@[t], 'N'));
        assert(nth_bit(boards[1][2].0, t as u64) == is_symbol(pieces@[t], 'B'));
        assert(nth_bit(boards[1][3].0, t as u64) == is_symbol(pieces@[t], 'R'));
        assert(nth_bit(boards[1][4].0, t as u64) == is_symbol(pieces@[t], 'Q'));
        assert(nth_bit(boards[1][5].0, t as u64) == is_symbol(pieces@[t], 'K'));
    }
}

/// The union of the first `n` kind boards of colour bucket `c`.
pub open spec fn side_occupancy_fold(pieces: [[BitBoard; 6]; 2], c: int, n: int) -> u64
    recommends
        0 <= c < 2,
        n <= 6,
    decreases n,
{
    if n <= 0 {
        0
    } else {
        side_occupancy_fold(pieces, c, n - 1) | pieces[c][n - 1].0
    }
}

/// The occupancy that the given side selects: all of one colour's squares, or
/// every occupied square when the side is `Undefined`.
pub open spec fn occupancy(pieces: [[BitBoard; 6]; 2], side: Colour) -> u64 {
    match side {
        Colour::White => side_occupancy_fold(pieces, 1, 6),
        Colour::Black => side_occupancy_fold(pieces, 0, 6),
        Colour::Undefined => side_occupancy_fold(pieces, 0, 6) | side_occupancy_fold(pieces, 1, 6),
    }
}

/// The union of the occupancies that the given side selects: one colour's
/// squares, or every occupied square for `Undefined`.
pub fn occupancies(pieces: [[BitBoard; 6]; 2], side: Colour) -> (r: BitBoard)
    ensures
        r.0 == occupancy(pieces, side),
{
    let mut occ: BitBoard = BitBoard::empty();

    match side {
        Colour::White => {
            let mut i: usize = 0;
            while i < 6
                invariant
                    i <= 6,
                    occ.0 == side_occupancy_fold(pieces, 1, i as int),
                decreases 6 - i,
            {
                occ.0 = occ.0 | pieces[1][i].0;
                i = i + 1;
            }
        },
        Colour::Black => {
            let mut i: usize = 0;
            while i < 6
                invariant
                    i <= 6,
                    occ.0 == side_occupancy_fold(pieces, 0, i as int),
                decreases 6 - i,
            {
                occ.0 = occ.0 | pieces[0][i].0;
                i = i + 1;
            }
        },
        Colour::Undefined => {
            let mut c: usize = 0;
            while c < 2
                invariant
                    c <= 2,
                    c == 0 ==> occ.0 == 0,
                    c == 1 ==> occ.0 == side_occupancy_fold(pieces, 0, 6),
                    c == 2 ==> occ.0 == side_occupancy_fold(pieces, 0, 6) | side_occupancy_fold(
                        pieces,
                        1,
                        6,
                    ),
                decreases 2 - c,
            {
                let start = occ.0;
                proof {
                    lemma_or_assoc(start, 0, 0);
                }
                let mut i: usize = 0;
                while i < 6
                    invariant
                        i <= 6,
                        c < 2,
                        occ.0 == start | side_occupancy_fold(pieces, c as int, i as int),
                    decreases 6 - i,
                {
                    proof {
                        lemma_bit_ops();
                        lemma_or_assoc(start, side_occupancy_fold(pieces, c as int, i as int),
                            pieces[c as int][i as int].0);
                    }
                    occ.0 = occ.0 | pieces[c][i].0;
                    i = i + 1;
                }
                proof {
                    lemma_or_assoc(side_occupancy_fold(pieces, c as int, 6), 0, 0);
                }
                c = c + 1;
            }
        },
    }

    occ
}

/// Bitwise or is associative, and the empty mask is its identity.
pub proof fn lemma_or_assoc(x: u64, y: u64, z: u64)
    ensures
        (x | y) | z == x | (y | z),
        x | 0u64 == x,
        0u64 | x == x,
{
    assert((x | y) | z == x | (y | z) && x | 0u64 == x && 0u64 | x == x) by (bit_vector);
}

/// The number of set bits of `x`: pairwise bit sums are gathered into 2-bit,
/// then 4-bit, then 8-bit group counts, and the eight byte counts are summed.
pub open spec fn popcnt64(x: u64) -> u64 {
    let a = (x - ((x >> 1) & 0x5555_5555_5555_5555)) as u64;
    let b = ((a & 0x3333_3333_3333_3333) + ((a >> 2) & 0x3333_3333_3333_3333)) as u64;
    let c = ((b + (b >> 4)) as u64) & 0x0f0f_0f0f_0f0f_0f0f;
    (((c & 0xff) + ((c >> 8) & 0xff) + ((c >> 16) & 0xff) + ((c >> 24) & 0xff) + ((c >> 32) & 0xff)
        + ((c >> 40) & 0xff) + ((c >> 48) & 0xff) + ((c >> 56) & 0xff)) as u64)
}

/// The mask of the bits below position `n`: the `n` least significant bits.
pub open spec fn low_mask(n: u64) -> u64 {
    if n >= 64 {
        0xffff_ffff_ffff_ffff
    } else {
        ((1u64 << n) - 1) as u64
    }
}

/// How `x & low_mask(n)` grows as `n` steps from 0 to 64: it starts empty,
/// picks up bit `n` exactly when `x` has it, and at 64 it is `x` itself.
pub proof fn lemma_low_mask_step(x: u64)
    ensures
        x & low_mask(0) == 0,
        x & low_mask(64) == x,
        forall|i: u64|
            i < 64 ==> x & low_mask((i + 1) as u64) == (x & low_mask(i)) | (if nth_bit(x, i) {
                1u64 << i
            } else {
                0
            }),
{
    assert((x & low_mask(0) == 0) && (x & low_mask(64) == x) && (forall|i: u64|
        i < 64 ==> x & low_mask((i + 1) as u64) == (x & low_mask(i)) | (if ((x >> i) & 1) == 1 {
            1u64 << i
        } else {
            0
        }))) by (bit_vector);
}

/// The value of the first `n` characters of `s` read as a binary numeral,
/// most significant digit first.
pub open spec fn bin_val(s: Seq<char>, n: int) -> int
    decreases n,
{
    if n <= 0 {
        0
    } else {
        2 * bin_val(s, n - 1) + (if s[n - 1] == '1' {
            1int
        } else {
            0int
        })
    }
}

/// A value bounded by `low_mask(i)` stays bounded by `low_mask(i + 1)` after
/// taking on one more binary digit.
pub proof fn lemma_low_mask_grow(v: u64, i: u64)
    requires
        i < 64,
        v <= low_mask(i),
    ensures
        2 * v + 1 <= low_mask((i + 1) as u64),
{
    assert(i < 64 && v <= low_mask(i) ==> 2 * v + 1 <= low_mask((i + 1) as u64)) by (bit_vector);
}

/// `popcnt64` is the Hamming weight: it vanishes on the empty mask, and
/// splits as the lowest bit plus the count of the remaining bits. These two
/// facts determine it on every value.
#[verifier::rlimit(100)]
pub proof fn lemma_popcnt64_step(x: u64)
    ensures
        popcnt64(0) == 0,
        popcnt64(x) == (x & 1) + popcnt64(x >> 1),
{
    assert(popcnt64(0) == 0 && popcnt64(x) == (x & 1) + popcnt64(x >> 1)) by (bit_vector);
}

/// Every single-square mask holds exactly one set bit.
pub proof fn lemma_single_square_popcount(i: u64)
    requires
        i < 64,
    ensures
        popcnt64(1u64 << i) == 1,
{
    assert(i < 64 ==> popcnt64(1u64 << i) == 1) by (bit_vector);
}

/// For every square, the mask `from_sq` builds counts exactly one bit.
pub proof fn lemma_from_sq_popcount(sq: Square)
    ensures
        popcnt64(1u64 << sq.idx()) == 1,
{
    assert((sq as u64) < 64);
    lemma_single_square_popcount(sq.idx());
}

/// The geometry tables hold lines of the expected lengths: every rank and
/// file mask has eight squares, and a diagonal or anti-diagonal with index
/// `d` has `8 - |7 - d|` squares, from one square in a corner up to eight on
/// the main line.
pub proof fn lemma_geometry_popcounts()
    ensures
        forall|r: u64| r < 8 ==> popcnt64(#[trigger] rank_mask(r)) == 8,
        forall|f: u64| f < 8 ==> popcnt64(#[trigger] file_mask(f)) == 8,
        forall|d: u64|
            d < 15 ==> popcnt64(#[trigger] diag_mask(d)) == (if d <= 7 {
                d + 1
            } else {
                15 - d
            }),
        forall|d: u64|
            d < 15 ==> popcnt64(#[trigger] anti_diag_mask(d)) == (if d <= 7 {
                d + 1
            } else {
                15 - d
            }),
{
    assert((forall|r: u64| r < 8 ==> popcnt64(#[trigger] rank_mask(r)) == 8) && (forall|f: u64|
        f < 8 ==> popcnt64(#[trigger] file_mask(f)) == 8)) by (bit_vector);
    assert((forall|d: u64|
        d < 15 ==> popcnt64(#[trigger] diag_mask(d)) == (if d <= 7 {
            d + 1
        } else {
            15 - d
        })) && (forall|d: u64|
        d < 15 ==> popcnt64(#[trigger] anti_diag_mask(d)) == (if d <= 7 {
            d + 1
        } else {
            15 - d
        }))) by (bit_vector);
}

} // verus!
