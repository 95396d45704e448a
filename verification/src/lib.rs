use vstd::prelude::*;

pub mod bitboard;
pub mod movegen;
pub mod utils;

use bitboard::BitBoard;

verus! {

/// The squares of the board, in a8-origin order: index 0 is a8, index 7 is h8,
/// index 8 is a7, and index 63 is h1. Throughout the crate a square's index is
/// `rank_offset * 8 + file`, where `rank_offset` counts ranks downward from
/// rank 8 and `file` counts files from the a-file.
#[derive(Copy, Clone, Debug, PartialEq, Eq, Structural)]
pub enum Square {
    A8, B8, C8, D8, E8, F8, G8, H8,
    A7, B7, C7, D7, E7, F7, G7, H7,
    A6, B6, C6, D6, E6, F6, G6, H6,
    A5, B5, C5, D5, E5, F5, G5, H5,
    A4, B4, C4, D4, E4, F4, G4, H4,
    A3, B3, C3, D3, E3, F3, G3, H3,
    A2, B2, C2, D2, E2, F2, G2, H2,
    A1, B1, C1, D1, E1, F1, G1, H1,
}

impl Square {
    /// The square's index in [0, 64).
    pub open spec fn idx(self) -> u64 {
        self as u64
    }

    /// Executable form of `idx`.
    pub fn index(self) -> (i: u64)
        ensures
            i == self.idx(),
            i < 64,
    {
        proof {
            assert((self as u64) < 64);
        }
        self as u64
    }
}

/// A piece kind.
#[derive(Copy, Clone, Debug, Eq, PartialEq, Structural)]
pub enum Kind {
    King,
    Queen,
    Bishop,
    Knight,
    Rook,
    Pawn,
}

/// A side of the board. `Undefined` stands for "no particular side": as an
/// occupancy selector it means both sides at once, and side-specific queries
/// exclude it by precondition.
#[derive(Copy, Clone, Debug, PartialEq, Eq, Structural)]
pub enum Colour {
    Black,
    White,
    Undefined,
}

/// A piece: its kind, its colour, and the letter that stands for it in board
/// diagrams (lower case for black, upper case for white).
#[derive(Copy, Clone, Debug, Eq, PartialEq, Structural)]
pub struct Piece {
    pub kind: Kind,
    pub colour: Colour,
    pub symbol: char,
}

/// A full position snapshot: one optional piece per square, plus the bookkeeping
/// fields of a game state.
#[derive(Clone, Debug)]
pub struct GameStatus {
    pub pieces: [Option<Piece>; 64],
    pub side_to_move: Colour,
    pub castling_id: [bool; 4],
    pub en_passant: Option<Vec<Square>>,
    pub half_move_clock: u16,
    pub full_move_count: u16,
}

/// Every occupied square except those in `sub`: the blocking mask handed to a
/// slider generator so the evaluated piece type's own squares do not block
/// their own attack computation.
pub fn all_other_pieces(pieces: [[BitBoard; 6]; 2], sub: BitBoard) -> (r: BitBoard)
    ensures
        r.0 == bitboard::occupancy(pieces, Colour::Undefined) & !sub.0,
{
    let mut all_other_pieces = BitBoard::empty();
    all_other_pieces.0 = all_other_pieces.0 | bitboard::occupancies(pieces, Colour::Undefined).0;
    proof {
        bitboard::lemma_bit_ops();
        bitboard::lemma_or_assoc(bitboard::occupancy(pieces, Colour::Undefined), 0, 0);
    }
    all_other_pieces.0 = all_other_pieces.0 - (all_other_pieces.0 & sub.0);
    all_other_pieces
}

/// The bucket index that the side selects in the position bitboards.
pub open spec fn side_index(side: Colour) -> int
    recommends
        side != Colour::Undefined,
{
    bitboard::colour_index(side)
}

/// Every square the given side attacks in the position: the union of the
/// attack sets of its pawns, knights, bishops, rooks, king and queens, the
/// sliders each computed against the whole occupancy minus that piece type's
/// own squares.
pub open spec fn attacks_spec(side: Colour, pieces: [[BitBoard; 6]; 2]) -> u64
    recommends
        side != Colour::Undefined,
{
    let s = side_index(side);
    let occ_all = bitboard::occupancy(pieces, Colour::Undefined);
    movegen::pawn::attacks(pieces[s][0].0, side) | movegen::knight::attacks(pieces[s][1].0)
        | movegen::bishop_bb_fold(pieces[s][2].0, occ_all & !pieces[s][2].0, 64)
        | movegen::rook_bb_fold(pieces[s][3].0, occ_all & !pieces[s][3].0, 64)
        | movegen::king::attacks(pieces[s][5].0) | movegen::queen_bb_fold(
        pieces[s][4].0,
        occ_all & !pieces[s][4].0,
        64,
    )
}

/// Computes every square the given side attacks.
pub fn get_attacks(side: Colour, pieces: [[BitBoard; 6]; 2]) -> (r: BitBoard)
    requires
        side != Colour::Undefined,
    ensures
        r.0 == attacks_spec(side, pieces),
{
    let s: usize = match side {
        Colour::White => 1,
        Colour::Black => 0,
        Colour::Undefined => 0,
    };
    let pawns = pieces[s][0];
    let knights = pieces[s][1];
    let bishops = pieces[s][2];
    let rooks = pieces[s][3];
    let queen = pieces[s][4];
    let king = pieces[s][5];

    let pawn_attacks = movegen::pawn::all(pawns, side);
    let knight_attacks = movegen::knight::all(knights, BitBoard::empty());
    let bishop_attacks = movegen::bishop_bb(bishops, all_other_pieces(pieces, bishops));
    let rook_attacks = movegen::rook_bb(rooks, all_other_pieces(pieces, rooks));
    let king_attacks = movegen::king::all(king, BitBoard::empty());
    let queen_attacks = movegen::queen_bb(queen, all_other_pieces(pieces, queen));

    proof {
        bitboard::lemma_bit_ops();
    }

    BitBoard(
        pawn_attacks.0 | knight_attacks.0 | bishop_attacks.0 | rook_attacks.0 | king_attacks.0
            | queen_attacks.0,
    )
}

/// Computes every square attacked by either side.
pub fn get_all_attacks(pieces: [[BitBoard; 6]; 2]) -> (r: BitBoard)
    ensures
        r.0 == attacks_spec(Colour::White, pieces) | attacks_spec(Colour::Black, pieces),
{
    let white_attacks = get_attacks(Colour::White, pieces);
    let black_attacks = get_attacks(Colour::Black, pieces);

    BitBoard(white_attacks.0 | black_attacks.0)
}

impl Square {
    /// Whether the given side attacks this square in the position: the
    /// square's bit is tested in the union of that side's attack sets.
    pub fn is_attacked(&self, side: Colour, pieces: [[BitBoard; 6]; 2]) -> (r: bool)
        requires
            side != Colour::Undefined,
        ensures
            r == bitboard::nth_bit(attacks_spec(side, pieces), self.idx()),
    {
        let occ = BitBoard::from_sq(*self);
        proof {
            bitboard::lemma_bit_ops();
        }
        get_attacks(side, pieces).0 & occ.0 != 0
    }
}

} // verus!
