use kage::bitboard::{
    anti_diag_masks, convert, diag_masks, file_masks, occupancies, rank_masks, to_pieces, BitBoard,
};
use kage::utils::{get_material_count, match_u32_to_sq};
use kage::{Colour, GameStatus, Kind, Piece, Square};

fn piece_from_char(piece_char: char) -> Option<Piece> {
    let (colour, kind) = match piece_char {
        'P' => (Colour::White, Kind::Pawn),
        'N' => (Colour::White, Kind::Knight),
        'B' => (Colour::White, Kind::Bishop),
        'R' => (Colour::White, Kind::Rook),
        'Q' => (Colour::White, Kind::Queen),
        'K' => (Colour::White, Kind::King),
        'p' => (Colour::Black, Kind::Pawn),
        'n' => (Colour::Black, Kind::Knight),
        'b' => (Colour::Black, Kind::Bishop),
        'r' => (Colour::Black, Kind::Rook),
        'q' => (Colour::Black, Kind::Queen),
        'k' => (Colour::Black, Kind::King),
        _ => return None,
    };
    Some(Piece { colour, kind, symbol: piece_char })
}

fn start_position() -> [Option<Piece>; 64] {
    let rows = [
        "rnbqkbnr", "pppppppp", "........", "........", "........", "........", "PPPPPPPP",
        "RNBQKBNR",
    ];
    let mut pieces: [Option<Piece>; 64] = [None; 64];
    for (rank, row) in rows.iter().enumerate() {
        for (file, c) in row.chars().enumerate() {
            pieces[rank * 8 + file] = piece_from_char(c);
        }
    }
    pieces
}

#[test]
fn from_sq_is_single_bit() {
    for i in 0..64u32 {
        let sq = match_u32_to_sq(i);
        let b = BitBoard::from_sq(sq);
        assert_eq!(b.count_bits(), 1);
        assert_eq!(b.0, 1u64 << i);
    }
}

#[test]
fn set_get_toggle_pop() {
    let mut b = BitBoard::empty();
    assert!(b.is_empty());
    b.set_bit(Square::E4);
    b.set_bit(Square::A1);
    assert!(b.get_bit(Square::E4));
    assert!(b.get_bit(Square::A1));
    assert!(!b.get_bit(Square::E5));
    b.toggle_bit(Square::E4);
    assert!(!b.get_bit(Square::E4));
    b.toggle_bit(Square::E4);
    assert!(b.get_bit(Square::E4));

    // pop_bit clears unconditionally: the bit is gone afterwards, whether or
    // not it was set, and nothing else changes
    b.pop_bit(Square::E4);
    assert!(!b.get_bit(Square::E4));
    assert!(b.get_bit(Square::A1));
    b.pop_bit(Square::E4);
    assert!(!b.get_bit(Square::E4));
    assert!(b.get_bit(Square::A1));
    assert_eq!(b.count_bits(), 1);
}

#[test]
fn ls1b_none_on_empty() {
    assert_eq!(BitBoard::empty().get_ls1b(), None);
    assert_eq!(BitBoard(1u64 << 63).get_ls1b(), Some(63));
    assert_eq!(BitBoard(1).get_ls1b(), Some(0));
    assert_eq!(BitBoard((1u64 << 20) | (1u64 << 41)).get_ls1b(), Some(20));
}

#[test]
fn count_bits_matches_reference() {
    let samples = [
        0u64,
        1,
        0xffff_ffff_ffff_ffff,
        0x8040_2010_0804_0201,
        0x5555_5555_5555_5555,
        0x0123_4567_89ab_cdef,
    ];
    for &x in samples.iter() {
        assert_eq!(BitBoard(x).count_bits(), x.count_ones());
    }
}

#[test]
fn transforms_match_reference() {
    let samples = [0x0123_4567_89ab_cdefu64, 1, 0x8000_0000_0000_0000, 0x00ff_00aa_1234_5678];
    for &x in samples.iter() {
        let mut r = BitBoard(x);
        r.rot_180();
        assert_eq!(r.0, x.reverse_bits());

        let mut v = BitBoard(x);
        v.flip_v();
        let mut v_expect = 0u64;
        for i in 0..64u64 {
            if (x >> (i ^ 56)) & 1 == 1 {
                v_expect |= 1 << i;
            }
        }
        assert_eq!(v.0, v_expect);

        let mut h = BitBoard(x);
        h.flip_h();
        let mut h_expect = 0u64;
        for i in 0..64u64 {
            if (x >> (i ^ 7)) & 1 == 1 {
                h_expect |= 1 << i;
            }
        }
        assert_eq!(h.0, h_expect);
    }
}

#[test]
fn from_string_parses_and_reverses() {
    assert_eq!(BitBoard::from_string(String::from("101")).0, 5u64.reverse_bits());
    assert_eq!(BitBoard::from_string(String::from("0")).0, 0);
    assert_eq!(BitBoard::from_string(String::from("1")).0, 1u64.reverse_bits());
    let ones = "1".repeat(64);
    assert_eq!(BitBoard::from_string(ones).0, u64::MAX);
}

#[test]
fn geometry_table_popcounts() {
    for r in 0..8u64 {
        assert_eq!(BitBoard(rank_masks(r)).count_bits(), 8);
        assert_eq!(BitBoard(file_masks(r)).count_bits(), 8);
    }
    for d in 0..15u64 {
        let expected = if d <= 7 { d + 1 } else { 15 - d } as u32;
        assert_eq!(BitBoard(diag_masks(d)).count_bits(), expected);
        assert_eq!(BitBoard(anti_diag_masks(d)).count_bits(), expected);
    }
}

#[test]
fn convert_start_position() {
    let mut pieces = start_position();
    let boards = convert(&mut pieces);
    // black pieces sit on the first two ranks of the array, white on the last
    assert_eq!(boards[0][0].0, 0x0000_0000_0000_ff00); // black pawns
    assert_eq!(boards[1][0].0, 0x00ff_0000_0000_0000); // white pawns
    assert_eq!(boards[0][3].0, 0x0000_0000_0000_0081); // black rooks
    assert_eq!(boards[1][5].0, 1u64 << 60); // white king on e1
    let white = occupancies(boards, Colour::White);
    let black = occupancies(boards, Colour::Black);
    let both = occupancies(boards, Colour::Undefined);
    assert_eq!(white.0, 0xffff_0000_0000_0000);
    assert_eq!(black.0, 0x0000_0000_0000_ffff);
    assert_eq!(both.0, white.0 | black.0);
}

#[test]
fn bitboards_roundtrip_to_pieces() {
    let mut pieces = start_position();
    let original = pieces;
    let boards = convert(&mut pieces);
    let back = to_pieces(boards);
    for i in 0..64 {
        assert_eq!(back[i], original[i]);
    }

    let mut empty: [Option<Piece>; 64] = [None; 64];
    let boards = convert(&mut empty);
    let back = to_pieces(boards);
    for i in 0..64 {
        assert_eq!(back[i], None);
    }
}

#[test]
fn material_count_start_position() {
    let status = GameStatus {
        pieces: start_position(),
        side_to_move: Colour::White,
        castling_id: [true, true, true, true],
        en_passant: None,
        half_move_clock: 0,
        full_move_count: 1,
    };
    assert_eq!(get_material_count(&status, Colour::White), 39);
    assert_eq!(get_material_count(&status, Colour::Black), 39);
    assert_eq!(get_material_count(&status, Colour::Undefined), 0);
}

#[test]
fn square_indexing() {
    assert_eq!(match_u32_to_sq(0), Square::A8);
    assert_eq!(match_u32_to_sq(7), Square::H8);
    assert_eq!(match_u32_to_sq(36), Square::E4);
    assert_eq!(match_u32_to_sq(56), Square::A1);
    assert_eq!(match_u32_to_sq(63), Square::H1);
    assert_eq!(Square::E4.index(), 36);
}

#[test]
fn is_eq_compares_masks() {
    assert!(BitBoard(5).is_eq(BitBoard(5)));
    assert!(!BitBoard(5).is_eq(BitBoard(4)));
}
