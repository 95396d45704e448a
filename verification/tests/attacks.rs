use kage::bitboard::{convert, BitBoard};
use kage::movegen::{bishop, bishop_bb, hyp_quint, king, knight, pawn, queen, queen_bb, rook,
    rook_bb, sliding};
use kage::utils::match_u32_to_sq;
use kage::{get_all_attacks, get_attacks, Colour, Kind, Piece, Square};

fn lcg(state: &mut u64) -> u64 {
    *state = state.wrapping_mul(6364136223846793005).wrapping_add(1442695040888963407);
    *state
}

/// A ray-walk reference: from `sq`, step in direction (dr, df) collecting
/// squares until the board edge, stopping after the first occupied square.
fn walk(sq: u32, occ: u64, dr: i32, df: i32) -> u64 {
    let mut attacks = 0u64;
    let mut r = (sq / 8) as i32 + dr;
    let mut f = (sq % 8) as i32 + df;
    while (0..8).contains(&r) && (0..8).contains(&f) {
        let bit = 1u64 << (r * 8 + f);
        attacks |= bit;
        if occ & bit != 0 {
            break;
        }
        r += dr;
        f += df;
    }
    attacks
}

fn naive_rook(sq: u32, occ: u64) -> u64 {
    walk(sq, occ, 1, 0) | walk(sq, occ, -1, 0) | walk(sq, occ, 0, 1) | walk(sq, occ, 0, -1)
}

fn naive_bishop(sq: u32, occ: u64) -> u64 {
    walk(sq, occ, 1, 1) | walk(sq, occ, 1, -1) | walk(sq, occ, -1, 1) | walk(sq, occ, -1, -1)
}

fn piece_on(pieces: &mut [Option<Piece>; 64], sq: usize, kind: Kind, colour: Colour, symbol: char) {
    pieces[sq] = Some(Piece { kind, colour, symbol });
}

#[test]
fn check_atk_lookup() {
    let p = pawn::lookup(Square::E4, Colour::Black);
    assert_eq!(p.0, 43980465111040);

    let n = knight::lookup(Square::E4);
    assert_eq!(n.0, 11333767002587136);

    let k = king::lookup(Square::E4);
    assert_eq!(k.0, 61745389371392);

    let mut block = BitBoard::empty();
    block.set_bit(Square::G2);
    block.set_bit(Square::D5);
    block.set_bit(Square::E3);
    block.set_bit(Square::B4);

    let r = rook(Square::E4, block);
    assert_eq!(r.0, 18614657749008);

    assert_eq!(r.count_bits(), 11);
}

#[test]
fn rook_matches_ray_walk_reference() {
    let mut state = 0x1234_5678_9abc_def0u64;
    for sq in 0..64u32 {
        for _ in 0..16 {
            let occ = lcg(&mut state) & lcg(&mut state) & !(1u64 << sq);
            let got = rook(match_u32_to_sq(sq), BitBoard(occ));
            assert_eq!(got.0, naive_rook(sq, occ));
        }
    }
}

#[test]
fn bishop_matches_ray_walk_reference() {
    let mut state = 0x0fed_cba9_8765_4321u64;
    for sq in 0..64u32 {
        for _ in 0..16 {
            let occ = lcg(&mut state) & lcg(&mut state) & !(1u64 << sq);
            let got = bishop(match_u32_to_sq(sq), BitBoard(occ));
            assert_eq!(got.0, naive_bishop(sq, occ));
        }
    }
}

#[test]
fn queen_is_rook_union_bishop() {
    let mut state = 0x42u64;
    for sq in 0..64u32 {
        for _ in 0..8 {
            let occ = lcg(&mut state) & lcg(&mut state) & !(1u64 << sq);
            let s = match_u32_to_sq(sq);
            let q = queen(s, BitBoard(occ));
            assert_eq!(q.0, rook(s, BitBoard(occ)).0 | bishop(s, BitBoard(occ)).0);
        }
    }
}

#[test]
fn batch_sliders_fold_single_squares() {
    // two rooks: their combined attack set is the union of the single lookups
    let board = BitBoard((1u64 << 36) | (1u64 << 9));
    let occ = BitBoard((1u64 << 44) | (1u64 << 33) | (1u64 << 11));
    let both = rook_bb(board, occ);
    let expected = rook(match_u32_to_sq(36), occ).0 | rook(match_u32_to_sq(9), occ).0;
    assert_eq!(both.0, expected);

    let bboth = bishop_bb(board, occ);
    let bexpected = bishop(match_u32_to_sq(36), occ).0 | bishop(match_u32_to_sq(9), occ).0;
    assert_eq!(bboth.0, bexpected);

    let qboth = queen_bb(board, occ);
    assert_eq!(qboth.0, expected | bexpected);
}

#[test]
fn hyp_quint_single_line() {
    // a rook on e4 against the e-file alone, blocker on e3 below, open above
    let file_e = 0x1010_1010_1010_1010u64;
    let occ = BitBoard(1u64 << 44);
    let got = hyp_quint(Square::E4, occ, file_e);
    let expected = walk(36, occ.0, 1, 0) | walk(36, occ.0, -1, 0);
    assert_eq!(got.0, expected);
}

#[test]
fn pawn_attacks_by_colour() {
    // a white pawn on e4 captures toward d5 and f5 (lower indices)
    let w = pawn::lookup(Square::E4, Colour::White);
    assert_eq!(w.0, (1u64 << 27) | (1u64 << 29));
    // a black pawn on e4 captures toward d3 and f3 (higher indices)
    let b = pawn::lookup(Square::E4, Colour::Black);
    assert_eq!(b.0, (1u64 << 43) | (1u64 << 45));
    // pawns on a file only capture inward, never wrapping
    let edge = pawn::lookup(Square::A4, Colour::White);
    assert_eq!(edge.0, 1u64 << 25);
    let edge_h = pawn::lookup(Square::H4, Colour::Black);
    assert_eq!(edge_h.0, 1u64 << 46);
    // the batch form shifts the whole board at once
    let board = BitBoard((1u64 << 36) | (1u64 << 32));
    let all = pawn::all(board, Colour::White);
    assert_eq!(all.0, pawn::lookup(Square::E4, Colour::White).0 | pawn::lookup(
        Square::A4,
        Colour::White,
    ).0);
    // the a-pawn's eastward shift would wrap onto the h-file and is masked off
    assert_eq!(pawn::east(board, Colour::White).0, 1u64 << 27);
    assert_eq!(pawn::west(board, Colour::White).0, (1u64 << 29) | (1u64 << 25));
}

#[test]
fn east_west_shifts_never_wrap() {
    for i in 0..64u64 {
        let b = BitBoard(1u64 << i);
        let east = king::ea(b);
        if i % 8 == 7 {
            assert_eq!(east.0, 0);
        } else {
            assert_eq!(east.0, 1u64 << (i + 1));
        }
        let west = king::we(b);
        if i % 8 == 0 {
            assert_eq!(west.0, 0);
        } else {
            assert_eq!(west.0, 1u64 << (i - 1));
        }
    }
}

#[test]
fn corner_leapers_have_fewer_moves() {
    // a1 is index 56, h8 is index 7 in the a8-origin ordering
    let knight_a1 = knight::lookup(Square::A1);
    assert_eq!(knight_a1.count_bits(), 2);
    assert_eq!(knight_a1.0, (1u64 << 41) | (1u64 << 50));

    let king_a1 = king::lookup(Square::A1);
    assert_eq!(king_a1.count_bits(), 3);
    assert_eq!(king_a1.0, (1u64 << 48) | (1u64 << 49) | (1u64 << 57));

    let knight_h8 = knight::lookup(Square::H8);
    assert_eq!(knight_h8.count_bits(), 2);
    let king_h8 = king::lookup(Square::H8);
    assert_eq!(king_h8.count_bits(), 3);

    // nothing lands on the wrapped-around files
    let files_gh = (0x0101_0101_0101_0101u64 << 6) | (0x0101_0101_0101_0101u64 << 7);
    assert_eq!(knight_a1.0 & files_gh, 0);
    assert_eq!(king_a1.0 & files_gh, 0);
    let files_ab = 0x0101_0101_0101_0101u64 | (0x0101_0101_0101_0101u64 << 1);
    assert_eq!(knight_h8.0 & files_ab, 0);
    assert_eq!(king_h8.0 & files_ab, 0);
}

#[test]
fn leaper_batches_union_lookups_and_drop_own_squares() {
    let board = BitBoard((1u64 << 36) | (1u64 << 7));
    let expected = knight::lookup(Square::E4).0 | knight::lookup(Square::H8).0;
    assert_eq!(knight::all(board, BitBoard::empty()).0, expected);
    // own occupancy is removed from the destinations
    let own = BitBoard(1u64 << 19);
    assert_eq!(knight::all(board, own).0, expected & !own.0);

    let kboard = BitBoard(1u64 << 36);
    assert_eq!(king::all(kboard, BitBoard::empty()).0, king::lookup(Square::E4).0);
}

#[test]
fn slider_masks_leave_out_edges_and_self() {
    for sq in 0..64u32 {
        let s = match_u32_to_sq(sq);
        let rm = sliding::rook_atk_mask(s);
        let bm = sliding::bishop_atk_mask(s);
        for j in 0..64u32 {
            let (r, f) = (j / 8, j % 8);
            let (tr, tf) = (sq / 8, sq % 8);
            let on_rook = (f == tf && r != tr && (1..=6).contains(&r))
                || (r == tr && f != tf && (1..=6).contains(&f));
            assert_eq!(rm.0 >> j & 1 == 1, on_rook);
            let on_bishop = (r + tf == f + tr || r + f == tr + tf)
                && j != sq
                && (1..=6).contains(&r)
                && (1..=6).contains(&f);
            assert_eq!(bm.0 >> j & 1 == 1, on_bishop);
        }
    }
}

#[test]
fn attacked_squares_match_attack_union() {
    // a small middlegame-like position
    let mut pieces: [Option<Piece>; 64] = [None; 64];
    piece_on(&mut pieces, 3, Kind::Rook, Colour::Black, 'r');
    piece_on(&mut pieces, 17, Kind::Bishop, Colour::Black, 'b');
    piece_on(&mut pieces, 19, Kind::Rook, Colour::Black, 'r');
    piece_on(&mut pieces, 24, Kind::Rook, Colour::White, 'R');
    piece_on(&mut pieces, 27, Kind::Pawn, Colour::White, 'P');
    piece_on(&mut pieces, 50, Kind::King, Colour::Black, 'k');
    piece_on(&mut pieces, 59, Kind::Rook, Colour::White, 'R');
    piece_on(&mut pieces, 36, Kind::Queen, Colour::White, 'Q');
    piece_on(&mut pieces, 12, Kind::Knight, Colour::White, 'N');
    piece_on(&mut pieces, 20, Kind::King, Colour::White, 'K');
    let boards = convert(&mut pieces);

    for side in [Colour::White, Colour::Black] {
        let attacks = get_attacks(side, boards);
        for sq in 0..64u32 {
            let s = match_u32_to_sq(sq);
            assert_eq!(s.is_attacked(side, boards), attacks.0 & (1u64 << sq) != 0);
        }
    }
    let all = get_all_attacks(boards);
    assert_eq!(
        all.0,
        get_attacks(Colour::White, boards).0 | get_attacks(Colour::Black, boards).0
    );
}
