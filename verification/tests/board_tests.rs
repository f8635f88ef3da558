use stockshark::board::bitboard::Bitboard;
use stockshark::board::position::{
    sq_to_str, str_to_sq, Color, Move, Piece, PieceType, Position, FLAG_CAPTURE, FLAG_DOUBLE_PUSH,
    FLAG_EP_CAPTURE, FLAG_QUIET, NO_SQ,
};
use stockshark::board::zobrist::{castling_key, ep_key, gen_keys, lcg, piece_key, side_key, ZOBRIST_SEED};

const START_FEN: &str = "rnbqkbnr/pppppppp/8/8/8/8/PPPPPPPP/RNBQKBNR w KQkq - 0 1";
const KIWIPETE: &str = "r3k2r/p1ppqpb1/bn2pnp1/3PN3/1p2P3/2N2Q1p/PPPBBPPP/R3K2R w KQkq - 0 1";

fn same_position(a: &Position, b: &Position) -> bool {
    a.pieces == b.pieces
        && a.occupancy == b.occupancy
        && a.side == b.side
        && a.castling == b.castling
        && a.ep_sq == b.ep_sq
        && a.halfmove_clock == b.halfmove_clock
        && a.fullmove == b.fullmove
        && a.hash == b.hash
        && a.king_sq == b.king_sq
        && a.board == b.board
}

#[test]
fn bitboard_square_set_and_clear() {
    let mut b = Bitboard::from_square(5);
    assert_eq!(b.0, 1u64 << 5);
    assert!(b.contains(5));
    assert!(!b.contains(6));
    b.set(63);
    assert!(b.contains(63));
    assert_eq!(b.count(), 2);
    b.clear(5);
    assert!(!b.contains(5));
    assert_eq!(b.count(), 1);
    assert!(!b.is_empty());
    b.clear(63);
    assert!(b.is_empty());
}

#[test]
fn bitboard_pop_lsb_takes_lowest() {
    let mut b = Bitboard((1u64 << 9) | (1u64 << 40) | (1u64 << 3));
    assert_eq!(b.pop_lsb(), 3);
    assert_eq!(b.pop_lsb(), 9);
    assert_eq!(b.pop_lsb(), 40);
    assert!(b.is_empty());
}

#[test]
fn bitboard_count_full_board() {
    assert_eq!(Bitboard(u64::MAX).count(), 64);
    assert_eq!(Bitboard(0).count(), 0);
}

#[test]
fn bitboard_shifts_drop_edge_squares() {
    // a1 (0) and h8 (63)
    let corners = Bitboard(1 | (1u64 << 63));
    assert_eq!(corners.shift_north().0, 1u64 << 8);
    assert_eq!(corners.shift_south().0, 1u64 << 55);
    // east of h8 falls off, east of a1 is b1
    assert_eq!(corners.shift_east().0, 1u64 << 1);
    // west of a1 falls off, west of h8 is g8
    assert_eq!(corners.shift_west().0, 1u64 << 62);
}

#[test]
fn bitboard_set_operations() {
    let a = Bitboard(0b1100);
    let b = Bitboard(0b1010);
    assert_eq!(a.bitor(b).0, 0b1110);
    assert_eq!(a.bitand(b).0, 0b1000);
    assert_eq!(a.bitxor(b).0, 0b0110);
    assert_eq!(a.not().0, !0b1100u64);
}

#[test]
fn color_flip_and_values() {
    assert_eq!(Color::White.flip(), Color::Black);
    assert_eq!(Color::Black.flip(), Color::White);
    assert_eq!(PieceType::Pawn.material_value(), 100);
    assert_eq!(PieceType::Queen.material_value(), 900);
    assert_eq!(Piece::new(PieceType::Rook, Color::Black).bb_index(), 7);
    assert_eq!(Piece::new(PieceType::Pawn, Color::White).bb_index(), 0);
}

#[test]
fn move_fields_roundtrip() {
    let m = Move::new(12, 28, FLAG_DOUBLE_PUSH);
    assert_eq!(m.from_sq(), 12);
    assert_eq!(m.to_sq(), 28);
    assert_eq!(m.flags(), FLAG_DOUBLE_PUSH);
    assert!(!m.is_capture());
    assert!(!m.is_promotion());
    assert_eq!(m.to_uci(), "e2e4");
    let c = Move::new(36, 43, FLAG_EP_CAPTURE);
    assert!(c.is_capture());
    assert!(c.is_ep());
    let x = Move::new(1, 18, FLAG_CAPTURE);
    assert!(x.is_capture() && !x.is_ep());
    assert!(Move(0).is_null());
    assert!(!Move::new(0, 1, FLAG_QUIET).is_null());
}

#[test]
fn promotion_moves_name_their_piece() {
    let q = Move::new_promo(52, 60, PieceType::Queen, false);
    assert!(q.is_promotion());
    assert_eq!(q.promo_piece(), PieceType::Queen);
    assert_eq!(q.to_uci(), "e7e8q");
    let n = Move::new_promo(49, 58, PieceType::Knight, true);
    assert!(n.is_capture());
    assert_eq!(n.promo_piece(), PieceType::Knight);
    assert_eq!(n.to_uci(), "b7c8n");
}

#[test]
fn square_names_roundtrip() {
    for sq in 0u8..64 {
        let s = sq_to_str(sq);
        assert_eq!(str_to_sq(&s), Some(sq));
    }
    assert_eq!(sq_to_str(0), "a1");
    assert_eq!(sq_to_str(63), "h8");
    assert_eq!(str_to_sq("e4"), Some(28));
    assert_eq!(str_to_sq("i4"), None);
    assert_eq!(str_to_sq("e9"), None);
    assert_eq!(str_to_sq("e"), None);
}

#[test]
fn startpos_layout_and_fen() {
    let p = Position::startpos();
    assert!(p.is_valid());
    assert_eq!(p.to_fen(), START_FEN);
    assert_eq!(p.king_sq, [4, 60]);
    assert_eq!(p.board[3], Some(Piece::new(PieceType::Queen, Color::White)));
    assert_eq!(p.board[59], Some(Piece::new(PieceType::Queen, Color::Black)));
    assert_eq!(p.all_occupancy().count(), 32);
    let q = Position::from_fen(START_FEN).unwrap();
    assert!(same_position(&p, &q));
}

#[test]
fn fen_roundtrip_examples() {
    for fen in [
        START_FEN,
        KIWIPETE,
        "8/2p5/3p4/KP5r/1R3p1k/8/4P1P1/8 w - - 0 1",
        "rnbqkbnr/pp1ppppp/8/2p5/4P3/8/PPPP1PPP/RNBQKBNR w KQkq c6 0 2",
        "4k3/8/8/8/8/8/8/4K2R b K - 17 42",
    ] {
        assert!(Position::fen_fits_board(fen));
        let p = Position::from_fen(fen).unwrap();
        assert_eq!(p.to_fen(), fen);
        assert!(p.is_valid(), "{}", fen);
    }
}

#[test]
fn fen_fields_are_read() {
    let p = Position::from_fen("4k3/8/8/8/8/8/8/4K2R b Kq e3 7 31").unwrap();
    assert_eq!(p.side, Color::Black);
    assert_eq!(p.castling, 1 | 8);
    assert_eq!(p.ep_sq, 20);
    assert_eq!(p.halfmove_clock, 7);
    assert_eq!(p.fullmove, 31);
    // missing clocks default to 0 and 1; unreadable ones too
    let q = Position::from_fen("4k3/8/8/8/8/8/8/4K3 w - -").unwrap();
    assert_eq!(q.halfmove_clock, 0);
    assert_eq!(q.fullmove, 1);
    let r = Position::from_fen("4k3/8/8/8/8/8/8/4K3 w - - x y").unwrap();
    assert_eq!(r.halfmove_clock, 0);
    assert_eq!(r.fullmove, 1);
    let s = Position::from_fen("4k3/8/8/8/8/8/8/4K3 w - - +5 99999999999").unwrap();
    assert_eq!(s.halfmove_clock, 5);
    assert_eq!(s.fullmove, 1);
}

#[test]
fn fen_rejections() {
    assert!(Position::from_fen("4k3/8/8/8/8/8/8/4K3 w -").is_none());
    assert!(Position::from_fen("").is_none());
    assert!(Position::from_fen("4k3/8/8/8/8/8/8/4X3 w - - 0 1").is_none());
    // a placement running off the board may not be parsed at all
    assert!(!Position::fen_fits_board("4k3/8/8/8/8/8/8/4K3/P w - - 0 1"));
    assert!(!Position::fen_fits_board("88888888P w - - 0 1"));
    assert!(Position::fen_fits_board("too few"));
}

#[test]
fn fen_hash_matches_fresh_computation() {
    let p = Position::from_fen(KIWIPETE).unwrap();
    assert!(p.is_valid());
    let mut q = p;
    q.hash ^= 1;
    assert!(!q.is_valid());
}

#[test]
fn validity_catches_broken_positions() {
    // no black king
    let p = Position::from_fen("8/8/8/8/8/8/8/4K3 w - - 0 1").unwrap();
    assert!(!p.is_valid());
    // castling right without the rook's king at home
    let q = Position::from_fen("4k3/8/8/8/8/8/8/3K3R w K - 0 1").unwrap();
    assert!(!q.is_valid());
    // en-passant square with no pawn behind it
    let r = Position::from_fen("4k3/8/8/8/8/8/8/4K3 w - e6 0 1").unwrap();
    assert!(!r.is_valid());
}

#[test]
fn zobrist_keys_differ() {
    assert_ne!(piece_key(0, 12), piece_key(0, 28));
    assert_ne!(piece_key(0, 12), piece_key(1, 12));
    assert_ne!(side_key(), 0);
    assert_ne!(castling_key(15), 0);
    assert_eq!(castling_key(0), 0);
    assert_ne!(ep_key(0), ep_key(7));
    let p = Position::startpos();
    let black = Position::from_fen("rnbqkbnr/pppppppp/8/8/8/8/PPPPPPPP/RNBQKBNR b KQkq - 0 1").unwrap();
    assert_eq!(p.hash ^ side_key(), black.hash);
    assert_eq!(NO_SQ, 255);
}

#[test]
fn zobrist_keys_are_the_generated_stream() {
    let (pieces, side, castling, ep_base) = gen_keys();
    for piece in 0..12usize {
        for sq in 0..64u8 {
            assert_eq!(piece_key(piece, sq), pieces[piece][sq as usize]);
        }
    }
    assert_eq!(side_key(), side);
    for bit in 0..4usize {
        assert_eq!(castling_key(1u8 << bit), castling[bit]);
    }
    // the file keys continue the sequence after its en-passant start
    let mut s = ep_base;
    for file in 0..8u8 {
        s = lcg(s);
        assert_eq!(ep_key(file), s);
    }
    assert_eq!(pieces[0][0], lcg(ZOBRIST_SEED));
}

#[test]
fn canonical_fens_without_kings_read_back() {
    for fen in ["8/8/8/8/8/8/8/8 w - - 0 1", "8/8/8/3Q4/8/8/8/8 b Kq e3 12 40", "q7/8/8/8/8/8/8/7N w KQkq - 4294967295 4294967295"] {
        let p = Position::from_fen(fen).unwrap();
        assert_eq!(p.to_fen(), fen);
    }
}
