use stockshark::board::position::{Color, Move, Position};
use stockshark::moves::generator::{bishop_attacks, king_attacks, knight_attacks, rook_attacks, MoveGen};
use stockshark::moves::make_move::{make_move, make_null_move, unmake_move, unmake_null_move};
use stockshark::board::bitboard::Bitboard;

const KIWIPETE: &str = "r3k2r/p1ppqpb1/bn2pnp1/3PN3/1p2P3/2N2Q1p/PPPBBPPP/R3K2R w KQkq - 0 1";
const ENDGAME: &str = "8/2p5/3p4/KP5r/1R3p1k/8/4P1P1/8 w - - 0 1";

fn same_position(a: &Position, b: &Position) -> bool {
    a.pieces == b.pieces
        && a.occupancy == b.occupancy
        && a.side == b.side
        && a.castling == b.castling
        && a.ep_sq == b.ep_sq
        && a.halfmove_clock == b.halfmove_clock
        && a.fullmove == b.fullmove
        && a.hash == b.hash
        && a.king_sq == b.king_sq
        && a.board == b.board
}

fn perft(pos: &mut Position, depth: u32) -> u64 {
    if depth == 0 {
        return 1;
    }
    let mut n = 0;
    for mv in MoveGen::generate(pos) {
        let before = *pos;
        let undo = make_move(pos, mv);
        assert!(pos.is_valid());
        let them = 1 - pos.side.index();
        if !MoveGen::is_attacked(pos, pos.king_sq[them], pos.side.index()) {
            n += perft(pos, depth - 1);
        }
        unmake_move(pos, mv, undo);
        assert!(same_position(&before, pos));
    }
    n
}

#[test]
fn perft_startpos() {
    let mut p = Position::startpos();
    assert_eq!(perft(&mut p, 1), 20);
    assert_eq!(perft(&mut p, 2), 400);
    assert_eq!(perft(&mut p, 3), 8902);
}

#[test]
fn perft_kiwipete() {
    let mut p = Position::from_fen(KIWIPETE).unwrap();
    assert_eq!(perft(&mut p, 1), 48);
    assert_eq!(perft(&mut p, 2), 2039);
}

#[test]
fn perft_endgame() {
    let mut p = Position::from_fen(ENDGAME).unwrap();
    assert_eq!(perft(&mut p, 1), 14);
    assert_eq!(perft(&mut p, 2), 191);
    assert_eq!(perft(&mut p, 3), 2812);
}

#[test]
fn captures_are_the_capturing_moves() {
    let p = Position::from_fen(KIWIPETE).unwrap();
    let all = MoveGen::generate(&p);
    let caps = MoveGen::generate_captures(&p);
    let expected: Vec<Move> = all.iter().copied().filter(|m| m.is_capture()).collect();
    assert_eq!(caps.len(), expected.len());
    for m in &caps {
        assert!(m.is_capture());
        assert!(all.contains(m));
    }
}

#[test]
fn attack_tables() {
    assert_eq!(knight_attacks(0).0, (1u64 << 10) | (1u64 << 17));
    assert_eq!(king_attacks(0).0, (1u64 << 1) | (1u64 << 8) | (1u64 << 9));
    assert_eq!(rook_attacks(0, Bitboard(0)).count(), 14);
    assert_eq!(bishop_attacks(27, Bitboard(0)).count(), 13);
    // a blocker on the ray is attacked, squares behind it are not
    let blockers = Bitboard(1u64 << 3);
    let r = rook_attacks(0, blockers);
    assert!(r.contains(3));
    assert!(!r.contains(4));
}

#[test]
fn check_detection() {
    let p = Position::from_fen("4k3/8/8/8/8/8/8/4K2r w - - 0 1").unwrap();
    assert!(MoveGen::in_check(&p));
    assert!(MoveGen::is_attacked(&p, 4, 1));
    assert!(!MoveGen::is_attacked(&p, 4, 0));
    let q = Position::startpos();
    assert!(!MoveGen::in_check(&q));
}

#[test]
fn castling_through_check_is_not_generated() {
    // the black rook on f8 covers f1: no king-side castling
    let p = Position::from_fen("4kr2/8/8/8/8/8/8/4K2R w K - 0 1").unwrap();
    let moves = MoveGen::generate(&p);
    assert!(!moves.iter().any(|m| m.is_castle()));
    let q = Position::from_fen("4k3/8/8/8/8/8/8/4K2R w K - 0 1").unwrap();
    assert!(MoveGen::generate(&q).iter().any(|m| m.is_castle() && m.to_uci() == "e1g1"));
}

#[test]
fn make_and_unmake_restore_the_position() {
    let mut p = Position::from_fen(KIWIPETE).unwrap();
    let start = p;
    for mv in MoveGen::generate(&p) {
        let undo = make_move(&mut p, mv);
        assert!(p.is_valid());
        assert_eq!(p.side, Color::Black);
        unmake_move(&mut p, mv, undo);
        assert!(same_position(&start, &p));
    }
}

#[test]
fn null_move_restores() {
    let mut p = Position::from_fen("rnbqkbnr/pp1ppppp/8/2p5/4P3/8/PPPP1PPP/RNBQKBNR w KQkq c6 0 2").unwrap();
    let start = p;
    let undo = make_null_move(&mut p);
    assert_eq!(p.side, Color::Black);
    assert_eq!(p.ep_sq, 255);
    assert!(p.is_valid());
    unmake_null_move(&mut p, undo);
    assert!(same_position(&start, &p));
}

#[test]
fn en_passant_capture_removes_the_pawn() {
    let mut p = Position::from_fen("4k3/8/8/3pP3/8/8/8/4K3 w - d6 0 2").unwrap();
    let mv = MoveGen::generate(&p).into_iter().find(|m| m.is_ep()).unwrap();
    assert_eq!(mv.to_uci(), "e5d6");
    make_move(&mut p, mv);
    assert_eq!(p.board[35], None);
    assert!(p.board[43].is_some());
    assert_eq!(p.to_fen(), "4k3/8/3P4/8/8/8/8/4K3 b - - 0 2");
}

#[test]
fn hash_after_moves_equals_fresh_hash() {
    let mut p = Position::startpos();
    for uci in ["e2e4", "c7c5", "g1f3", "d7d6", "f1b5", "c8d7", "e1g1"] {
        let mv = MoveGen::generate(&p).into_iter().find(|m| m.to_uci() == uci).unwrap();
        make_move(&mut p, mv);
        let fresh = Position::from_fen(&p.to_fen()).unwrap();
        assert_eq!(p.hash, fresh.hash, "{}", uci);
    }
    assert_eq!(p.to_fen(), "rn1qkbnr/pp1bpppp/3p4/1Bp5/4P3/5N2/PPPP1PPP/RNBQ1RK1 b kq - 3 4");
}

#[test]
fn fen_of_played_positions_reads_back() {
    let mut pos = Position::from_fen(KIWIPETE).unwrap();
    let mut seen = 0;
    for mv in MoveGen::generate(&pos) {
        let undo = make_move(&mut pos, mv);
        if pos.castling < 16 {
            let text = pos.to_fen();
            assert!(Position::fen_fits_board(&text));
            let back = Position::from_fen(&text).unwrap();
            assert!(same_position(&back, &pos), "{}", text);
            seen += 1;
        }
        unmake_move(&mut pos, mv, undo);
    }
    assert_eq!(seen, 48);
}

#[test]
fn uci_text_names_one_move() {
    let pos = Position::from_fen(KIWIPETE).unwrap();
    let moves = MoveGen::generate(&pos);
    for (i, a) in moves.iter().enumerate() {
        for b in moves.iter().skip(i + 1) {
            assert_ne!(a.to_uci(), b.to_uci());
        }
    }
}

#[test]
fn pawn_moves_come_in_push_order() {
    let pos = Position::from_fen("4k3/8/8/8/3pP3/8/8/4K3 b - e3 0 1").unwrap();
    let moves = MoveGen::generate(&pos);
    assert_eq!(moves[0], Move::new(27, 19, 0));
    assert_eq!(moves[1], Move::new(27, 20, 5));
}

#[test]
fn captures_are_the_capturing_moves_of_generate() {
    for f in [KIWIPETE, ENDGAME, "4k3/8/8/8/3pP3/8/8/4K3 b - e3 0 1", "r3k3/1P6/8/8/8/8/8/4K3 w q - 0 1"] {
        let p = Position::from_fen(f).unwrap();
        let mut caps: Vec<u32> = MoveGen::generate_captures(&p).iter().map(|m| m.0 as u32).collect();
        let mut all: Vec<u32> =
            MoveGen::generate(&p).iter().filter(|m| m.is_capture()).map(|m| m.0 as u32).collect();
        caps.sort();
        all.sort();
        assert!(!caps.is_empty());
        assert_eq!(caps, all);
    }
}
