use stockshark::board::position::{Move, Position, FLAG_QUIET};
use stockshark::engine::book::get_book_move;
use stockshark::engine::eval::{evaluate, is_insufficient_material, DRAW_SCORE, MATE_SCORE};
use stockshark::engine::search::{search_ready, Engine, Uninterrupted};
use stockshark::engine::tt::{score_from_tt, score_to_tt, TranspositionTable, TtFlag};
use stockshark::moves::generator::MoveGen;
use stockshark::moves::make_move::{make_move, unmake_move};

const KIWIPETE: &str = "r3k2r/p1ppqpb1/bn2pnp1/3PN3/1p2P3/2N2Q1p/PPPBBPPP/R3K2R w KQkq - 0 1";

fn fen(s: &str) -> Position {
    Position::from_fen(s).unwrap()
}

fn is_legal(p: &Position, mv: Move) -> bool {
    if !MoveGen::generate(p).contains(&mv) {
        return false;
    }
    let mut q = *p;
    let undo = make_move(&mut q, mv);
    let them = 1 - q.side.index();
    let ok = !MoveGen::is_attacked(&q, q.king_sq[them], q.side.index());
    unmake_move(&mut q, mv, undo);
    ok
}

#[test]
fn eval_startpos_is_balanced() {
    assert_eq!(evaluate(&Position::startpos()), 0);
}

#[test]
fn eval_exact_values() {
    assert_eq!(evaluate(&fen("4k3/8/8/8/8/8/8/4K2R w - - 0 1")), 574);
    assert_eq!(evaluate(&fen(KIWIPETE)), 30);
    assert_eq!(evaluate(&fen("4k3/pp6/8/8/8/8/5PPP/6K1 w - - 0 1")), 147);
}

#[test]
fn eval_is_from_the_side_to_move() {
    for (w, b) in [
        ("4k3/8/8/8/8/8/8/4K2R w - - 0 1", "4k3/8/8/8/8/8/8/4K2R b - - 0 1"),
        (KIWIPETE, "r3k2r/p1ppqpb1/bn2pnp1/3PN3/1p2P3/2N2Q1p/PPPBBPPP/R3K2R b KQkq - 0 1"),
    ] {
        assert_eq!(evaluate(&fen(w)), -evaluate(&fen(b)));
    }
}

#[test]
fn eval_mirror_symmetry() {
    let a = evaluate(&fen("4k3/8/8/8/8/8/4P3/4K3 w - - 0 1"));
    let b = evaluate(&fen("4k3/4p3/8/8/8/8/8/4K3 b - - 0 1"));
    assert_eq!(a, b);
    assert!(a > 0);
}

#[test]
fn insufficient_material_cases() {
    assert!(is_insufficient_material(&fen("4k3/8/8/8/8/8/8/4K3 w - - 0 1")));
    assert!(is_insufficient_material(&fen("4k3/8/8/8/8/8/8/3NK3 w - - 0 1")));
    assert!(is_insufficient_material(&fen("4kb2/8/8/8/8/8/8/4K3 w - - 0 1")));
    // bishops on c1 and f8: both (file + rank) even, same colour
    assert!(is_insufficient_material(&fen("4kb2/8/8/8/8/8/8/2B1K3 w - - 0 1")));
    // bishops on c1 and c8: different colours
    assert!(!is_insufficient_material(&fen("2b1k3/8/8/8/8/8/8/2B1K3 w - - 0 1")));
    assert!(!is_insufficient_material(&fen("4k3/8/8/8/8/8/8/3RK3 w - - 0 1")));
    assert!(!is_insufficient_material(&fen("4k3/8/8/8/8/8/4P3/4K3 w - - 0 1")));
    assert!(!is_insufficient_material(&fen("4k3/8/8/8/8/8/8/2NNK3 w - - 0 1")));
    assert_eq!(evaluate(&fen("4k3/8/8/8/8/8/8/3NK3 w - - 0 1")), DRAW_SCORE);
}

#[test]
fn tt_store_then_probe() {
    let mut tt = TranspositionTable::new(1);
    let h = 0x1234_5678_9abc_def0u64;
    let mv = Move::new(12, 28, 1);
    assert_eq!(tt.probe(h, 1, -100, 100, 0), (None, Move(0)));
    tt.store(h, 5, 42, TtFlag::Exact, mv, 0);
    assert_eq!(tt.probe(h, 5, -100, 100, 0), (Some(42), mv));
    // too shallow: only the move
    assert_eq!(tt.probe(h, 6, -100, 100, 0), (None, mv));
    // a lower bound cuts only at or above beta
    tt.store(h, 8, 50, TtFlag::Lower, mv, 0);
    assert_eq!(tt.probe(h, 8, -100, 100, 0), (None, mv));
    assert_eq!(tt.probe(h, 8, -100, 40, 0), (Some(50), mv));
    // a shallower result does not replace a deeper one
    tt.store(h, 2, -7, TtFlag::Exact, Move(0), 0);
    assert_eq!(tt.probe(h, 8, -100, 40, 0), (Some(50), mv));
    tt.clear();
    assert_eq!(tt.probe(h, 1, -100, 100, 0), (None, Move(0)));
}

#[test]
fn tt_mate_scores_are_ply_relative() {
    assert_eq!(score_to_tt(MATE_SCORE - 3, 3), MATE_SCORE);
    assert_eq!(score_from_tt(MATE_SCORE, 5), MATE_SCORE - 5);
    assert_eq!(score_to_tt(-(MATE_SCORE - 4), 4), -MATE_SCORE);
    assert_eq!(score_to_tt(123, 9), 123);
    for ply in [0usize, 1, 17, 128] {
        for s in [-MATE_SCORE, -95_000, -1, 0, 5, 90_001, MATE_SCORE] {
            assert_eq!(score_from_tt(score_to_tt(s, ply), ply), s);
        }
    }
}

#[test]
fn tt_reads_back_across_plies_and_large_values() {
    let mut tt = TranspositionTable::new(1);
    let h: u64 = 0xdead_beef_0000_0042;
    let mv = Move::new(12, 28, 0);
    // a mate score stored at ply 3 reads back shifted at ply 7
    tt.store(h, 4, MATE_SCORE - 3, TtFlag::Exact, mv, 3);
    assert_eq!(tt.probe(h, 4, -100, 100, 7), (Some(MATE_SCORE - 7), mv));
    // plies and scores beyond what the search uses are accepted
    tt.store(h, 9, 1_000_000, TtFlag::Lower, mv, 5000);
    assert_eq!(tt.probe(h, 9, 0, 10, 6000), (Some(999_000), mv));
    assert_eq!(tt.probe(h, 9, 0, 2_000_000, 6000), (None, mv));
    tt.store(h, 3, -2_000_000, TtFlag::Upper, Move(0), 200);
    assert_eq!(tt.probe(h, 9, 0, 10, 6000), (Some(999_000), mv));
    tt.clear();
    assert_eq!(tt.probe(h, 1, -100, 100, 100_000), (None, Move(0)));
}

#[test]
fn search_finds_mate_in_one() {
    let mut p = fen("6k1/5ppp/8/8/8/8/5PPP/3R2K1 w - - 0 1");
    assert!(search_ready(&p));
    let mut e = Engine::new();
    let r = e.search(&mut p, 3, None);
    assert_eq!(r.best_move.to_uci(), "d1d8");
    assert_eq!(r.score, MATE_SCORE - 1);
    assert_eq!(r.depth, 3);
    assert_eq!(r.pv[0], r.best_move);
}

#[test]
fn search_finds_the_rook_mate_and_records_it() {
    let start = "6k1/5ppp/8/8/8/8/8/R5K1 w - - 0 1";
    let mut p = fen(start);
    let mut e = Engine::new();
    let r = e.search(&mut p, 2, None);
    assert_eq!(r.best_move, Move::new(0, 56, FLAG_QUIET));
    assert_eq!(r.score, MATE_SCORE - 1);
    assert_eq!(r.depth, 2);
    assert_eq!(r.pv, vec![r.best_move]);
    assert_eq!(p.to_fen(), start);
    // the table holds the root's exact result with the move played
    assert_eq!(e.tt.probe(p.hash, 2, -MATE_SCORE, MATE_SCORE, 0), (Some(r.score), r.best_move));
}

#[test]
fn search_on_mated_and_stalemated_positions() {
    let mut mated = fen("7k/6Q1/6K1/8/8/8/8/8 b - - 0 1");
    let mut e = Engine::new();
    let r = e.search(&mut mated, 3, None);
    assert!(r.best_move.is_null());
    assert_eq!(r.score, -MATE_SCORE);
    assert!(r.pv.is_empty());
    let mut stale = fen("7k/5Q2/6K1/8/8/8/8/8 b - - 0 1");
    let r = e.search(&mut stale, 3, None);
    assert!(r.best_move.is_null());
    assert_eq!(r.score, DRAW_SCORE);
}

#[test]
fn search_returns_a_legal_move_and_keeps_the_position() {
    for f in [
        "rnbqkbnr/pppppppp/8/8/8/8/PPPPPPPP/RNBQKBNR w KQkq - 0 1",
        KIWIPETE,
        "8/2p5/3p4/KP5r/1R3p1k/8/4P1P1/8 w - - 0 1",
    ] {
        let mut p = fen(f);
        let before = p.to_fen();
        let mut e = Engine::new();
        let r = e.search(&mut p, 3, None);
        assert_eq!(p.to_fen(), before);
        assert!(is_legal(&p, r.best_move), "{}", f);
        // the principal variation is a line of legal moves
        let mut q = p;
        for mv in &r.pv {
            assert!(is_legal(&q, *mv));
            make_move(&mut q, *mv);
        }
    }
}

#[test]
fn search_with_a_deadline_still_moves() {
    let mut p = fen(KIWIPETE);
    let mut e = Engine::new();
    let r = e.search(&mut p, 64, Some(30));
    assert!(is_legal(&p, r.best_move));
}

#[test]
fn search_ready_rejects_illegal_positions() {
    assert!(search_ready(&Position::startpos()));
    // the side not to move is in check
    assert!(!search_ready(&fen("4k3/8/8/8/8/8/8/4K2r b - - 0 1")));
    // malformed: no black king
    assert!(!search_ready(&fen("8/8/8/8/8/8/8/4K3 w - - 0 1")));
}

#[test]
fn book_first_moves() {
    assert_eq!(get_book_move(&[], 0).as_deref(), Some("e2e4"));
    assert_eq!(get_book_move(&[], 42).as_deref(), Some("g1f3"));
    let h = vec!["e2e4".to_string()];
    assert_eq!(get_book_move(&h, 0).as_deref(), Some("g7g6"));
    let h = vec!["d2d4".to_string(), "d7d5".to_string()];
    assert_eq!(get_book_move(&h, 3).as_deref(), Some("g1f3"));
}

#[test]
fn book_runs_out() {
    let h: Vec<String> = ["e2e4", "e7e5", "g1f3", "b8c6", "f1b5", "g8f6"].iter().map(|s| s.to_string()).collect();
    assert_eq!(get_book_move(&h, 0), None);
    let h = vec!["a2a3".to_string()];
    assert_eq!(get_book_move(&h, 9), None);
}

#[test]
fn book_candidates_are_in_book() {
    let firsts = ["b2b3", "c2c4", "d2d4", "e2e4", "g1f3", "g2g3"];
    for seed in 0..50u64 {
        let m = get_book_move(&[], seed).unwrap();
        assert!(firsts.contains(&m.as_str()));
    }
}

#[test]
fn new_engine_has_an_empty_table() {
    let e = Engine::new();
    assert!(e.game_history.is_empty());
    let (score, _) = e.tt.probe(0x1234_5678_9abc_def0, 0, -100, 100, 0);
    assert_eq!(score, None);
}

#[test]
fn doubled_pawns_cost_once_per_extra_pawn() {
    assert_eq!(evaluate(&fen("4k3/8/8/8/8/4P3/4P3/4K3 w - - 0 1")), 256);
}

#[test]
fn uninterrupted_search_runs_every_iteration() {
    let start = "6k1/5ppp/8/8/8/8/8/R5K1 w - - 0 1";
    let mut p = fen(start);
    let mut e = Engine::new();
    let r = e.search_with(&mut p, 3, &mut Uninterrupted);
    assert_eq!(r.best_move, Move::new(0, 56, FLAG_QUIET));
    assert_eq!(r.score, MATE_SCORE - 1);
    assert_eq!(r.depth, 3);
    assert_eq!(r.pv, vec![r.best_move]);
    assert_eq!(p.to_fen(), start);
}
