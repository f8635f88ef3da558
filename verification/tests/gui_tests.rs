use stockshark::board::position::{Color, Move, Piece, PieceType};
use stockshark::gui::app::{move_number_label, piece_glyph, polyglot_pick, GameMode, StockSharkApp};

fn app() -> StockSharkApp {
    StockSharkApp::new(0, "Titans.bin".to_string(), "No book".to_string())
}

#[test]
fn new_app_state() {
    let a = app();
    assert_eq!(a.status, "Your move (White)");
    assert!(!a.is_reviewing());
    assert_eq!(a.position_snapshots.len(), 1);
    assert_eq!(a.engine_depth, 6);
    assert_eq!(a.game_mode, GameMode::HumanVsEngine);
    assert!(!a.engine_to_move());
}

#[test]
fn click_selects_then_moves() {
    let mut a = app();
    assert!(!a.handle_click(12));
    assert_eq!(a.selected_sq, Some(12));
    assert_eq!(a.legal_moves.len(), 2);
    // clicking e4 plays e2e4; then it is the engine's turn
    assert!(a.handle_click(28));
    assert_eq!(a.selected_sq, None);
    assert!(a.legal_moves.is_empty());
    assert_eq!(a.move_history.len(), 1);
    assert_eq!(a.move_history[0].1, "e2e4");
    assert_eq!(a.position_snapshots.len(), 2);
    assert_eq!(a.status, "Black's turn");
    assert_eq!(a.last_move_squares(), Some((12, 28)));
    // the engine's side cannot be clicked
    assert!(!a.handle_click(52));
    assert_eq!(a.selected_sq, None);
}

#[test]
fn click_on_empty_square_clears_selection() {
    let mut a = app();
    a.handle_click(6);
    assert_eq!(a.selected_sq, Some(6));
    assert_eq!(a.legal_moves.len(), 2);
    a.handle_click(35);
    assert_eq!(a.selected_sq, None);
    assert!(a.legal_moves.is_empty());
}

#[test]
fn review_navigation() {
    let mut a = app();
    a.game_mode = GameMode::HumanVsHuman;
    a.handle_click(12);
    a.handle_click(28);
    a.handle_click(52);
    a.handle_click(36);
    assert_eq!(a.position_snapshots.len(), 3);
    a.nav_prev();
    assert!(a.is_reviewing());
    assert_eq!(a.view_index, 1);
    // clicks are ignored while reviewing
    assert!(!a.handle_click(6));
    assert_eq!(a.selected_sq, None);
    a.nav_first();
    assert_eq!(a.view_index, 0);
    assert_eq!(a.last_move_squares(), None);
    a.nav_prev();
    assert_eq!(a.view_index, 0);
    a.nav_next();
    a.nav_next();
    a.nav_next();
    assert_eq!(a.view_index, 2);
    a.navigate_to(1);
    assert_eq!(a.viewed_pos().to_fen(), "rnbqkbnr/pppppppp/8/8/4P3/8/PPPP1PPP/RNBQKBNR b KQkq e3 0 1");
    a.nav_last();
    assert!(!a.is_reviewing());
}

#[test]
fn fools_mate_ends_the_game() {
    let mut a = app();
    a.game_mode = GameMode::HumanVsHuman;
    for (from, to) in [(13u8, 21u8), (52, 36), (14, 30), (59, 31)] {
        a.handle_click(from);
        a.handle_click(to);
    }
    assert_eq!(a.move_history.len(), 4);
    assert_eq!(a.status, "Checkmate! Black wins.");
    assert!(a.is_game_over());
}

#[test]
fn engine_turns_and_results() {
    let mut a = app();
    a.game_mode = GameMode::EngineVsHuman;
    assert!(a.engine_to_move());
    let (p, depth, hist) = a.start_engine_search();
    assert!(a.engine_thinking);
    assert_eq!(a.status, "Engine thinking...");
    assert_eq!(depth, 6);
    assert!(hist.is_empty());
    assert_eq!(p.to_fen(), a.pos.to_fen());
    // a null result leaves the position and refreshes the status
    assert!(!a.accept_result(Move(0), 12));
    assert_eq!(a.eval_score, Some(12));
    assert!(!a.engine_thinking);
    assert_eq!(a.status, "White's turn");
    // an illegal move is not played
    assert!(!a.accept_result(Move::new(12, 36, 0), 0));
    assert_eq!(a.move_history.len(), 0);
    let mv = a.find_legal_move_by_uci("d2d4").unwrap();
    assert!(!a.accept_result(mv, 25));
    assert_eq!(a.move_history.len(), 1);
}

#[test]
fn book_replies_are_legal() {
    let a = app();
    let m = a.book_move().unwrap();
    assert_eq!(m.to_uci(), "e2e4");
    assert!(a.find_legal_move_by_uci("e2e5").is_none());
}

#[test]
fn new_game_resets() {
    let mut a = app();
    a.handle_click(12);
    a.handle_click(28);
    a.begin_book_move();
    assert_eq!(a.status, "Book...");
    a.game_mode = GameMode::EngineVsHuman;
    assert!(a.new_game(5));
    assert_eq!(a.game_seed, 5);
    assert_eq!(a.move_history.len(), 0);
    assert_eq!(a.status, "White's turn");
    assert!(!a.engine_thinking);
}

#[test]
fn board_coordinates_with_flip() {
    let mut a = app();
    assert_eq!(a.board_square(4, 1), 12);
    assert_eq!(a.display_cell(12), (4, 6));
    a.flip_board = true;
    assert_eq!(a.board_square(4, 1), 51);
    assert_eq!(a.display_cell(12), (3, 1));
}

#[test]
fn glyphs() {
    assert_eq!(piece_glyph(Piece::new(PieceType::King, Color::White)), "\u{2654}");
    assert_eq!(piece_glyph(Piece::new(PieceType::Pawn, Color::Black)), "\u{265f}");
}

#[test]
fn polyglot_pick_follows_the_weights() {
    let cases: [(u64, usize, [usize; 5]); 5] = [
        (0, 0, [2, 0, 1, 0, 1]),
        (1, 0, [2, 0, 1, 2, 0]),
        (12345, 3, [2, 0, 1, 2, 1]),
        (999, 7, [1, 0, 1, 2, 0]),
        (u64::MAX, 1, [2, 0, 1, 0, 1]),
    ];
    let books: [Vec<u16>; 5] = [vec![10, 30, 60], vec![1], vec![0, 5], vec![7, 0, 7], vec![65535, 65535, 1]];
    for (seed, plies, expected) in cases {
        for (k, ws) in books.iter().enumerate() {
            assert_eq!(polyglot_pick(ws, seed, plies), expected[k], "seed {} plies {} book {}", seed, plies, k);
        }
    }
}

#[test]
fn polyglot_pick_never_takes_a_weightless_entry() {
    for seed in 0..200u64 {
        let i = polyglot_pick(&vec![0, 3, 0, 4, 0], seed, 5);
        assert!(i == 1 || i == 3);
    }
}

#[test]
fn review_line_and_move_numbers() {
    let mut a = app();
    assert_eq!(move_number_label(0), Some("1.".to_string()));
    assert_eq!(move_number_label(1), None);
    assert_eq!(move_number_label(4), Some("3.".to_string()));
    a.view_index = 3;
    assert_eq!(a.review_text(), "Reviewing: move 2 (White) \u{2014} press \u{2192} or click >| to return");
    a.view_index = 4;
    assert_eq!(a.review_text(), "Reviewing: move 2 (Black) \u{2014} press \u{2192} or click >| to return");
}
