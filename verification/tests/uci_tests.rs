use stockshark::board::position::{Color, PieceType, Position};
use stockshark::uci::{board_diagram, parse_go, parse_position, parse_uci_move, uci_command, UciCommand};

#[test]
fn go_depth_and_times() {
    assert_eq!(parse_go(&["go", "depth", "8"], Color::White), (8, None));
    assert_eq!(parse_go(&["go"], Color::White), (6, None));
    assert_eq!(parse_go(&["go", "wtime", "30000", "btime", "60000"], Color::White), (6, Some(1200)));
    assert_eq!(parse_go(&["go", "wtime", "30000", "btime", "60000"], Color::Black), (6, Some(2400)));
    assert_eq!(parse_go(&["go", "movetime", "500", "wtime", "30000"], Color::White), (6, Some(500)));
    assert_eq!(parse_go(&["go", "depth"], Color::White), (6, None));
    assert_eq!(parse_go(&["go", "depth", "x", "movetime", "7"], Color::Black), (6, Some(7)));
    assert_eq!(parse_go(&["go", "infinite"], Color::Black), (6, None));
    let with_inc = ["go", "wtime", "25000", "btime", "25000", "winc", "1000", "binc", "2000"];
    assert_eq!(parse_go(&with_inc, Color::White), (6, Some(1750)));
    assert_eq!(parse_go(&with_inc, Color::Black), (6, Some(2500)));
    assert_eq!(parse_go(&["go", "wtime", "100", "winc", "1000"], Color::White), (6, Some(100)));
    // a keyword consumes the next token even when it is another keyword
    assert_eq!(parse_go(&["go", "movetime", "depth", "3"], Color::White), (6, None));
}

#[test]
fn uci_moves_are_found() {
    let p = Position::startpos();
    let m = parse_uci_move(&p, "e2e4").unwrap();
    assert_eq!((m.from_sq(), m.to_sq()), (12, 28));
    assert!(parse_uci_move(&p, "e2e5").is_none());
    assert!(parse_uci_move(&p, "e2").is_none());
    assert!(parse_uci_move(&p, "z9e4").is_none());
    let q = Position::from_fen("8/P6k/8/8/8/8/8/K7 w - - 0 1").unwrap();
    assert_eq!(parse_uci_move(&q, "a7a8q").unwrap().promo_piece(), PieceType::Queen);
    assert_eq!(parse_uci_move(&q, "a7a8n").unwrap().promo_piece(), PieceType::Knight);
    assert_eq!(parse_uci_move(&q, "a7a8").unwrap().promo_piece(), PieceType::Queen);
    assert!(parse_uci_move(&q, "a7a8x").is_none());
}

#[test]
fn position_startpos_with_moves() {
    let (p, h) = parse_position(&["position", "startpos", "moves", "e2e4", "e7e5", "g1f3"]);
    assert_eq!(p.to_fen(), "rnbqkbnr/pppp1ppp/8/4p3/4P3/5N2/PPPP1PPP/RNBQKB1R b KQkq - 1 2");
    assert_eq!(h.len(), 4);
    assert_eq!(h[0], Position::startpos().hash);
    assert_eq!(h[3], p.hash);
}

#[test]
fn position_fen_with_moves() {
    let (p, h) = parse_position(&[
        "position", "fen", "4k3/8/8/8/8/8/8/4K2R", "w", "K", "-", "0", "1", "moves", "e1g1",
    ]);
    assert_eq!(p.to_fen(), "4k3/8/8/8/8/8/8/5RK1 b - - 1 1");
    assert_eq!(h.len(), 2);
}

#[test]
fn position_skips_unreadable_moves_and_bad_fens() {
    let (p, h) = parse_position(&["position", "startpos", "moves", "e2e5", "e2e4"]);
    assert_eq!(h.len(), 2);
    assert_eq!(p.side, Color::Black);
    let (q, _) = parse_position(&["position", "fen", "bad"]);
    assert_eq!(q.to_fen(), Position::startpos().to_fen());
    let (r, hr) = parse_position(&["position"]);
    assert_eq!(r.to_fen(), Position::startpos().to_fen());
    assert_eq!(hr.len(), 1);
}

#[test]
fn commands_by_first_word() {
    assert_eq!(uci_command(&["uci"]), Some(UciCommand::Uci));
    assert_eq!(uci_command(&["isready"]), Some(UciCommand::IsReady));
    assert_eq!(uci_command(&["ucinewgame"]), Some(UciCommand::NewGame));
    assert_eq!(uci_command(&["position", "startpos"]), Some(UciCommand::Position));
    assert_eq!(uci_command(&["go", "depth", "3"]), Some(UciCommand::Go));
    assert_eq!(uci_command(&["stop"]), Some(UciCommand::Stop));
    assert_eq!(uci_command(&["quit"]), Some(UciCommand::Quit));
    assert_eq!(uci_command(&["d"]), Some(UciCommand::Display));
    assert_eq!(uci_command(&["hello"]), Some(UciCommand::Unknown));
    assert_eq!(uci_command(&[]), None);
}

#[test]
fn diagram_of_startpos() {
    let d = board_diagram(&Position::startpos());
    let lines: Vec<&str> = d.lines().collect();
    assert_eq!(lines.len(), 19);
    assert_eq!(lines[0], "  +---+---+---+---+---+---+---+---+");
    assert_eq!(lines[1], "8 | r | n | b | q | k | b | n | r |");
    assert_eq!(lines[9], "4 | . | . | . | . | . | . | . | . |");
    assert_eq!(lines[15], "1 | R | N | B | Q | K | B | N | R |");
    assert_eq!(lines[17], "    a   b   c   d   e   f   g   h");
    assert_eq!(lines[18], "FEN: rnbqkbnr/pppppppp/8/8/8/8/PPPPPPPP/RNBQKBNR w KQkq - 0 1");
}

#[test]
fn position_plays_pseudo_legal_moves_on() {
    // e1f1 walks into the rook's file; the game record still goes on.
    let (p, h) = parse_position(&[
        "position", "fen", "4kr2/8/8/8/8/8/8/4K3", "w", "-", "-", "0", "1", "moves", "e1f1", "e8d8",
    ]);
    assert_eq!(p.to_fen(), "3k1r2/8/8/8/8/8/8/5K2 w - - 2 2");
    assert_eq!(h.len(), 3);
}
