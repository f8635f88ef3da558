use vstd::prelude::*;

use crate::board::fen::{fen_fits, fen_parses, fen_position, start_piece};
use crate::board::position::{
    color_of_index, promo_letter, square_of_text, Color, Move, Piece, PieceType, Position, NO_SQ,
};
use crate::moves::generator::{lemma_pseudo_legal_fits, pseudo_legal, takes_king, MoveGen};
use crate::moves::make_move::{made, make_move};
use crate::text::{chars_of, parse_decimal, parse_unsigned, push_text};
use crate::board::fen::{fen_text, piece_letter};

verus! {

/// The words of a command line as character sequences.
pub open spec fn toks(t: Seq<&str>) -> Seq<Seq<char>> {
    t.map_values(|s: &str| s@)
}

/// `t` equals `lit`.
pub fn token_is(t: &str, lit: &str) -> (r: bool)
    ensures
        r == (t@ == lit@),
{
    let n = t.unicode_len();
    if n != lit.unicode_len() {
        return false;
    }
    let mut i: usize = 0;
    while i < n
        invariant
            i <= n,
            n == t@.len(),
            n == lit@.len(),
            forall|k: int| 0 <= k < i ==> t@[k] == lit@[k],
        decreases n - i,
    {
        if t.get_char(i) != lit.get_char(i) {
            return false;
        }
        i += 1;
    }
    assert(t@ =~= lit@);
    true
}

/// Token `i` read as a number no larger than `max` (`None` when missing or unreadable).
pub open spec fn number_at(t: Seq<Seq<char>>, i: int, max: int) -> Option<int> {
    if 0 <= i < t.len() {
        parse_unsigned(t[i], max)
    } else {
        None
    }
}

pub open spec fn as_u64(v: Option<int>) -> Option<u64> {
    match v {
        Some(x) => Some(x as u64),
        None => None,
    }
}

/// What a "go" command sets: depth, movetime, wtime, btime, winc, binc.
pub type GoState = (u32, Option<u64>, Option<u64>, Option<u64>, Option<u64>, Option<u64>);

/// Scan of the arguments of a "go" command from token `i` on. A keyword takes
/// the next token as its value.
pub open spec fn go_scan(t: Seq<Seq<char>>, i: int, st: GoState) -> GoState
    decreases t.len() + 1 - i,
{
    if i < 0 || i >= t.len() {
        st
    } else if t[i] == "depth"@ {
        let d = match number_at(t, i + 1, u32::MAX as int) {
            Some(v) => v as u32,
            None => 6u32,
        };
        go_scan(t, i + 2, (d, st.1, st.2, st.3, st.4, st.5))
    } else if t[i] == "movetime"@ {
        go_scan(t, i + 2, (st.0, as_u64(number_at(t, i + 1, u64::MAX as int)), st.2, st.3, st.4, st.5))
    } else if t[i] == "wtime"@ {
        go_scan(t, i + 2, (st.0, st.1, as_u64(number_at(t, i + 1, u64::MAX as int)), st.3, st.4, st.5))
    } else if t[i] == "btime"@ {
        go_scan(t, i + 2, (st.0, st.1, st.2, as_u64(number_at(t, i + 1, u64::MAX as int)), st.4, st.5))
    } else if t[i] == "winc"@ {
        go_scan(t, i + 2, (st.0, st.1, st.2, st.3, as_u64(number_at(t, i + 1, u64::MAX as int)), st.5))
    } else if t[i] == "binc"@ {
        go_scan(t, i + 2, (st.0, st.1, st.2, st.3, st.4, as_u64(number_at(t, i + 1, u64::MAX as int))))
    } else {
        go_scan(t, i + 1, st)
    }
}

/// Time allotted from a clock of `clock` ms with an increment of `inc` ms:
/// a 25th of the clock plus three quarters of the increment, never more than
/// the clock.
pub open spec fn allot(clock: int, inc: int) -> int {
    let a = clock / 25 + (inc - inc / 4);
    if a < clock {
        a
    } else {
        clock
    }
}

/// Depth and time budget of a "go" command: the depth given (6 by default),
/// and "movetime" if given, else the time allotted from the side to move's
/// clock and increment.
pub open spec fn go_limits(t: Seq<Seq<char>>, side: Color) -> (u32, Option<u64>) {
    let s = go_scan(t, 1, (6, None, None, None, None, None));
    let clock = if side == Color::White { s.2 } else { s.3 };
    let inc: int = match (if side == Color::White { s.4 } else { s.5 }) {
        Some(x) => x as int,
        None => 0,
    };
    (
        s.0,
        match s.1 {
            Some(m) => Some(m),
            None => match clock {
                Some(ms) => Some(allot(ms as int, inc) as u64),
                None => None,
            },
        },
    )
}

fn allot_time(clock: u64, inc: u64) -> (r: u64)
    ensures
        r == allot(clock as int, inc as int),
{
    let most = inc - inc / 4;
    if most >= clock - clock / 25 {
        clock
    } else {
        clock / 25 + most
    }
}

fn number_token(t: &str, max: u64) -> (r: Option<u64>)
    ensures
        r is None <==> parse_unsigned(t@, max as int) is None,
        r matches Some(x) ==> parse_unsigned(t@, max as int) == Some(x as int) && x <= max,
{
    let v = chars_of(t);
    parse_decimal(&v, max)
}

/// Token `i` as a number no larger than `max`.
fn number_after(tokens: &[&str], i: usize, max: u64) -> (r: Option<u64>)
    ensures
        r is None <==> number_at(toks(tokens@), i as int, max as int) is None,
        r matches Some(x) ==> number_at(toks(tokens@), i as int, max as int) == Some(x as int) && x <= max,
{
    if i < tokens.len() {
        number_token(tokens[i], max)
    } else {
        None
    }
}

/// Reads the depth and time budget of a "go" command.
pub fn parse_go(tokens: &[&str], side: Color) -> (r: (u32, Option<u64>))
    ensures
        r == go_limits(toks(tokens@), side),
{
    let ghost t = toks(tokens@);
    let mut depth: u32 = 6;
    let mut movetime: Option<u64> = None;
    let mut wtime: Option<u64> = None;
    let mut btime: Option<u64> = None;
    let mut winc: Option<u64> = None;
    let mut binc: Option<u64> = None;
    let mut i: usize = 1;
    while i < tokens.len()
        invariant
            t == toks(tokens@),
            1 <= i,
            go_scan(t, i as int, (depth, movetime, wtime, btime, winc, binc)) == go_scan(
                t,
                1,
                (6, None, None, None, None, None),
            ),
        decreases tokens@.len() - i,
    {
        let tok = tokens[i];
        assert(t[i as int] == tok@);
        let ghost st0 = (depth, movetime, wtime, btime, winc, binc);
        let ghost i0 = i;
        let mut keyword = true;
        if token_is(tok, "depth") {
            depth = match number_after(tokens, i + 1, u32::MAX as u64) {
                Some(v) => v as u32,
                None => 6,
            };
        } else if token_is(tok, "movetime") {
            movetime = number_after(tokens, i + 1, u64::MAX);
        } else if token_is(tok, "wtime") {
            wtime = number_after(tokens, i + 1, u64::MAX);
        } else if token_is(tok, "btime") {
            btime = number_after(tokens, i + 1, u64::MAX);
        } else if token_is(tok, "winc") {
            winc = number_after(tokens, i + 1, u64::MAX);
        } else if token_is(tok, "binc") {
            binc = number_after(tokens, i + 1, u64::MAX);
        } else {
            keyword = false;
        }
        if !keyword {
            i += 1;
        } else if i + 1 < tokens.len() {
            i += 2;
        } else {
            i = tokens.len();
        }
        proof {
            let st1 = (depth, movetime, wtime, btime, winc, binc);
            if keyword {
                assert(go_scan(t, i0 + 2, st1) == go_scan(t, i0 as int, st0));
                assert(go_scan(t, i as int, st1) == go_scan(t, i0 + 2, st1));
            } else {
                assert(go_scan(t, i as int, st1) == go_scan(t, i0 as int, st0));
            }
        }
    }
    let clock = match side {
        Color::White => wtime,
        Color::Black => btime,
    };
    let inc = match side {
        Color::White => winc,
        Color::Black => binc,
    };
    let inc_ms: u64 = match inc {
        Some(x) => x,
        None => 0,
    };
    let time_ms = match movetime {
        Some(m) => Some(m),
        None => match clock {
            Some(ms) => Some(allot_time(ms, inc_ms)),
            None => None,
        },
    };
    (depth, time_ms)
}


// ── Moves in UCI notation ────────────────────────────────────────────────────

/// The character that picks a promotion piece: the fifth one ('q' without one).
pub open spec fn promo_choice(t: Seq<char>) -> char {
    if t.len() > 4 {
        t[4]
    } else {
        'q'
    }
}

/// `t` writes move `m`: its from- and to-squares, and for a promotion the
/// letter of its piece.
pub open spec fn uci_move_matches(t: Seq<char>, m: Move) -> bool {
    &&& t.len() >= 4
    &&& square_of_text(t) == Some(m.from_spec() as u8)
    &&& square_of_text(t.skip(2)) == Some(m.to_spec() as u8)
    &&& m.promo_spec() ==> promo_choice(t) == promo_letter(m.promo_piece_spec())
}

/// Two moves written by the same text share their squares and promotion piece.
proof fn lemma_matches_same(t: Seq<char>, m1: Move, m2: Move)
    requires
        uci_move_matches(t, m1),
        uci_move_matches(t, m2),
    ensures
        m1.from_spec() == m2.from_spec(),
        m1.to_spec() == m2.to_spec(),
        m1.promo_spec() && m2.promo_spec() ==> m1.promo_piece_spec() == m2.promo_piece_spec(),
{
    crate::board::position::lemma_move_ranges(m1);
    crate::board::position::lemma_move_ranges(m2);
}

/// The square written by characters `i` and `i + 1` of `s`.
fn square_in(s: &str, i: usize) -> (r: Option<u8>)
    requires
        i + 2 <= s@.len(),
        i <= 2,
    ensures
        r == square_of_text(s@.skip(i as int)),
{
    let f = s.get_char(i);
    let r = s.get_char(i + 1);
    if 'a' <= f && f <= 'h' && '1' <= r && r <= '8' {
        let file = (f as u32 - 97) as u8;
        let rank = (r as u32 - 49) as u8;
        Some(rank * 8 + file)
    } else {
        None
    }
}

/// Finds the pseudo-legal move written `s` in UCI notation ("e2e4", "e7e8q").
pub fn parse_uci_move(pos: &Position, s: &str) -> (r: Option<Move>)
    requires
        pos.wf(),
    ensures
        r matches Some(m) ==> pseudo_legal(*pos, m) && uci_move_matches(s@, m),
        r matches Some(m) ==> forall|m2: Move|
            pseudo_legal(*pos, m2) && uci_move_matches(s@, m2) ==> m2 == m,
        r is None ==> forall|m: Move| pseudo_legal(*pos, m) ==> !uci_move_matches(s@, m),
{
    let n = s.unicode_len();
    if n < 4 {
        return None;
    }
    proof {
        assert(s@.skip(0) =~= s@);
    }
    let from = match square_in(s, 0) {
        Some(sq) => sq,
        None => return None,
    };
    let to = match square_in(s, 2) {
        Some(sq) => sq,
        None => return None,
    };
    let promo_char = if n > 4 {
        s.get_char(4)
    } else {
        'q'
    };
    let moves = MoveGen::generate(pos);
    let mut i: usize = 0;
    while i < moves.len()
        invariant
            i <= moves@.len(),
            pos.wf(),
            forall|x: int| 0 <= x < moves@.len() ==> pseudo_legal(*pos, #[trigger] moves@[x]),
            forall|m: Move| pseudo_legal(*pos, m) ==> #[trigger] moves@.contains(m),
            n == s@.len(),
            n >= 4,
            square_of_text(s@) == Some(from),
            square_of_text(s@.skip(2)) == Some(to),
            promo_char == promo_choice(s@),
            forall|x: int| 0 <= x < i ==> !uci_move_matches(s@, #[trigger] moves@[x]),
        decreases moves@.len() - i,
    {
        let mv = moves[i];
        proof {
            crate::board::position::lemma_move_ranges(mv);
        }
        if mv.from_sq() == from && mv.to_sq() == to {
            let ok = if mv.is_promotion() {
                let expected = match mv.promo_piece() {
                    PieceType::Queen => 'q',
                    PieceType::Rook => 'r',
                    PieceType::Bishop => 'b',
                    PieceType::Knight => 'n',
                    _ => 'q',
                };
                promo_char == expected
            } else {
                true
            };
            if ok {
                proof {
                    assert forall|m2: Move| pseudo_legal(*pos, m2) && uci_move_matches(s@, m2) implies m2
                        == mv by {
                        lemma_matches_same(s@, mv, m2);
                        crate::moves::generator::lemma_pseudo_legal_unique(*pos, mv, m2);
                    }
                }
                return Some(mv);
            }
        }
        i += 1;
    }
    proof {
        assert forall|m: Move| pseudo_legal(*pos, m) implies !uci_move_matches(s@, m) by {
            assert(moves@.contains(m));
            let x = choose|x: int| 0 <= x < moves@.len() && moves@[x] == m;
            assert(!uci_move_matches(s@, moves@[x]));
        }
    }
    None
}

// ── The "position" command ───────────────────────────────────────────────────

/// Words of `ws` before the first one equal to `stop`.
pub open spec fn words_until(ws: Seq<Seq<char>>, stop: Seq<char>) -> Seq<Seq<char>>
    decreases ws.len(),
{
    if ws.len() == 0 || ws[0] == stop {
        Seq::empty()
    } else {
        seq![ws[0]] + words_until(ws.drop_first(), stop)
    }
}

/// Words joined with single spaces.
pub open spec fn join_words(ws: Seq<Seq<char>>) -> Seq<char>
    decreases ws.len(),
{
    if ws.len() == 0 {
        Seq::empty()
    } else if ws.len() == 1 {
        ws[0]
    } else {
        join_words(ws.drop_last()) + seq![' '] + ws.last()
    }
}

/// FEN text of a "position fen ..." command: the words after "fen" up to "moves".
pub open spec fn command_fen(t: Seq<Seq<char>>) -> Seq<char> {
    join_words(words_until(t.skip(2), "moves"@))
}

/// Index of the first token "moves" at or after `i`.
pub open spec fn moves_from(t: Seq<Seq<char>>, i: int) -> Option<int>
    decreases t.len() - i,
{
    if i < 0 || i >= t.len() {
        None
    } else if t[i] == "moves"@ {
        Some(i)
    } else {
        moves_from(t, i + 1)
    }
}

/// The move tokens of a "position" command: those after the first "moves".
pub open spec fn command_moves(t: Seq<Seq<char>>) -> Seq<Seq<char>> {
    match moves_from(t, 0) {
        Some(i) => t.skip(i + 1),
        None => Seq::empty(),
    }
}

/// The standard starting position.
pub open spec fn is_startpos(p: Position) -> bool {
    &&& p.wf()
    &&& p.board@ == Seq::new(64, |sq: int| start_piece(sq))
    &&& p.side == Color::White
    &&& p.castling == 15
    &&& p.ep_sq == NO_SQ
    &&& p.halfmove_clock == 0
    &&& p.fullmove == 1
}

/// The position a "position" command starts from: the FEN after "fen" when it
/// parses, else the starting position.
pub open spec fn command_start(t: Seq<Seq<char>>, p: Position) -> bool {
    if t.len() > 1 && t[1] == "fen"@ && fen_parses(command_fen(t)) {
        fen_position(command_fen(t), p)
    } else {
        is_startpos(p)
    }
}

/// Moves can be played on `p`: it is well formed and its move counters have room.
pub open spec fn playable(p: Position) -> bool {
    p.wf() && p.halfmove_clock < u32::MAX && p.fullmove < u32::MAX
}

/// Playing the move tokens `ms` from `p` reaches `q`, the hashes of the
/// positions reached being `hs`: each token that writes a pseudo-legal move of
/// a playable position, without taking a king, is played; others are skipped.
pub open spec fn replayed(p: Position, ms: Seq<Seq<char>>, q: Position, hs: Seq<u64>) -> bool
    decreases ms.len(),
{
    if ms.len() == 0 {
        q == p && hs.len() == 0
    } else if playable(p) && exists|m: Move|
        pseudo_legal(p, m) && #[trigger] uci_move_matches(ms[0], m) && !takes_king(p, m) {
        exists|m: Move, p1: Position|
            #![trigger made(p, m, p1)]
            pseudo_legal(p, m) && uci_move_matches(ms[0], m) && !takes_king(p, m) && made(p, m, p1) && hs.len() > 0 && hs[0]
                == p1.hash && replayed(p1, ms.drop_first(), q, hs.drop_first())
    } else {
        replayed(p, ms.drop_first(), q, hs)
    }
}

fn playable_now(pos: &Position) -> (r: bool)
    ensures
        r == playable(*pos),
{
    pos.is_valid() && pos.halfmove_clock < u32::MAX && pos.fullmove < u32::MAX
}

/// The move takes a king.
fn captures_king(pos: &Position, mv: Move) -> (r: bool)
    ensures
        r == takes_king(*pos, mv),
{
    proof {
        crate::board::position::lemma_move_ranges(mv);
    }
    match pos.board[mv.to_sq() as usize] {
        Some(pc) => pc.kind == PieceType::King,
        None => false,
    }
}

/// Joins `tokens[from..]` up to the first "moves" with single spaces.
fn fen_of_command(tokens: &[&str]) -> (s: String)
    requires
        tokens@.len() >= 2,
    ensures
        s@ == command_fen(toks(tokens@)),
{
    let ghost t = toks(tokens@);
    let mut s = String::new();
    let mut i: usize = 2;
    let mut first = true;
    proof {
        assert(t.skip(2).take(0) =~= Seq::<Seq<char>>::empty());
    }
    while i < tokens.len() && !token_is(tokens[i], "moves")
        invariant
            2 <= i <= tokens@.len(),
            t == toks(tokens@),
            first == (i == 2),
            words_until(t.skip(2), "moves"@) == t.skip(2).take(i - 2) + words_until(t.skip(i as int), "moves"@),
            s@ == join_words(t.skip(2).take(i - 2)),
        decreases tokens@.len() - i,
    {
        let ghost before = t.skip(2).take(i - 2);
        if !first {
            s.push(' ');
        }
        let v = chars_of(tokens[i]);
        let mut k: usize = 0;
        let ghost s0 = s@;
        while k < v.len()
            invariant
                k <= v@.len(),
                s@ == s0 + v@.take(k as int),
            decreases v@.len() - k,
        {
            s.push(v[k]);
            k += 1;
            assert(s@ =~= s0 + v@.take(k as int));
        }
        proof {
            assert(v@.take(v@.len() as int) =~= v@);
            let after = t.skip(2).take(i - 1);
            assert(after.drop_last() =~= before);
            assert(after.last() == t[i as int]);
            assert(t[i as int] == tokens@[i as int]@);
            assert(t.skip(i as int).drop_first() =~= t.skip(i + 1));
            assert(t.skip(i as int)[0] == t[i as int]);
            assert(t.skip(2).take(i - 2) + seq![t[i as int]] =~= after);
        }
        first = false;
        i += 1;
    }
    proof {
        if i < tokens.len() {
            assert(t.skip(i as int)[0] == "moves"@);
        } else {
            assert(t.skip(i as int).len() == 0);
        }
        assert(t.skip(2).take(i - 2) + Seq::<Seq<char>>::empty() =~= t.skip(2).take(i - 2));
    }
    s
}

/// Returns the position after applying all moves, plus a history of all
/// position hashes (the start first).
pub fn parse_position(tokens: &[&str]) -> (r: (Position, Vec<u64>))
    requires
        tokens@.len() > 1 && tokens@[1]@ == "fen"@ ==> fen_fits(command_fen(toks(tokens@))),
    ensures
        exists|p0: Position|
            command_start(toks(tokens@), p0) && r.1@.len() > 0 && r.1@[0] == p0.hash && replayed(
                p0,
                command_moves(toks(tokens@)),
                r.0,
                r.1@.drop_first(),
            ),
{
    let ghost t = toks(tokens@);
    let mut pos = if tokens.len() > 1 && token_is(tokens[1], "fen") {
        let fen = fen_of_command(tokens);
        match Position::from_fen(fen.as_str()) {
            Some(p) => p,
            None => Position::startpos(),
        }
    } else {
        Position::startpos()
    };
    let ghost p0 = pos;
    proof {
        if t.len() > 1 {
            assert(t[1] == tokens@[1]@);
        }
        assert(command_start(t, p0));
    }
    let mut history: Vec<u64> = Vec::new();
    history.push(pos.hash);
    // Index of the first "moves" token, if any.
    let mut idx: usize = 0;
    while idx < tokens.len() && !token_is(tokens[idx], "moves")
        invariant
            idx <= tokens@.len(),
            t == toks(tokens@),
            moves_from(t, 0) == moves_from(t, idx as int),
        decreases tokens@.len() - idx,
    {
        idx += 1;
    }
    let ghost ms = command_moves(t);
    proof {
        if idx < tokens.len() {
            assert(moves_from(t, idx as int) == Some(idx as int));
        } else {
            assert(ms.len() == 0);
        }
    }
    if idx < tokens.len() {
        let mut j: usize = idx + 1;
        proof {
            assert(ms.skip(0) =~= ms);
            assert(history@.drop_first() =~= Seq::<u64>::empty());
            assert forall|q: Position, hs: Seq<u64>|
                #[trigger] replayed(pos, ms.skip(j - idx - 1), q, hs) implies replayed(
                p0,
                ms,
                q,
                history@.drop_first() + hs,
            ) by {
                assert(history@.drop_first() + hs =~= hs);
            }
        }
        while j < tokens.len()
            invariant
                idx < j <= tokens@.len(),
                t == toks(tokens@),
                ms == t.skip(idx + 1),
                history@.len() > 0,
                history@[0] == p0.hash,
                forall|q: Position, hs: Seq<u64>|
                    #[trigger] replayed(pos, ms.skip(j - idx - 1), q, hs) ==> replayed(
                        p0,
                        ms,
                        q,
                        history@.drop_first() + hs,
                    ),
            decreases tokens@.len() - j,
        {
            let ghost cur = pos;
            let ghost rest = ms.skip(j - idx - 1);
            let ghost h0 = history@;
            proof {
                assert(rest[0] == tokens@[j as int]@);
                assert(rest.drop_first() =~= ms.skip(j - idx));
            }
            let mut played = false;
            if playable_now(&pos) {
                match parse_uci_move(&pos, tokens[j]) {
                    Some(mv) if !captures_king(&pos, mv) => {
                        proof {
                            lemma_pseudo_legal_fits(cur, mv);
                        }
                        make_move(&mut pos, mv);
                        history.push(pos.hash);
                        played = true;
                        proof {
                            assert forall|q: Position, hs: Seq<u64>|
                                #[trigger] replayed(pos, ms.skip(j - idx), q, hs) implies replayed(
                                p0,
                                ms,
                                q,
                                history@.drop_first() + hs,
                            ) by {
                                let hs2 = seq![pos.hash] + hs;
                                assert(hs2.drop_first() =~= hs);
                                assert(made(cur, mv, pos));
                                assert(replayed(cur, rest, q, hs2));
                                assert(h0.drop_first() + hs2 =~= history@.drop_first() + hs);
                            }
                        }
                    },
                    _ => {},
                }
            }
            if !played {
                proof {
                    assert forall|q: Position, hs: Seq<u64>|
                        #[trigger] replayed(pos, ms.skip(j - idx), q, hs) implies replayed(
                        p0,
                        ms,
                        q,
                        history@.drop_first() + hs,
                    ) by {
                        assert(replayed(cur, rest, q, hs));
                    }
                }
            }
            j += 1;
        }
        proof {
            assert(ms.skip(j - idx - 1).len() == 0);
            assert(replayed(pos, ms.skip(j - idx - 1), pos, Seq::<u64>::empty()));
            assert(history@.drop_first() + Seq::<u64>::empty() =~= history@.drop_first());
            assert(replayed(p0, ms, pos, history@.drop_first()));
        }
    } else {
        proof {
            assert(replayed(pos, ms, pos, Seq::<u64>::empty()));
            assert(history@.drop_first() =~= Seq::<u64>::empty());
        }
    }
    (pos, history)
}


// ── Commands ─────────────────────────────────────────────────────────────────

#[derive(Clone, Copy, PartialEq, Eq, Structural, Debug)]
pub enum UciCommand {
    Uci,
    IsReady,
    NewGame,
    Position,
    Go,
    Stop,
    Quit,
    Display,
    Unknown,
}

/// The command a line starts with (`None` for a blank line).
pub open spec fn command_of(t: Seq<Seq<char>>) -> Option<UciCommand> {
    if t.len() == 0 {
        None
    } else if t[0] == "uci"@ {
        Some(UciCommand::Uci)
    } else if t[0] == "isready"@ {
        Some(UciCommand::IsReady)
    } else if t[0] == "ucinewgame"@ {
        Some(UciCommand::NewGame)
    } else if t[0] == "position"@ {
        Some(UciCommand::Position)
    } else if t[0] == "go"@ {
        Some(UciCommand::Go)
    } else if t[0] == "stop"@ {
        Some(UciCommand::Stop)
    } else if t[0] == "quit"@ {
        Some(UciCommand::Quit)
    } else if t[0] == "d"@ {
        Some(UciCommand::Display)
    } else {
        Some(UciCommand::Unknown)
    }
}

/// Classifies a command line by its first word.
pub fn uci_command(tokens: &[&str]) -> (r: Option<UciCommand>)
    ensures
        r == command_of(toks(tokens@)),
{
    if tokens.len() == 0 {
        return None;
    }
    let w = tokens[0];
    assert(toks(tokens@)[0] == w@);
    Some(
        if token_is(w, "uci") {
            UciCommand::Uci
        } else if token_is(w, "isready") {
            UciCommand::IsReady
        } else if token_is(w, "ucinewgame") {
            UciCommand::NewGame
        } else if token_is(w, "position") {
            UciCommand::Position
        } else if token_is(w, "go") {
            UciCommand::Go
        } else if token_is(w, "stop") {
            UciCommand::Stop
        } else if token_is(w, "quit") {
            UciCommand::Quit
        } else if token_is(w, "d") {
            UciCommand::Display
        } else {
            UciCommand::Unknown
        },
    )
}

// ── Board diagram ────────────────────────────────────────────────────────────

/// Character shown for a square: the piece's FEN letter, '.' when empty.
pub open spec fn square_char(p: Option<Piece>) -> char {
    match p {
        Some(pc) => piece_letter(pc),
        None => '.',
    }
}

/// The cells of rank `r` from file `f` on: " X |" each.
pub open spec fn rank_cells(b: Seq<Option<Piece>>, r: int, f: int) -> Seq<char>
    decreases 8 - f,
{
    if f >= 8 {
        Seq::empty()
    } else {
        seq![' ', square_char(b[r * 8 + f]), ' ', '|'] + rank_cells(b, r, f + 1)
    }
}

/// Ranks `r` down to 1 of the diagram, each followed by a border line.
pub open spec fn diagram_ranks(b: Seq<Option<Piece>>, r: int) -> Seq<char>
    decreases r + 1,
{
    if r < 0 {
        Seq::empty()
    } else {
        seq![(49 + r) as char, ' ', '|'] + rank_cells(b, r, 0) + seq!['\n'] + "  +---+---+---+---+---+---+---+---+\n"@
            + diagram_ranks(b, r - 1)
    }
}

/// The text the "d" command prints: the board from rank 8 down, file letters,
/// and the FEN.
pub open spec fn diagram_text(p: Position) -> Seq<char> {
    "  +---+---+---+---+---+---+---+---+\n"@ + diagram_ranks(p.board@, 7) + "    a   b   c   d   e   f   g   h\n"@
        + "FEN: "@ + fen_text(p) + seq!['\n']
}

fn square_char_of(p: Option<Piece>) -> (c: char)
    ensures
        c == square_char(p),
{
    match p {
        Some(pc) => match (pc.kind, pc.color) {
            (PieceType::Pawn, Color::White) => 'P',
            (PieceType::Knight, Color::White) => 'N',
            (PieceType::Bishop, Color::White) => 'B',
            (PieceType::Rook, Color::White) => 'R',
            (PieceType::Queen, Color::White) => 'Q',
            (PieceType::King, Color::White) => 'K',
            (PieceType::Pawn, Color::Black) => 'p',
            (PieceType::Knight, Color::Black) => 'n',
            (PieceType::Bishop, Color::Black) => 'b',
            (PieceType::Rook, Color::Black) => 'r',
            (PieceType::Queen, Color::Black) => 'q',
            (PieceType::King, Color::Black) => 'k',
        },
        None => '.',
    }
}

fn push_rank_line(s: &mut String, b: &[Option<Piece>; 64], r: usize)
    requires
        r < 8,
    ensures
        final(s)@ == old(s)@ + seq![(49 + r) as char, ' ', '|'] + rank_cells(b@, r as int, 0) + seq!['\n'],
{
    s.push((49u8 + r as u8) as char);
    s.push(' ');
    s.push('|');
    let ghost s0 = s@;
    let mut f: usize = 0;
    while f < 8
        invariant
            f <= 8,
            r < 8,
            s@ + rank_cells(b@, r as int, f as int) == s0 + rank_cells(b@, r as int, 0),
        decreases 8 - f,
    {
        let ghost before = s@;
        s.push(' ');
        s.push(square_char_of(b[r * 8 + f]));
        s.push(' ');
        s.push('|');
        proof {
            assert(s@ + rank_cells(b@, r as int, f + 1) =~= before + rank_cells(b@, r as int, f as int));
        }
        f += 1;
    }
    let ghost s1 = s@;
    s.push('\n');
    proof {
        assert(s1 =~= s0 + rank_cells(b@, r as int, 0));
        assert(s@ =~= old(s)@ + seq![(49 + r) as char, ' ', '|'] + rank_cells(b@, r as int, 0) + seq!['\n']);
    }
}

/// The board diagram printed by the "d" command.
pub fn board_diagram(pos: &Position) -> (s: String)
    ensures
        s@ == diagram_text(*pos),
{
    let mut s = String::new();
    push_text(&mut s, "  +---+---+---+---+---+---+---+---+\n");
    let ghost head = s@;
    let mut k: usize = 0;
    while k < 8
        invariant
            k <= 8,
            s@ + diagram_ranks(pos.board@, 7 - k) == head + diagram_ranks(pos.board@, 7),
        decreases 8 - k,
    {
        let r = 7 - k;
        let ghost before = s@;
        push_rank_line(&mut s, &pos.board, r);
        push_text(&mut s, "  +---+---+---+---+---+---+---+---+\n");
        proof {
            assert(s@ + diagram_ranks(pos.board@, r - 1) =~= before + diagram_ranks(pos.board@, r as int));
        }
        k += 1;
    }
    let ghost body = s@;
    push_text(&mut s, "    a   b   c   d   e   f   g   h\n");
    push_text(&mut s, "FEN: ");
    let fen = pos.to_fen();
    push_text(&mut s, fen.as_str());
    s.push('\n');
    proof {
        assert(diagram_ranks(pos.board@, -1) == Seq::<char>::empty());
        assert(body =~= head + diagram_ranks(pos.board@, 7));
        assert(s@ =~= diagram_text(*pos));
    }
    s
}

/// A promotion written with a piece letter is read as that piece: 'q' a
/// queen, 'r' a rook, 'b' a bishop, 'n' a knight, and with no letter a queen.
pub proof fn lemma_promotion_text_names_the_piece(t: Seq<char>, m: Move)
    requires
        uci_move_matches(t, m),
        m.promo_spec(),
    ensures
        promo_choice(t) == 'q' ==> m.promo_piece_spec() == PieceType::Queen,
        promo_choice(t) == 'r' ==> m.promo_piece_spec() == PieceType::Rook,
        promo_choice(t) == 'b' ==> m.promo_piece_spec() == PieceType::Bishop,
        promo_choice(t) == 'n' ==> m.promo_piece_spec() == PieceType::Knight,
        t.len() == 4 ==> m.promo_piece_spec() == PieceType::Queen,
{
}

} // verus!
