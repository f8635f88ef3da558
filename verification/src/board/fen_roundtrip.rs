use vstd::prelude::*;

use super::fen::{
    board_of, castling_rights_of, castling_text, empty_run, ep_text, fen_clock, fen_ep, fen_fits,
    fen_parses, fen_piece, fen_position, fen_text, in_i32, last_king, piece_letter, placed_at,
    placed_color_at, placement_scan, placements_hash, rank_run, ranks_text,
};
use super::position::{
    board_hash_upto, color_of_index, lemma_board_hash_update, lemma_square_text_roundtrip,
    lemma_xor_facts, piece_of_index, square_text, Color, Piece, PieceType, Position, NO_SQ,
};
use crate::text::{
    decimal, is_ws, lemma_decimal_parses, lemma_words_append, lemma_words_single, no_ws, words,
};

verus! {

/// What the placement scan keeps: square, placements, on-board flag, valid flag.
pub type ScanState = (int, Seq<(int, Piece)>, bool, bool);

/// One character of the placement scan.
pub open spec fn scan_step(st: ScanState, c: char) -> ScanState {
    let sq = st.0;
    if !st.3 {
        st
    } else if c == '/' {
        (sq - 16, st.1, st.2 && in_i32(sq - 16), true)
    } else if '1' <= c && c <= '8' {
        (sq + (c as int - 48), st.1, st.2 && in_i32(sq + (c as int - 48)), true)
    } else if fen_piece(c) is Some {
        (sq + 1, st.1.push((sq, fen_piece(c)->0)), st.2 && 0 <= sq < 64, true)
    } else {
        (sq, st.1, st.2, false)
    }
}

/// The scan of `t` started from state `st`.
pub open spec fn scan_on(st: ScanState, t: Seq<char>) -> ScanState
    decreases t.len(),
{
    if t.len() == 0 {
        st
    } else {
        scan_step(scan_on(st, t.drop_last()), t.last())
    }
}

proof fn lemma_scan_concat(t1: Seq<char>, t2: Seq<char>)
    ensures
        placement_scan(t1 + t2) == scan_on(placement_scan(t1), t2),
    decreases t2.len(),
{
    if t2.len() == 0 {
        assert(t1 + t2 =~= t1);
    } else {
        lemma_scan_concat(t1, t2.drop_last());
        assert((t1 + t2).drop_last() =~= t1 + t2.drop_last());
        assert((t1 + t2).last() == t2.last());
    }
}

proof fn lemma_scan_on_concat(st: ScanState, a: Seq<char>, b: Seq<char>)
    ensures
        scan_on(st, a + b) == scan_on(scan_on(st, a), b),
    decreases b.len(),
{
    if b.len() == 0 {
        assert(a + b =~= a);
    } else {
        lemma_scan_on_concat(st, a, b.drop_last());
        assert((a + b).drop_last() =~= a + b.drop_last());
        assert((a + b).last() == b.last());
    }
}

proof fn lemma_scan_on_one(st: ScanState, c: char)
    ensures
        scan_on(st, seq![c]) == scan_step(st, c),
{
    let t = seq![c];
    assert(t.drop_last() =~= Seq::<char>::empty());
    assert(scan_on(st, t.drop_last()) == st);
    assert(t.last() == c);
}

/// Squares already scanned while at `cur` on rank `r`: the ranks above and
/// the files of rank `r` before `cur`.
pub open spec fn scanned(r: int, cur: int, s: int) -> bool {
    (8 * r <= s < cur) || (8 * r + 8 <= s < 64)
}

/// The placements cover exactly the pieces of `b` on the scanned squares,
/// each square once.
pub open spec fn covers(ps: Seq<(int, Piece)>, b: Seq<Option<Piece>>, r: int, cur: int) -> bool {
    &&& forall|k: int|
        0 <= k < ps.len() ==> scanned(r, cur, (#[trigger] ps[k]).0) && b[ps[k].0] == Some(ps[k].1)
    &&& forall|k1: int, k2: int|
        0 <= k1 < k2 < ps.len() ==> (#[trigger] ps[k1]).0 != (#[trigger] ps[k2]).0
    &&& forall|s: int|
        scanned(r, cur, s) && (#[trigger] b[s]) is Some ==> exists|k: int|
            0 <= k < ps.len() && (#[trigger] ps[k]).0 == s
}

proof fn lemma_letter_piece(p: Piece)
    ensures
        fen_piece(piece_letter(p)) == Some(p),
        piece_letter(p) != '/',
        !('1' <= piece_letter(p) && piece_letter(p) <= '8'),
{
}

/// Scanning the rest of rank `r` from file `f`, with `e` empty squares
/// pending, ends at the next rank's start with the rank covered.
proof fn lemma_rank_scan(b: Seq<Option<Piece>>, r: int, f: int, e: int, st: ScanState)
    requires
        b.len() == 64,
        0 <= r < 8,
        0 <= e <= f <= 8,
        st.0 == 8 * r + f - e,
        st.2,
        st.3,
        covers(st.1, b, r, st.0),
        forall|g: int| f - e <= g < f ==> (#[trigger] b[8 * r + g]) is None,
    ensures
        ({
            let st2 = scan_on(st, rank_run(b, r, f, e));
            &&& st2.0 == 8 * r + 8
            &&& st2.2
            &&& st2.3
            &&& covers(st2.1, b, r, 8 * r + 8)
        }),
    decreases 8 - f,
{
    let cur = 8 * r + f;
    if e > 0 {
        // After the digit for the pending empty squares the scan stands at `cur`.
        let c = (48 + e) as char;
        assert(empty_run(e) == seq![c]);
        lemma_scan_on_one(st, c);
        assert(c as int == 48 + e);
        let st1 = scan_step(st, c);
        assert(st1.0 == cur);
        assert(covers(st1.1, b, r, cur)) by {
            assert forall|s: int| scanned(r, cur, s) && (#[trigger] b[s]) is Some implies exists|k: int|
                0 <= k < st1.1.len() && (#[trigger] st1.1[k]).0 == s by {
                if st.0 <= s < cur {
                    assert(b[8 * r + (s - 8 * r)] is None);
                } else {
                    assert(scanned(r, st.0, s));
                }
            }
        }
    }
    let ghost st1 = scan_on(st, empty_run(e));
    assert(st1.0 == cur && st1.2 && st1.3 && covers(st1.1, b, r, cur)) by {
        if e == 0 {
            assert(empty_run(e) =~= Seq::<char>::empty());
        }
    }
    if f >= 8 {
        assert(rank_run(b, r, f, e) == empty_run(e));
    } else if b[cur] is Some {
        let pc = b[cur]->0;
        let letter = piece_letter(pc);
        lemma_letter_piece(pc);
        let rest = rank_run(b, r, f + 1, 0);
        assert(rank_run(b, r, f, e) == empty_run(e) + seq![letter] + rest);
        lemma_scan_on_concat(st, empty_run(e) + seq![letter], rest);
        lemma_scan_on_concat(st, empty_run(e), seq![letter]);
        lemma_scan_on_one(st1, letter);
        let st2 = scan_step(st1, letter);
        assert(st2.1 == st1.1.push((cur, pc)));
        assert(st2.0 == cur + 1);
        assert(covers(st2.1, b, r, cur + 1)) by {
            let ps = st2.1;
            assert forall|k: int| 0 <= k < ps.len() implies scanned(r, cur + 1, (#[trigger] ps[k]).0)
                && b[ps[k].0] == Some(ps[k].1) by {
                if k < st1.1.len() {
                    assert(ps[k] == st1.1[k]);
                }
            }
            assert forall|k1: int, k2: int| 0 <= k1 < k2 < ps.len() implies (#[trigger] ps[k1]).0
                != (#[trigger] ps[k2]).0 by {
                assert(ps[k1] == st1.1[k1]);
                if k2 < st1.1.len() {
                    assert(ps[k2] == st1.1[k2]);
                } else {
                    assert(scanned(r, cur, st1.1[k1].0));
                }
            }
            assert forall|s: int| scanned(r, cur + 1, s) && (#[trigger] b[s]) is Some implies exists|k: int|
                0 <= k < ps.len() && (#[trigger] ps[k]).0 == s by {
                if s == cur {
                    assert(ps[st1.1.len() as int].0 == s);
                } else {
                    assert(scanned(r, cur, s));
                    let k = choose|k: int| 0 <= k < st1.1.len() && (#[trigger] st1.1[k]).0 == s;
                    assert(ps[k] == st1.1[k]);
                }
            }
        }
        lemma_rank_scan(b, r, f + 1, 0, st2);
    } else {
        assert(rank_run(b, r, f, e) == rank_run(b, r, f + 1, e + 1));
        assert forall|g: int| f + 1 - (e + 1) <= g < f + 1 implies (#[trigger] b[8 * r + g]) is None by {
            if g == f {
                assert(b[cur] is None);
            }
        }
        lemma_rank_scan(b, r, f + 1, e + 1, st);
    }
}

/// Scanning ranks `r` down to 1 from the start of rank `r` covers the whole
/// board.
proof fn lemma_ranks_scan(b: Seq<Option<Piece>>, r: int, st: ScanState)
    requires
        b.len() == 64,
        0 <= r < 8,
        st.0 == 8 * r,
        st.2,
        st.3,
        covers(st.1, b, r, 8 * r),
    ensures
        ({
            let st2 = scan_on(st, ranks_text(b, r));
            &&& st2.2
            &&& st2.3
            &&& covers(st2.1, b, 0, 8)
        }),
    decreases r,
{
    lemma_rank_scan(b, r, 0, 0, st);
    let st1 = scan_on(st, rank_run(b, r, 0, 0));
    if r > 0 {
        let rest = ranks_text(b, r - 1);
        assert(ranks_text(b, r) == rank_run(b, r, 0, 0) + seq!['/'] + rest);
        lemma_scan_on_concat(st, rank_run(b, r, 0, 0) + seq!['/'], rest);
        lemma_scan_on_concat(st, rank_run(b, r, 0, 0), seq!['/']);
        lemma_scan_on_one(st1, '/');
        let st2 = scan_step(st1, '/');
        assert(st2.0 == 8 * (r - 1));
        assert(covers(st2.1, b, r - 1, 8 * (r - 1))) by {
            assert forall|s: int| #[trigger] scanned(r, 8 * r + 8, s) == scanned(r - 1, 8 * (r - 1), s) by {}
        }
        lemma_ranks_scan(b, r - 1, st2);
    }
}

/// The placements read back from the FEN text of a board cover that board.
pub proof fn lemma_placement_of_text(b: Seq<Option<Piece>>)
    requires
        b.len() == 64,
    ensures
        placement_scan(ranks_text(b, 7)).2,
        placement_scan(ranks_text(b, 7)).3,
        covers(placement_scan(ranks_text(b, 7)).1, b, 0, 8),
{
    let e = Seq::<char>::empty();
    assert(placement_scan(e) == (56int, Seq::<(int, Piece)>::empty(), true, true));
    lemma_scan_concat(e, ranks_text(b, 7));
    assert(e + ranks_text(b, 7) =~= ranks_text(b, 7));
    lemma_ranks_scan(b, 7, placement_scan(e));
}

/// Every placement on the board, no square twice.
pub open spec fn distinct_on_board(ps: Seq<(int, Piece)>) -> bool {
    &&& forall|k: int| 0 <= k < ps.len() ==> 0 <= (#[trigger] ps[k]).0 < 64
    &&& forall|k1: int, k2: int|
        0 <= k1 < k2 < ps.len() ==> (#[trigger] ps[k1]).0 != (#[trigger] ps[k2]).0
}

proof fn lemma_empty_board_hash(n: int)
    requires
        0 <= n <= 64,
    ensures
        board_hash_upto(Seq::new(64, |i: int| None::<Piece>), n) == 0,
    decreases n,
{
    if n > 0 {
        lemma_empty_board_hash(n - 1);
        lemma_xor_facts(0, 0, 0);
    }
}

/// With no square placed twice, the board holds each placement and nothing
/// else, and the placements' hash is the board's.
proof fn lemma_board_of_distinct(ps: Seq<(int, Piece)>)
    requires
        distinct_on_board(ps),
    ensures
        board_of(ps).len() == 64,
        forall|k: int| 0 <= k < ps.len() ==> board_of(ps)[(#[trigger] ps[k]).0] == Some(ps[k].1),
        forall|s: int|
            0 <= s < 64 && (forall|k: int| 0 <= k < ps.len() ==> (#[trigger] ps[k]).0 != s) ==> (
            #[trigger] board_of(ps)[s]) is None,
        placements_hash(ps) == board_hash_upto(board_of(ps), 64),
    decreases ps.len(),
{
    if ps.len() == 0 {
        lemma_empty_board_hash(64);
    } else {
        let qs = ps.drop_last();
        let x = ps.last();
        assert(distinct_on_board(qs)) by {
            assert forall|k: int| 0 <= k < qs.len() implies 0 <= (#[trigger] qs[k]).0 < 64 by {
                assert(qs[k] == ps[k]);
            }
            assert forall|k1: int, k2: int| 0 <= k1 < k2 < qs.len() implies (#[trigger] qs[k1]).0
                != (#[trigger] qs[k2]).0 by {
                assert(qs[k1] == ps[k1]);
                assert(qs[k2] == ps[k2]);
            }
        }
        lemma_board_of_distinct(qs);
        assert(ps[ps.len() - 1] == x);
        assert forall|k: int| 0 <= k < qs.len() implies (#[trigger] qs[k]).0 != x.0 by {
            assert(qs[k] == ps[k]);
        }
        assert(board_of(qs)[x.0] is None);
        assert forall|k: int| 0 <= k < ps.len() implies board_of(ps)[(#[trigger] ps[k]).0] == Some(
            ps[k].1,
        ) by {
            if k < qs.len() {
                assert(qs[k] == ps[k]);
            }
        }
        assert forall|s: int|
            0 <= s < 64 && (forall|k: int| 0 <= k < ps.len() ==> (#[trigger] ps[k]).0 != s) implies (
            #[trigger] board_of(ps)[s]) is None by {
            assert(ps[ps.len() - 1].0 != s);
            assert forall|k: int| 0 <= k < qs.len() implies (#[trigger] qs[k]).0 != s by {
                assert(qs[k] == ps[k]);
            }
        }
        let h = board_hash_upto(board_of(qs), 64);
        lemma_board_hash_update(board_of(qs), x.0, Some(x.1), 64);
        lemma_xor_facts(h, 0, 0);
    }
}

/// The last king of `color` placed stands on `s` when every such king was
/// placed there and one was.
proof fn lemma_last_king_at(ps: Seq<(int, Piece)>, color: Color, s: int)
    requires
        0 <= s < 64,
        forall|k: int|
            0 <= k < ps.len() && (#[trigger] ps[k]).1 == (Piece { kind: PieceType::King, color })
                ==> ps[k].0 == s,
        exists|k: int| 0 <= k < ps.len() && (#[trigger] ps[k]) == (s, Piece { kind: PieceType::King, color }),
    ensures
        last_king(ps, color) == s as u8,
    decreases ps.len(),
{
    let king = Piece { kind: PieceType::King, color };
    let qs = ps.drop_last();
    let w = choose|k: int| 0 <= k < ps.len() && (#[trigger] ps[k]) == (s, king);
    if ps.last().1 == king {
        assert(ps[ps.len() - 1].0 == s);
    } else {
        assert(w < qs.len());
        assert(qs[w] == ps[w]);
        assert forall|k: int| 0 <= k < qs.len() && (#[trigger] qs[k]).1 == king implies qs[k].0 == s by {
            assert(qs[k] == ps[k]);
        }
        lemma_last_king_at(qs, color, s);
    }
}

/// A character the placement scan accepts.
pub open spec fn placement_char(c: char) -> bool {
    c == '/' || ('1' <= c && c <= '8') || fen_piece(c) is Some
}

/// Text the placement scan accepts is made of placement characters only.
proof fn lemma_scan_valid_chars(t: Seq<char>)
    requires
        placement_scan(t).3,
    ensures
        forall|i: int| 0 <= i < t.len() ==> placement_char(#[trigger] t[i]),
    decreases t.len(),
{
    if t.len() > 0 {
        let u = t.drop_last();
        lemma_scan_valid_chars(u);
        assert forall|i: int| 0 <= i < t.len() implies placement_char(#[trigger] t[i]) by {
            if i < u.len() {
                assert(t[i] == u[i]);
            } else {
                assert(t[i] == t.last());
            }
        }
    }
}

proof fn lemma_placement_chars_no_ws(t: Seq<char>)
    requires
        forall|i: int| 0 <= i < t.len() ==> placement_char(#[trigger] t[i]),
    ensures
        no_ws(t),
{
    assert forall|i: int| 0 <= i < t.len() implies !is_ws(#[trigger] t[i]) by {
        assert(placement_char(t[i]));
    }
}

/// Castling rights read back from their FEN text.
proof fn lemma_castling_text(c: u8)
    requires
        c < 16,
    ensures
        castling_text(c).len() > 0,
        no_ws(castling_text(c)),
        castling_rights_of(castling_text(c)) == c,
{
    let t = castling_text(c);
    if c == 0 {
        assert(t == seq!['-']);
        assert(t.drop_last() =~= Seq::<char>::empty());
        assert(castling_rights_of(t.drop_last()) == 0);
        assert(t.last() == '-');
    } else {
        let a: Seq<char> = if c & 1u8 != 0 { seq!['K'] } else { Seq::empty() };
        let b: Seq<char> = if c & 2u8 != 0 { seq!['Q'] } else { Seq::empty() };
        let d: Seq<char> = if c & 4u8 != 0 { seq!['k'] } else { Seq::empty() };
        let e: Seq<char> = if c & 8u8 != 0 { seq!['q'] } else { Seq::empty() };
        assert(t == a + b + d + e);
        let r1: u8 = if c & 1u8 != 0 { 0u8 | 1u8 } else { 0u8 };
        let r2: u8 = if c & 2u8 != 0 { r1 | 2u8 } else { r1 };
        let r3: u8 = if c & 4u8 != 0 { r2 | 4u8 } else { r2 };
        let r4: u8 = if c & 8u8 != 0 { r3 | 8u8 } else { r3 };
        assert(castling_rights_of(Seq::<char>::empty()) == 0);
        lemma_rights_push(Seq::<char>::empty(), a, 'K', c & 1u8 != 0);
        assert(Seq::<char>::empty() + a =~= a);
        lemma_rights_push(a, b, 'Q', c & 2u8 != 0);
        lemma_rights_push(a + b, d, 'k', c & 4u8 != 0);
        lemma_rights_push(a + b + d, e, 'q', c & 8u8 != 0);
        assert(castling_rights_of(a) == r1);
        assert(castling_rights_of(a + b) == r2);
        assert(castling_rights_of(a + b + d) == r3);
        assert(castling_rights_of(a + b + d + e) == r4);
        assert(r4 == c) by (bit_vector)
            requires
                c < 16,
                r1 == (if c & 1u8 != 0 { 0u8 | 1u8 } else { 0u8 }),
                r2 == (if c & 2u8 != 0 { r1 | 2u8 } else { r1 }),
                r3 == (if c & 4u8 != 0 { r2 | 4u8 } else { r2 }),
                r4 == (if c & 8u8 != 0 { r3 | 8u8 } else { r3 }),
        ;
        assert(c & 1u8 != 0 || c & 2u8 != 0 || c & 4u8 != 0 || c & 8u8 != 0) by (bit_vector)
            requires
                c != 0,
                c < 16,
        ;
        assert forall|i: int| 0 <= i < t.len() implies !is_ws(#[trigger] t[i]) by {
            assert(t[i] == 'K' || t[i] == 'Q' || t[i] == 'k' || t[i] == 'q');
        }
    }
}

proof fn lemma_rights_push(t: Seq<char>, x: Seq<char>, ch: char, present: bool)
    requires
        x == (if present { seq![ch] } else { Seq::<char>::empty() }),
        ch == 'K' || ch == 'Q' || ch == 'k' || ch == 'q',
    ensures
        castling_rights_of(t + x) == (if present {
            let r = castling_rights_of(t);
            if ch == 'K' {
                r | 1u8
            } else if ch == 'Q' {
                r | 2u8
            } else if ch == 'k' {
                r | 4u8
            } else {
                r | 8u8
            }
        } else {
            castling_rights_of(t)
        }),
{
    if present {
        assert((t + x).drop_last() =~= t);
        assert((t + x).last() == ch);
    } else {
        assert(t + x =~= t);
    }
}

/// En-passant square read back from its FEN text.
proof fn lemma_ep_text(ep: u8)
    requires
        ep == NO_SQ || ep < 64,
    ensures
        ep_text(ep).len() > 0,
        no_ws(ep_text(ep)),
        fen_ep(ep_text(ep)) == ep,
{
    let t = ep_text(ep);
    if ep != NO_SQ {
        lemma_square_text_roundtrip(ep);
        assert(t == square_text(ep as int));
        assert(t.len() == 2);
        assert(t != seq!['-']);
        assert(!is_ws(t[0]) && !is_ws(t[1])) by {
            assert('a' <= t[0] <= 'h' && '1' <= t[1] <= '8');
        }
        assert forall|i: int| 0 <= i < t.len() implies !is_ws(#[trigger] t[i]) by {
            assert(i == 0 || i == 1);
        }
    }
}

/// Reading the FEN text of any position (castling bits within the four rights,
/// en-passant square on the board or none) gives back its board, side to
/// move, castling rights, en-passant square and clocks, so writing the result
/// gives the same text: on every canonical FEN text (the texts `to_fen` writes),
/// `from_fen` followed by `to_fen` is the identity.
pub proof fn lemma_fen_text_reads_back(p: Position, q: Position)
    requires
        p.castling < 16,
        p.ep_sq == NO_SQ || p.ep_sq < 64,
        fen_position(fen_text(p), q),
    ensures
        fen_parses(fen_text(p)),
        fen_fits(fen_text(p)),
        q.board@ == p.board@,
        q.side == p.side,
        q.castling == p.castling,
        q.ep_sq == p.ep_sq,
        q.halfmove_clock == p.halfmove_clock,
        q.fullmove == p.fullmove,
        fen_text(q) == fen_text(p),
        words(fen_text(p))[0] == ranks_text(p.board@, 7),
{
    let b = p.board@;
    let rt = ranks_text(b, 7);
    let sc = if p.side == Color::White { 'w' } else { 'b' };
    let ct = castling_text(p.castling);
    let et = ep_text(p.ep_sq);
    let h = decimal(p.halfmove_clock as nat);
    let f = decimal(p.fullmove as nat);
    // The placement field.
    lemma_placement_of_text(b);
    let ps = placement_scan(rt).1;
    lemma_scan_valid_chars(rt);
    lemma_placement_chars_no_ws(rt);
    assert(rt.len() > 0) by {
        assert(rt == rank_run(b, 7, 0, 0) + seq!['/'] + ranks_text(b, 6));
    }
    // The six fields.
    lemma_castling_text(p.castling);
    lemma_ep_text(p.ep_sq);
    lemma_decimal_parses(p.halfmove_clock as nat, u32::MAX as int);
    lemma_decimal_parses(p.fullmove as nat, u32::MAX as int);
    assert(no_ws(seq![sc]));
    lemma_words_single(rt);
    lemma_words_append(rt, seq![sc]);
    lemma_words_append(rt + seq![' '] + seq![sc], ct);
    lemma_words_append(rt + seq![' '] + seq![sc] + seq![' '] + ct, et);
    lemma_words_append(rt + seq![' '] + seq![sc] + seq![' '] + ct + seq![' '] + et, h);
    lemma_words_append(
        rt + seq![' '] + seq![sc] + seq![' '] + ct + seq![' '] + et + seq![' '] + h,
        f,
    );
    assert(fen_text(p) =~= rt + seq![' '] + seq![sc] + seq![' '] + ct + seq![' '] + et + seq![' ']
        + h + seq![' '] + f);
    let parts = words(fen_text(p));
    assert(parts =~= seq![rt, seq![sc], ct, et, h, f]);
    assert(fen_clock(parts, 4, 0) == p.halfmove_clock);
    assert(fen_clock(parts, 5, 1) == p.fullmove);
    // The pieces.
    assert(distinct_on_board(ps));
    lemma_board_of_distinct(ps);
    assert(board_of(ps) =~= b) by {
        assert forall|s: int| 0 <= s < 64 implies #[trigger] board_of(ps)[s] == b[s] by {
            assert(scanned(0, 8, s));
            if b[s] is Some {
                let k = choose|k: int| 0 <= k < ps.len() && (#[trigger] ps[k]).0 == s;
                assert(board_of(ps)[ps[k].0] == Some(ps[k].1));
            } else {
                assert forall|k: int| 0 <= k < ps.len() implies (#[trigger] ps[k]).0 != s by {
                    assert(b[ps[k].0] == Some(ps[k].1));
                }
            }
        }
    }
}

/// Reading back the FEN text of a well-formed position (with no castling bits
/// beyond the four rights) gives that position: `from_fen` accepts what
/// `to_fen` writes and rebuilds the same board, bitboards, side to move,
/// castling rights, en-passant square, clocks, king squares and hash.
pub proof fn lemma_fen_roundtrip(p: Position, q: Position)
    requires
        p.wf(),
        p.castling < 16,
        fen_position(fen_text(p), q),
    ensures
        fen_parses(fen_text(p)),
        fen_fits(fen_text(p)),
        q.board@ == p.board@,
        forall|i: int, sq: int|
            0 <= i < 12 ==> (#[trigger] q.pieces@[i].has(sq) <==> p.pieces@[i].has(sq)),
        forall|c: int, sq: int|
            0 <= c < 2 ==> (#[trigger] q.occupancy@[c].has(sq) <==> p.occupancy@[c].has(sq)),
        q.side == p.side,
        q.castling == p.castling,
        q.ep_sq == p.ep_sq,
        q.halfmove_clock == p.halfmove_clock,
        q.fullmove == p.fullmove,
        q.king_sq@ == p.king_sq@,
        q.hash == p.hash,
{
    lemma_fen_text_reads_back(p, q);
    let b = p.board@;
    let rt = ranks_text(b, 7);
    lemma_placement_of_text(b);
    let ps = placement_scan(rt).1;
    assert(distinct_on_board(ps));
    lemma_board_of_distinct(ps);
    assert forall|sq: int, pc: Piece| 0 <= sq < 64 implies #[trigger] placed_at(ps, sq, pc) == (b[sq]
        == Some(pc)) by {
        assert(scanned(0, 8, sq));
        if placed_at(ps, sq, pc) {
            let k = choose|k: int| 0 <= k < ps.len() && #[trigger] ps[k] == (sq, pc);
            assert(b[ps[k].0] == Some(ps[k].1));
        }
        if b[sq] == Some(pc) {
            let k = choose|k: int| 0 <= k < ps.len() && (#[trigger] ps[k]).0 == sq;
            assert(b[ps[k].0] == Some(ps[k].1));
            assert(ps[k] == (sq, pc));
        }
    }
    assert forall|i: int, sq: int| 0 <= i < 12 implies (#[trigger] q.pieces@[i].has(sq)
        <==> p.pieces@[i].has(sq)) by {
        if 0 <= sq < 64 {
            assert(placed_at(ps, sq, piece_of_index(i)) == (b[sq] == Some(piece_of_index(i))));
        } else if placed_at(ps, sq, piece_of_index(i)) {
            let k = choose|k: int| 0 <= k < ps.len() && #[trigger] ps[k] == (sq, piece_of_index(i));
            assert(0 <= ps[k].0 < 64);
        }
    }
    assert forall|c: int, sq: int| 0 <= c < 2 implies (#[trigger] q.occupancy@[c].has(sq)
        <==> p.occupancy@[c].has(sq)) by {
        if placed_color_at(ps, sq, color_of_index(c)) {
            let k = choose|k: int|
                0 <= k < ps.len() && (#[trigger] ps[k]).0 == sq && ps[k].1.color == color_of_index(c);
            assert(0 <= ps[k].0 < 64);
            assert(b[ps[k].0] == Some(ps[k].1));
        }
        if 0 <= sq < 64 && b[sq] is Some && b[sq]->0.color.idx() == c {
            assert(scanned(0, 8, sq));
            let k = choose|k: int| 0 <= k < ps.len() && (#[trigger] ps[k]).0 == sq;
            assert(b[ps[k].0] == Some(ps[k].1));
        }
    }
    // The kings.
    assert forall|c: int| 0 <= c < 2 implies last_king(ps, color_of_index(c)) == #[trigger] p.king_sq@[c] by {
        let s = p.king_sq@[c] as int;
        let king = Piece { kind: PieceType::King, color: color_of_index(c) };
        assert(b[s] == Some(king));
        assert(scanned(0, 8, s));
        let w = choose|k: int| 0 <= k < ps.len() && (#[trigger] ps[k]).0 == s;
        assert(b[ps[w].0] == Some(ps[w].1));
        assert(ps[w] == (s, king));
        assert forall|k: int| 0 <= k < ps.len() && (#[trigger] ps[k]).1 == king implies ps[k].0 == s by {
            assert(b[ps[k].0] == Some(ps[k].1));
        }
        lemma_last_king_at(ps, color_of_index(c), s);
    }
    assert(p.king_sq@[0] == last_king(ps, Color::White));
    assert(p.king_sq@[1] == last_king(ps, Color::Black));
    assert(q.king_sq@ =~= p.king_sq@);
}

} // verus!
