use vstd::prelude::*;

use super::bitboard::{lemma_zero_iff_no_bits, Bitboard};
use super::position::{
    color_of_index, ep_hash, lemma_piece_index_roundtrip, lemma_xor_facts, piece_of_index,
    side_hash, square_key, square_of_text, square_text, str_to_sq, uci_text, Color, Move, Piece, PieceType,
    Position, NO_SQ,
};
use super::zobrist::castling_hash;
use super::zobrist;
use crate::text::{chars_of, decimal, is_word, parse_decimal, parse_unsigned, push_text, split_words, words};

verus! {

/// The piece a FEN letter stands for.
pub open spec fn fen_piece(c: char) -> Option<Piece> {
    if c == 'P' {
        Some(Piece { kind: PieceType::Pawn, color: Color::White })
    } else if c == 'N' {
        Some(Piece { kind: PieceType::Knight, color: Color::White })
    } else if c == 'B' {
        Some(Piece { kind: PieceType::Bishop, color: Color::White })
    } else if c == 'R' {
        Some(Piece { kind: PieceType::Rook, color: Color::White })
    } else if c == 'Q' {
        Some(Piece { kind: PieceType::Queen, color: Color::White })
    } else if c == 'K' {
        Some(Piece { kind: PieceType::King, color: Color::White })
    } else if c == 'p' {
        Some(Piece { kind: PieceType::Pawn, color: Color::Black })
    } else if c == 'n' {
        Some(Piece { kind: PieceType::Knight, color: Color::Black })
    } else if c == 'b' {
        Some(Piece { kind: PieceType::Bishop, color: Color::Black })
    } else if c == 'r' {
        Some(Piece { kind: PieceType::Rook, color: Color::Black })
    } else if c == 'q' {
        Some(Piece { kind: PieceType::Queen, color: Color::Black })
    } else if c == 'k' {
        Some(Piece { kind: PieceType::King, color: Color::Black })
    } else {
        None
    }
}

fn piece_of_letter(c: char) -> (r: Option<Piece>)
    ensures
        r == fen_piece(c),
{
    let (kind, color) = match c {
        'P' => (PieceType::Pawn, Color::White),
        'N' => (PieceType::Knight, Color::White),
        'B' => (PieceType::Bishop, Color::White),
        'R' => (PieceType::Rook, Color::White),
        'Q' => (PieceType::Queen, Color::White),
        'K' => (PieceType::King, Color::White),
        'p' => (PieceType::Pawn, Color::Black),
        'n' => (PieceType::Knight, Color::Black),
        'b' => (PieceType::Bishop, Color::Black),
        'r' => (PieceType::Rook, Color::Black),
        'q' => (PieceType::Queen, Color::Black),
        'k' => (PieceType::King, Color::Black),
        _ => return None,
    };
    Some(Piece::new(kind, color))
}

pub open spec fn in_i32(x: int) -> bool {
    i32::MIN <= x <= i32::MAX
}

/// Scan of a FEN piece-placement field, one character at a time from a8:
/// (square reached, the placements made in order as (square, piece), whether
/// every placement landed on the board and the square stayed within `i32`,
/// whether every character so far was valid). The scan stops changing at the
/// first invalid character.
pub open spec fn placement_scan(t: Seq<char>) -> (int, Seq<(int, Piece)>, bool, bool)
    decreases t.len(),
{
    if t.len() == 0 {
        (56, Seq::empty(), true, true)
    } else {
        let st = placement_scan(t.drop_last());
        let c = t.last();
        let sq = st.0;
        if !st.3 {
            st
        } else if c == '/' {
            (sq - 16, st.1, st.2 && in_i32(sq - 16), true)
        } else if '1' <= c && c <= '8' {
            (sq + (c as int - 48), st.1, st.2 && in_i32(sq + (c as int - 48)), true)
        } else if fen_piece(c) is Some {
            (sq + 1, st.1.push((sq, fen_piece(c)->0)), st.2 && 0 <= sq < 64, true)
        } else {
            (sq, st.1, st.2, false)
        }
    }
}

/// The board after the placements, each overwriting its square.
pub open spec fn board_of(ps: Seq<(int, Piece)>) -> Seq<Option<Piece>>
    decreases ps.len(),
{
    if ps.len() == 0 {
        Seq::new(64, |i: int| None)
    } else {
        board_of(ps.drop_last()).update(ps.last().0, Some(ps.last().1))
    }
}

/// Some placement put `piece` on `sq`.
pub open spec fn placed_at(ps: Seq<(int, Piece)>, sq: int, piece: Piece) -> bool {
    exists|k: int| 0 <= k < ps.len() && #[trigger] ps[k] == (sq, piece)
}

/// Some placement put a piece of `color` on `sq`.
pub open spec fn placed_color_at(ps: Seq<(int, Piece)>, sq: int, color: Color) -> bool {
    exists|k: int| 0 <= k < ps.len() && (#[trigger] ps[k]).0 == sq && ps[k].1.color == color
}

/// XOR of the keys of all placements.
pub open spec fn placements_hash(ps: Seq<(int, Piece)>) -> u64
    decreases ps.len(),
{
    if ps.len() == 0 {
        0u64
    } else {
        placements_hash(ps.drop_last()) ^ square_key(Some(ps.last().1), ps.last().0)
    }
}

/// Square of the last king of `color` placed (255 if none).
pub open spec fn last_king(ps: Seq<(int, Piece)>, color: Color) -> u8
    decreases ps.len(),
{
    if ps.len() == 0 {
        255u8
    } else if ps.last().1 == (Piece { kind: PieceType::King, color }) {
        ps.last().0 as u8
    } else {
        last_king(ps.drop_last(), color)
    }
}

/// Castling rights named in a FEN castling field ('K', 'Q', 'k', 'q'; other
/// characters are ignored).
pub open spec fn castling_rights_of(t: Seq<char>) -> u8
    decreases t.len(),
{
    if t.len() == 0 {
        0u8
    } else {
        let r = castling_rights_of(t.drop_last());
        let c = t.last();
        if c == 'K' {
            r | 1u8
        } else if c == 'Q' {
            r | 2u8
        } else if c == 'k' {
            r | 4u8
        } else if c == 'q' {
            r | 8u8
        } else {
            r
        }
    }
}

/// En-passant square named by a FEN field ("-" or anything unreadable: none).
pub open spec fn fen_ep(t: Seq<char>) -> u8 {
    if t == seq!['-'] {
        NO_SQ
    } else {
        match square_of_text(t) {
            Some(s) => s,
            None => NO_SQ,
        }
    }
}

/// A FEN clock field: its number, or `default` when missing or unreadable.
pub open spec fn fen_clock(parts: Seq<Seq<char>>, i: int, default: u32) -> u32 {
    if parts.len() > i {
        match parse_unsigned(parts[i], u32::MAX as int) {
            Some(v) => v as u32,
            None => default,
        }
    } else {
        default
    }
}

/// `from_fen` accepts the text: at least four fields and a piece placement of
/// valid characters.
pub open spec fn fen_parses(fen: Seq<char>) -> bool {
    let parts = words(fen);
    parts.len() >= 4 && placement_scan(parts[0]).3
}

/// The placement of a FEN with at least four fields keeps to the board.
pub open spec fn fen_fits(fen: Seq<char>) -> bool {
    let parts = words(fen);
    parts.len() >= 4 ==> placement_scan(parts[0]).2
}

/// `p` is the position that `from_fen` builds from `fen`.
pub open spec fn fen_position(fen: Seq<char>, p: Position) -> bool {
    let parts = words(fen);
    let ps = placement_scan(parts[0]).1;
    &&& p.board@ == board_of(ps)
    &&& forall|i: int, sq: int|
        0 <= i < 12 ==> (#[trigger] p.pieces@[i].has(sq) <==> placed_at(ps, sq, piece_of_index(i)))
    &&& forall|c: int, sq: int|
        0 <= c < 2 ==> (#[trigger] p.occupancy@[c].has(sq) <==> placed_color_at(
            ps,
            sq,
            color_of_index(c),
        ))
    &&& p.side == (if parts[1] == seq!['b'] { Color::Black } else { Color::White })
    &&& p.castling == castling_rights_of(parts[2])
    &&& p.ep_sq == fen_ep(parts[3])
    &&& p.halfmove_clock == fen_clock(parts, 4, 0)
    &&& p.fullmove == fen_clock(parts, 5, 1)
    &&& p.king_sq@ == seq![last_king(ps, Color::White), last_king(ps, Color::Black)]
    &&& p.hash == placements_hash(ps) ^ side_hash(p.side) ^ castling_hash(p.castling) ^ ep_hash(
        p.ep_sq,
    )
}

proof fn lemma_scan_prefix(t: Seq<char>, j: int)
    requires
        0 <= j <= t.len(),
        placement_scan(t).2,
    ensures
        placement_scan(t.take(j)).2,
    decreases t.len() - j,
{
    if j < t.len() {
        let u = t.drop_last();
        assert(u.take(j) =~= t.take(j));
        lemma_scan_prefix(u, j);
    } else {
        assert(t.take(j) =~= t);
    }
}

/// An empty board: no pieces, White to move, no rights, clocks 0 and 1.
fn empty_position() -> (p: Position)
    ensures
        p.board@ == Seq::new(64, |i: int| None::<Piece>),
        forall|i: int, sq: int| 0 <= i < 12 ==> !#[trigger] p.pieces@[i].has(sq),
        forall|c: int, sq: int| 0 <= c < 2 ==> !#[trigger] p.occupancy@[c].has(sq),
        p.side == Color::White,
        p.castling == 0,
        p.ep_sq == NO_SQ,
        p.halfmove_clock == 0,
        p.fullmove == 1,
        p.hash == 0,
        p.king_sq@ == seq![255u8, 255u8],
{
    let p = Position {
        pieces: [Bitboard(0); 12],
        occupancy: [Bitboard(0); 2],
        side: Color::White,
        castling: 0,
        ep_sq: NO_SQ,
        halfmove_clock: 0,
        fullmove: 1,
        hash: 0,
        king_sq: [255; 2],
        board: [None; 64],
    };
    proof {
        lemma_zero_iff_no_bits(0);
        assert(p.board@ =~= Seq::new(64, |i: int| None::<Piece>));
        assert(p.king_sq@ =~= seq![255u8, 255u8]);
    }
    p
}

proof fn lemma_placed_push(ps: Seq<(int, Piece)>, x: (int, Piece))
    ensures
        forall|sq: int, piece: Piece|
            #[trigger] placed_at(ps.push(x), sq, piece) <==> (placed_at(ps, sq, piece) || x == (sq, piece)),
        forall|sq: int, c: Color|
            #[trigger] placed_color_at(ps.push(x), sq, c) <==> (placed_color_at(ps, sq, c) || (x.0 == sq
                && x.1.color == c)),
{
    let qs = ps.push(x);
    assert forall|sq: int, piece: Piece| #[trigger] placed_at(qs, sq, piece) <==> (placed_at(ps, sq, piece)
        || x == (sq, piece)) by {
        if placed_at(ps, sq, piece) {
            let k = choose|k: int| 0 <= k < ps.len() && ps[k] == (sq, piece);
            assert(qs[k] == ps[k]);
        }
        if x == (sq, piece) {
            assert(qs[ps.len() as int] == x);
        }
        if placed_at(qs, sq, piece) {
            let k = choose|k: int| 0 <= k < qs.len() && qs[k] == (sq, piece);
            if k < ps.len() {
                assert(ps[k] == qs[k]);
            }
        }
    }
    assert forall|sq: int, c: Color| #[trigger] placed_color_at(qs, sq, c) <==> (placed_color_at(ps, sq, c)
        || (x.0 == sq && x.1.color == c)) by {
        if placed_color_at(ps, sq, c) {
            let k = choose|k: int| 0 <= k < ps.len() && ps[k].0 == sq && ps[k].1.color == c;
            assert(qs[k] == ps[k]);
        }
        if x.0 == sq && x.1.color == c {
            assert(qs[ps.len() as int] == x);
        }
        if placed_color_at(qs, sq, c) {
            let k = choose|k: int| 0 <= k < qs.len() && qs[k].0 == sq && qs[k].1.color == c;
            if k < ps.len() {
                assert(ps[k] == qs[k]);
            }
        }
    }
}

/// Places the pieces of a FEN placement field on an empty position. Returns
/// false at the first invalid character.
fn place_pieces(t: &Vec<char>, pos: &mut Position) -> (ok: bool)
    requires
        placement_scan(t@).2,
        old(pos).board@ == Seq::new(64, |i: int| None::<Piece>),
        forall|i: int, sq: int| 0 <= i < 12 ==> !#[trigger] old(pos).pieces@[i].has(sq),
        forall|c: int, sq: int| 0 <= c < 2 ==> !#[trigger] old(pos).occupancy@[c].has(sq),
        old(pos).hash == 0,
        old(pos).king_sq@ == seq![255u8, 255u8],
    ensures
        ok == placement_scan(t@).3,
        ok ==> ({
            let ps = placement_scan(t@).1;
            &&& final(pos).board@ == board_of(ps)
            &&& forall|i: int, sq: int|
                0 <= i < 12 ==> (#[trigger] final(pos).pieces@[i].has(sq) <==> placed_at(
                    ps,
                    sq,
                    piece_of_index(i),
                ))
            &&& forall|c: int, sq: int|
                0 <= c < 2 ==> (#[trigger] final(pos).occupancy@[c].has(sq) <==> placed_color_at(
                    ps,
                    sq,
                    color_of_index(c),
                ))
            &&& final(pos).hash == placements_hash(ps)
            &&& final(pos).king_sq@ == seq![last_king(ps, Color::White), last_king(ps, Color::Black)]
        }),
        final(pos).side == old(pos).side,
        final(pos).castling == old(pos).castling,
        final(pos).ep_sq == old(pos).ep_sq,
        final(pos).halfmove_clock == old(pos).halfmove_clock,
        final(pos).fullmove == old(pos).fullmove,
{
    let mut sq: i32 = 56;
    let mut j: usize = 0;
    proof {
        assert(t@.take(0) =~= Seq::<char>::empty());
    }
    while j < t.len()
        invariant
            j <= t@.len(),
            placement_scan(t@).2,
            ({
                let st = placement_scan(t@.take(j as int));
                &&& st.0 == sq
                &&& st.2
                &&& st.3
                &&& pos.board@ == board_of(st.1)
                &&& forall|i: int, s: int|
                    0 <= i < 12 ==> (#[trigger] pos.pieces@[i].has(s) <==> placed_at(
                        st.1,
                        s,
                        piece_of_index(i),
                    ))
                &&& forall|c: int, s: int|
                    0 <= c < 2 ==> (#[trigger] pos.occupancy@[c].has(s) <==> placed_color_at(
                        st.1,
                        s,
                        color_of_index(c),
                    ))
                &&& pos.hash == placements_hash(st.1)
                &&& pos.king_sq@ == seq![last_king(st.1, Color::White), last_king(st.1, Color::Black)]
            }),
            pos.side == old(pos).side,
            pos.castling == old(pos).castling,
            pos.ep_sq == old(pos).ep_sq,
            pos.halfmove_clock == old(pos).halfmove_clock,
            pos.fullmove == old(pos).fullmove,
        decreases t@.len() - j,
    {
        let ch = t[j];
        let ghost st = placement_scan(t@.take(j as int));
        let ghost next = t@.take(j + 1);
        proof {
            assert(next.drop_last() =~= t@.take(j as int));
            assert(next.last() == ch);
            lemma_scan_prefix(t@, j + 1);
        }
        if ch == '/' {
            sq = sq - 16;
        } else if '1' <= ch && ch <= '8' {
            sq = sq + (ch as u32 - 48) as i32;
        } else {
            match piece_of_letter(ch) {
                None => {
                    proof {
                        assert(!placement_scan(next).3);
                        assert forall|k: int| j + 1 <= k <= t@.len() implies !placement_scan(
                            #[trigger] t@.take(k),
                        ).3 by {
                            lemma_scan_stuck(t@, j + 1, k);
                        }
                        assert(t@.take(t@.len() as int) =~= t@);
                    }
                    return false;
                },
                Some(piece) => {
                    let s = sq as u8;
                    let idx = piece.bb_index();
                    let c = piece.color.index();
                    let mut b = pos.pieces[idx];
                    b.set(s);
                    pos.pieces[idx] = b;
                    let mut o = pos.occupancy[c];
                    o.set(s);
                    pos.occupancy[c] = o;
                    pos.board[s as usize] = Some(piece);
                    pos.hash = pos.hash ^ zobrist::piece_key(idx, s);
                    if piece.kind == PieceType::King {
                        pos.king_sq[c] = s;
                    }
                    sq = sq + 1;
                    proof {
                        lemma_piece_index_roundtrip(piece);
                        let ps2 = st.1.push((s as int, piece));
                        lemma_placed_push(st.1, (s as int, piece));
                        assert(ps2.drop_last() =~= st.1);
                        assert(pos.board@ =~= board_of(ps2));
                        assert forall|i: int, x: int|
                            0 <= i < 12 implies (#[trigger] pos.pieces@[i].has(x) <==> placed_at(
                            ps2,
                            x,
                            piece_of_index(i),
                        )) by {
                            assert(piece_of_index(i) == piece <==> i == piece.idx());
                        }
                        assert(pos.king_sq@ =~= seq![last_king(ps2, Color::White), last_king(ps2, Color::Black)]);
                    }
                },
            }
        }
        j += 1;
    }
    proof {
        assert(t@.take(t@.len() as int) =~= t@);
    }
    true
}

proof fn lemma_scan_stuck(t: Seq<char>, j: int, k: int)
    requires
        0 <= j <= k <= t.len(),
        !placement_scan(t.take(j)).3,
    ensures
        placement_scan(t.take(k)) == placement_scan(t.take(j)),
    decreases k - j,
{
    if k > j {
        lemma_scan_stuck(t, j, k - 1);
        assert(t.take(k).drop_last() =~= t.take(k - 1));
    }
}

/// Castling rights from a FEN castling field.
fn castling_field(t: &Vec<char>) -> (r: u8)
    ensures
        r == castling_rights_of(t@),
{
    let mut r: u8 = 0;
    let mut j: usize = 0;
    while j < t.len()
        invariant
            j <= t@.len(),
            r == castling_rights_of(t@.take(j as int)),
        decreases t@.len() - j,
    {
        let ch = t[j];
        proof {
            assert(t@.take(j + 1).drop_last() =~= t@.take(j as int));
        }
        if ch == 'K' {
            r = r | 1;
        } else if ch == 'Q' {
            r = r | 2;
        } else if ch == 'k' {
            r = r | 4;
        } else if ch == 'q' {
            r = r | 8;
        }
        j += 1;
    }
    proof {
        assert(t@.take(t@.len() as int) =~= t@);
    }
    r
}

/// The square named at the start of `t`, as `str_to_sq` reads it.
fn square_field(t: &Vec<char>) -> (r: Option<u8>)
    ensures
        r == square_of_text(t@),
{
    if t.len() < 2 {
        return None;
    }
    let f = t[0];
    let r = t[1];
    if 'a' <= f && f <= 'h' && '1' <= r && r <= '8' {
        let file = (f as u32 - 97) as u8;
        let rank = (r as u32 - 49) as u8;
        Some(rank * 8 + file)
    } else {
        None
    }
}

impl Position {
    /// Whether the piece placement of `fen` keeps to the board, so that
    /// `from_fen` may be called on it.
    pub fn fen_fits_board(fen: &str) -> (r: bool)
        ensures
            r == fen_fits(fen@),
    {
        let chars = chars_of(fen);
        let parts = split_words(&chars);
        if parts.len() < 4 {
            return true;
        }
        let t = &parts[0];
        let mut sq: i64 = 56;
        let mut j: usize = 0;
        proof {
            assert(t@.take(0) =~= Seq::<char>::empty());
        }
        while j < t.len()
            invariant
                j <= t@.len(),
                t@ == words(fen@)[0],
                words(fen@).len() >= 4,
                -0x1_0000_0000 <= sq <= 0x1_0000_0000,
                ({
                    let st = placement_scan(t@.take(j as int));
                    &&& st.0 == sq
                    &&& st.2
                    &&& st.3
                }),
            decreases t@.len() - j,
        {
            let ch = t[j];
            proof {
                assert(t@.take(j + 1).drop_last() =~= t@.take(j as int));
            }
            if ch == '/' {
                sq = sq - 16;
                if sq < i32::MIN as i64 {
                    proof {
                        lemma_scan_false_stays(t@, j + 1);
                    }
                    return false;
                }
            } else if '1' <= ch && ch <= '8' {
                sq = sq + (ch as u32 - 48) as i64;
                if sq > i32::MAX as i64 {
                    proof {
                        lemma_scan_false_stays(t@, j + 1);
                    }
                    return false;
                }
            } else {
                match piece_of_letter(ch) {
                    None => {
                        proof {
                            lemma_scan_frozen(t@, j + 1);
                        }
                        return true;
                    },
                    Some(_) => {
                        if sq < 0 || sq >= 64 {
                            proof {
                                lemma_scan_false_stays(t@, j + 1);
                            }
                            return false;
                        }
                        sq = sq + 1;
                    },
                }
            }
            j += 1;
        }
        proof {
            assert(t@.take(t@.len() as int) =~= t@);
        }
        true
    }

    /// Parses a FEN string. `None` when it has fewer than four fields or a
    /// character in the piece placement that names no piece.
    pub fn from_fen(fen: &str) -> (r: Option<Position>)
        requires
            fen_fits(fen@),
        ensures
            r is Some <==> fen_parses(fen@),
            r matches Some(p) ==> fen_position(fen@, p),
    {
        let chars = chars_of(fen);
        let parts = split_words(&chars);
        if parts.len() < 4 {
            return None;
        }
        let mut pos = empty_position();
        if !place_pieces(&parts[0], &mut pos) {
            return None;
        }
        pos.side = if is_word(&parts[1], 'b') {
            Color::Black
        } else {
            Color::White
        };
        if pos.side == Color::Black {
            pos.hash = pos.hash ^ zobrist::side_key();
        }
        pos.castling = castling_field(&parts[2]);
        pos.hash = pos.hash ^ zobrist::castling_key(pos.castling);
        if !is_word(&parts[3], '-') {
            pos.ep_sq = match square_field(&parts[3]) {
                Some(s) => s,
                None => NO_SQ,
            };
            if pos.ep_sq != NO_SQ {
                pos.hash = pos.hash ^ zobrist::ep_key(pos.ep_sq % 8);
            }
        }
        if parts.len() > 4 {
            pos.halfmove_clock = match parse_decimal(&parts[4], u32::MAX as u64) {
                Some(v) => v as u32,
                None => 0,
            };
        }
        if parts.len() > 5 {
            pos.fullmove = match parse_decimal(&parts[5], u32::MAX as u64) {
                Some(v) => v as u32,
                None => 1,
            };
        }
        proof {
            let ps = placement_scan(parts@[0]@).1;
            let h = placements_hash(ps);
            lemma_xor_facts(h, 0, 0);
            lemma_xor_facts(h, side_hash(pos.side), 0);
            lemma_xor_facts(h ^ side_hash(pos.side), castling_hash(pos.castling), 0);
            lemma_xor_facts(h ^ side_hash(pos.side) ^ castling_hash(pos.castling), 0, 0);
            let parts_spec = words(fen@);
            assert(pos.board@ == board_of(ps));
            assert(pos.side == (if parts_spec[1] == seq!['b'] { Color::Black } else { Color::White }));
            assert(pos.castling == castling_rights_of(parts_spec[2]));
            assert(pos.ep_sq == fen_ep(parts_spec[3]));
            assert(pos.halfmove_clock == fen_clock(parts_spec, 4, 0));
            assert(pos.fullmove == fen_clock(parts_spec, 5, 1));
            assert(pos.hash == placements_hash(ps) ^ side_hash(pos.side) ^ castling_hash(pos.castling) ^ ep_hash(pos.ep_sq));
        }
        Some(pos)
    }
}

proof fn lemma_scan_frozen(t: Seq<char>, j: int)
    requires
        0 < j <= t.len(),
        !placement_scan(t.take(j)).3,
    ensures
        placement_scan(t) == placement_scan(t.take(j)),
{
    lemma_scan_stuck(t, j, t.len() as int);
    assert(t.take(t.len() as int) =~= t);
}

proof fn lemma_scan_false_stays(t: Seq<char>, j: int)
    requires
        0 < j <= t.len(),
        !placement_scan(t.take(j)).2,
    ensures
        !placement_scan(t).2,
    decreases t.len() - j,
{
    if j < t.len() {
        assert(t.take(j + 1).drop_last() =~= t.take(j));
        lemma_scan_false_stays(t, j + 1);
    } else {
        assert(t.take(j) =~= t);
    }
}


// ── Writing FEN ──────────────────────────────────────────────────────────────

/// FEN letter of a piece.
pub open spec fn piece_letter(p: Piece) -> char {
    let c = match p.kind {
        PieceType::Pawn => 'P',
        PieceType::Knight => 'N',
        PieceType::Bishop => 'B',
        PieceType::Rook => 'R',
        PieceType::Queen => 'Q',
        PieceType::King => 'K',
    };
    if p.color == Color::White {
        c
    } else {
        match p.kind {
            PieceType::Pawn => 'p',
            PieceType::Knight => 'n',
            PieceType::Bishop => 'b',
            PieceType::Rook => 'r',
            PieceType::Queen => 'q',
            PieceType::King => 'k',
        }
    }
}

fn letter_of(p: Piece) -> (c: char)
    ensures
        c == piece_letter(p),
{
    match (p.kind, p.color) {
        (PieceType::Pawn, Color::White) => 'P',
        (PieceType::Knight, Color::White) => 'N',
        (PieceType::Bishop, Color::White) => 'B',
        (PieceType::Rook, Color::White) => 'R',
        (PieceType::Queen, Color::White) => 'Q',
        (PieceType::King, Color::White) => 'K',
        (PieceType::Pawn, Color::Black) => 'p',
        (PieceType::Knight, Color::Black) => 'n',
        (PieceType::Bishop, Color::Black) => 'b',
        (PieceType::Rook, Color::Black) => 'r',
        (PieceType::Queen, Color::Black) => 'q',
        (PieceType::King, Color::Black) => 'k',
    }
}

/// A run of `e` empty squares ("" for none).
pub open spec fn empty_run(e: int) -> Seq<char> {
    if e > 0 {
        seq![(48 + e) as char]
    } else {
        Seq::empty()
    }
}

/// FEN text of rank `r` from file `f` on, with `e` empty squares pending.
pub open spec fn rank_run(b: Seq<Option<Piece>>, r: int, f: int, e: int) -> Seq<char>
    decreases 8 - f,
{
    if f >= 8 {
        empty_run(e)
    } else if b[r * 8 + f] is Some {
        empty_run(e) + seq![piece_letter(b[r * 8 + f]->0)] + rank_run(b, r, f + 1, 0)
    } else {
        rank_run(b, r, f + 1, e + 1)
    }
}

/// FEN text of ranks `r` down to 1, separated by '/'.
pub open spec fn ranks_text(b: Seq<Option<Piece>>, r: int) -> Seq<char>
    decreases r,
{
    if r <= 0 {
        rank_run(b, 0, 0, 0)
    } else {
        rank_run(b, r, 0, 0) + seq!['/'] + ranks_text(b, r - 1)
    }
}

pub open spec fn castling_text(c: u8) -> Seq<char> {
    if c == 0 {
        seq!['-']
    } else {
        (if c & 1u8 != 0 { seq!['K'] } else { Seq::empty() }) + (if c & 2u8 != 0 {
            seq!['Q']
        } else {
            Seq::empty()
        }) + (if c & 4u8 != 0 { seq!['k'] } else { Seq::empty() }) + (if c & 8u8 != 0 {
            seq!['q']
        } else {
            Seq::empty()
        })
    }
}

pub open spec fn ep_text(ep: u8) -> Seq<char> {
    if ep == NO_SQ {
        seq!['-']
    } else {
        square_text(ep as int)
    }
}

/// The FEN text of a position.
pub open spec fn fen_text(p: Position) -> Seq<char> {
    ranks_text(p.board@, 7) + seq![' ', if p.side == Color::White { 'w' } else { 'b' }, ' ']
        + castling_text(p.castling) + seq![' '] + ep_text(p.ep_sq) + seq![' '] + decimal(
        p.halfmove_clock as nat,
    ) + seq![' '] + decimal(p.fullmove as nat)
}

fn push_rank(fen: &mut String, board: &[Option<Piece>; 64], rank: usize)
    requires
        rank < 8,
    ensures
        final(fen)@ == old(fen)@ + rank_run(board@, rank as int, 0, 0),
{
    let mut empty: u8 = 0;
    let mut file: usize = 0;
    while file < 8
        invariant
            file <= 8,
            rank < 8,
            empty <= file,
            fen@ + rank_run(board@, rank as int, file as int, empty as int) == old(fen)@ + rank_run(
                board@,
                rank as int,
                0,
                0,
            ),
        decreases 8 - file,
    {
        let ghost before = fen@;
        match board[rank * 8 + file] {
            Some(piece) => {
                if empty > 0 {
                    fen.push((48u8 + empty) as char);
                }
                fen.push(letter_of(piece));
                proof {
                    assert(fen@ =~= before + empty_run(empty as int) + seq![piece_letter(piece)]);
                    assert(fen@ + rank_run(board@, rank as int, file + 1, 0) =~= before + rank_run(
                        board@,
                        rank as int,
                        file as int,
                        empty as int,
                    ));
                }
                empty = 0;
            },
            None => {
                empty = empty + 1;
            },
        }
        file += 1;
    }
    if empty > 0 {
        fen.push((48u8 + empty) as char);
    }
    proof {
        assert(fen@ =~= old(fen)@ + rank_run(board@, rank as int, 0, 0));
    }
}

fn push_placement(fen: &mut String, board: &[Option<Piece>; 64])
    ensures
        final(fen)@ == old(fen)@ + ranks_text(board@, 7),
{
    let mut k: usize = 0;
    while k < 8
        invariant
            k <= 8,
            k < 8 ==> fen@ + ranks_text(board@, 7 - k) == old(fen)@ + ranks_text(board@, 7),
            k == 8 ==> fen@ == old(fen)@ + ranks_text(board@, 7),
        decreases 8 - k,
    {
        let rank = 7 - k;
        let ghost before = fen@;
        push_rank(fen, board, rank);
        if rank > 0 {
            fen.push('/');
            proof {
                assert(fen@ + ranks_text(board@, rank - 1) =~= before + ranks_text(board@, rank as int));
            }
        } else {
            proof {
                assert(fen@ =~= before + ranks_text(board@, 0));
            }
        }
        k += 1;
    }
}

fn push_castling(fen: &mut String, castling: u8)
    ensures
        final(fen)@ == old(fen)@ + castling_text(castling),
{
    if castling == 0 {
        fen.push('-');
    } else {
        if castling & 1 != 0 {
            fen.push('K');
        }
        if castling & 2 != 0 {
            fen.push('Q');
        }
        if castling & 4 != 0 {
            fen.push('k');
        }
        if castling & 8 != 0 {
            fen.push('q');
        }
    }
    assert(fen@ =~= old(fen)@ + castling_text(castling));
}

fn push_ep(fen: &mut String, ep: u8)
    ensures
        final(fen)@ == old(fen)@ + ep_text(ep),
{
    if ep == NO_SQ {
        fen.push('-');
        assert(fen@ =~= old(fen)@ + ep_text(ep));
    } else {
        let sq = super::position::sq_to_str(ep);
        push_text(fen, sq.as_str());
    }
}

impl Position {
    /// FEN text of the position.
    pub fn to_fen(&self) -> (s: String)
        ensures
            s@ == fen_text(*self),
    {
        let mut fen = String::new();
        push_placement(&mut fen, &self.board);
        let ghost p0 = fen@;
        fen.push(' ');
        fen.push(if self.side == Color::White { 'w' } else { 'b' });
        fen.push(' ');
        let ghost p1 = fen@;
        push_castling(&mut fen, self.castling);
        let ghost p2 = fen@;
        fen.push(' ');
        push_ep(&mut fen, self.ep_sq);
        let ghost p3 = fen@;
        fen.push(' ');
        crate::text::push_decimal(&mut fen, self.halfmove_clock as u64);
        let ghost p4 = fen@;
        fen.push(' ');
        crate::text::push_decimal(&mut fen, self.fullmove as u64);
        proof {
            let side_c = if self.side == Color::White { 'w' } else { 'b' };
            assert(p0 =~= ranks_text(self.board@, 7));
            assert(p1 =~= p0 + seq![' ', side_c, ' ']);
            assert(fen@ =~= fen_text(*self));
        }
        fen
    }
}


// ── The starting position ────────────────────────────────────────────────────

/// Piece of the back rank on file `f`: R N B Q K B N R.
pub open spec fn back_rank_kind(f: int) -> PieceType {
    if f == 0 || f == 7 {
        PieceType::Rook
    } else if f == 1 || f == 6 {
        PieceType::Knight
    } else if f == 2 || f == 5 {
        PieceType::Bishop
    } else if f == 3 {
        PieceType::Queen
    } else {
        PieceType::King
    }
}

/// What stands on `sq` in the initial position.
pub open spec fn start_piece(sq: int) -> Option<Piece> {
    if 0 <= sq < 8 {
        Some(Piece { kind: back_rank_kind(sq), color: Color::White })
    } else if 8 <= sq < 16 {
        Some(Piece { kind: PieceType::Pawn, color: Color::White })
    } else if 48 <= sq < 56 {
        Some(Piece { kind: PieceType::Pawn, color: Color::Black })
    } else if 56 <= sq < 64 {
        Some(Piece { kind: back_rank_kind(sq - 56), color: Color::Black })
    } else {
        None
    }
}

fn start_piece_at(sq: u8) -> (r: Option<Piece>)
    ensures
        r == start_piece(sq as int),
{
    let back = |f: u8| -> (k: PieceType)
        ensures
            k == back_rank_kind(f as int),
        {
            if f == 0 || f == 7 {
                PieceType::Rook
            } else if f == 1 || f == 6 {
                PieceType::Knight
            } else if f == 2 || f == 5 {
                PieceType::Bishop
            } else if f == 3 {
                PieceType::Queen
            } else {
                PieceType::King
            }
        };
    if sq < 8 {
        Some(Piece::new(back(sq), Color::White))
    } else if sq < 16 {
        Some(Piece::new(PieceType::Pawn, Color::White))
    } else if 48 <= sq && sq < 56 {
        Some(Piece::new(PieceType::Pawn, Color::Black))
    } else if 56 <= sq && sq < 64 {
        Some(Piece::new(back(sq - 56), Color::Black))
    } else {
        None
    }
}

impl Position {
    /// Standard starting position.
    pub fn startpos() -> (p: Position)
        ensures
            p.wf(),
            crate::moves::generator::legal_position(p),
            p.board@ == Seq::new(64, |sq: int| start_piece(sq)),
            p.side == Color::White,
            p.castling == 15,
            p.ep_sq == NO_SQ,
            p.halfmove_clock == 0,
            p.fullmove == 1,
    {
        let ghost start = Seq::new(64, |sq: int| start_piece(sq));
        let mut pos = empty_position();
        let mut sq: u8 = 0;
        while sq < 64
            invariant
                sq <= 64,
                pos.consistent(),
                pos.board@ == Seq::new(64, |i: int| if i < sq { start_piece(i) } else { None }),
                pos.hash == super::position::board_hash_upto(start, sq as int),
                start == Seq::new(64, |i: int| start_piece(i)),
                pos.side == Color::White,
                pos.castling == 0,
                pos.ep_sq == NO_SQ,
                pos.halfmove_clock == 0,
                pos.fullmove == 1,
            decreases 64 - sq,
        {
            let ghost h0 = pos.hash;
            match start_piece_at(sq) {
                Some(piece) => {
                    pos.put_piece(sq, piece);
                },
                None => {
                    proof {
                        lemma_xor_facts(h0, 0, 0);
                    }
                },
            }
            proof {
                assert(pos.board@ =~= Seq::new(64, |i: int| if i < sq + 1 { start_piece(i) } else { None }));
            }
            sq += 1;
        }
        proof {
            assert(pos.board@ =~= start);
        }
        pos.castling = 15;
        pos.hash = pos.hash ^ zobrist::castling_key(15);
        pos.king_sq = [4, 60];
        proof {
            let bh = super::position::board_hash_upto(pos.board@, 64);
            lemma_xor_facts(bh, 0, castling_hash(15));
            lemma_xor_facts(bh ^ castling_hash(15), 0, 0);
            assert(15u8 & 1u8 != 0 && 15u8 & 2u8 != 0 && 15u8 & 4u8 != 0 && 15u8 & 8u8 != 0) by (bit_vector);
            assert(pos.home_ok(4, 7, Color::White));
            assert(pos.home_ok(4, 0, Color::White));
            assert(pos.home_ok(60, 63, Color::Black));
            assert(pos.home_ok(60, 56, Color::Black));
            lemma_start_not_in_check(pos);
        }
        pos
    }

    /// Whether the position is well formed: bitboards agree with the board,
    /// one king of each side where `king_sq` says, castling rights only with
    /// king and rook at home, a real en-passant square, an up-to-date hash.
    pub fn is_valid(&self) -> (r: bool)
        ensures
            r == self.wf(),
    {
        bitboards_agree(self) && kings_tracked(self) && rights_hold(self) && ep_holds(self)
            && self.hash == compute_hash(self)
    }
}

fn bitboards_agree(p: &Position) -> (r: bool)
    ensures
        r == p.consistent(),
{
    let mut i: usize = 0;
    while i < 12
        invariant
            i <= 12,
            forall|j: int, sq: int|
                0 <= j < i && 0 <= sq < 64 ==> (#[trigger] p.pieces@[j].has(sq) <==> p.board@[sq] == Some(
                    piece_of_index(j),
                )),
        decreases 12 - i,
    {
        let piece = Piece::new(
            if i / 2 == 0 {
                PieceType::Pawn
            } else if i / 2 == 1 {
                PieceType::Knight
            } else if i / 2 == 2 {
                PieceType::Bishop
            } else if i / 2 == 3 {
                PieceType::Rook
            } else if i / 2 == 4 {
                PieceType::Queen
            } else {
                PieceType::King
            },
            if i % 2 == 0 {
                Color::White
            } else {
                Color::Black
            },
        );
        assert(piece == piece_of_index(i as int));
        let mut sq: u8 = 0;
        while sq < 64
            invariant
                sq <= 64,
                i < 12,
                piece == piece_of_index(i as int),
                forall|j: int, s: int|
                    0 <= j < i && 0 <= s < 64 ==> (#[trigger] p.pieces@[j].has(s) <==> p.board@[s] == Some(
                        piece_of_index(j),
                    )),
                forall|s: int|
                    0 <= s < sq ==> (#[trigger] p.pieces@[i as int].has(s) <==> p.board@[s] == Some(piece)),
            decreases 64 - sq,
        {
            let on_board = match p.board[sq as usize] {
                Some(q) => q == piece,
                None => false,
            };
            if p.pieces[i].contains(sq) != on_board {
                return false;
            }
            sq += 1;
        }
        i += 1;
    }
    let mut c: usize = 0;
    while c < 2
        invariant
            c <= 2,
            forall|j: int, sq: int|
                0 <= j < 12 && 0 <= sq < 64 ==> (#[trigger] p.pieces@[j].has(sq) <==> p.board@[sq] == Some(
                    piece_of_index(j),
                )),
            forall|cc: int, sq: int|
                0 <= cc < c && 0 <= sq < 64 ==> (#[trigger] p.occupancy@[cc].has(sq) <==> (p.board@[sq] is Some
                    && p.board@[sq]->0.color.idx() == cc)),
        decreases 2 - c,
    {
        let mut sq: u8 = 0;
        while sq < 64
            invariant
                sq <= 64,
                c < 2,
                forall|j: int, s: int|
                    0 <= j < 12 && 0 <= s < 64 ==> (#[trigger] p.pieces@[j].has(s) <==> p.board@[s] == Some(
                        piece_of_index(j),
                    )),
                forall|cc: int, s: int|
                    0 <= cc < c && 0 <= s < 64 ==> (#[trigger] p.occupancy@[cc].has(s) <==> (p.board@[s] is Some
                        && p.board@[s]->0.color.idx() == cc)),
                forall|s: int|
                    0 <= s < sq ==> (#[trigger] p.occupancy@[c as int].has(s) <==> (p.board@[s] is Some
                        && p.board@[s]->0.color.idx() == c)),
            decreases 64 - sq,
        {
            let on_board = match p.board[sq as usize] {
                Some(q) => q.color.index() == c,
                None => false,
            };
            if p.occupancy[c].contains(sq) != on_board {
                return false;
            }
            sq += 1;
        }
        c += 1;
    }
    true
}

fn kings_tracked(p: &Position) -> (r: bool)
    ensures
        r == p.kings_ok(),
{
    let mut c: usize = 0;
    while c < 2
        invariant
            c <= 2,
            forall|cc: int|
                0 <= cc < c ==> {
                    &&& #[trigger] p.king_sq@[cc] < 64
                    &&& forall|sq: int|
                        0 <= sq < 64 ==> (#[trigger] p.board@[sq] == Some(
                            Piece { kind: PieceType::King, color: color_of_index(cc) },
                        ) <==> sq == p.king_sq@[cc])
                },
        decreases 2 - c,
    {
        let color = if c == 0 {
            Color::White
        } else {
            Color::Black
        };
        let king = Piece::new(PieceType::King, color);
        let ksq = p.king_sq[c];
        if ksq >= 64 {
            return false;
        }
        let mut sq: u8 = 0;
        while sq < 64
            invariant
                sq <= 64,
                c < 2,
                ksq == p.king_sq@[c as int],
                king == (Piece { kind: PieceType::King, color: color_of_index(c as int) }),
                forall|s: int| 0 <= s < sq ==> (#[trigger] p.board@[s] == Some(king) <==> s == ksq),
            decreases 64 - sq,
        {
            let is_king = match p.board[sq as usize] {
                Some(q) => q == king,
                None => false,
            };
            if is_king != (sq == ksq) {
                assert(!(p.board@[sq as int] == Some(king) <==> sq == ksq));
                assert(!p.kings_ok());
                return false;
            }
            sq += 1;
        }
        c += 1;
    }
    true
}

fn holds_at_home(p: &Position, king: u8, rook: u8, color: Color) -> (r: bool)
    requires
        king < 64,
        rook < 64,
    ensures
        r == p.home_ok(king as int, rook as int, color),
{
    let king_home = match p.board[king as usize] {
        Some(q) => q.kind == PieceType::King && q.color == color,
        None => false,
    };
    let rook_ok = match p.board[rook as usize] {
        Some(q) => q.color == color && q.kind != PieceType::King,
        None => true,
    };
    king_home && rook_ok
}

fn rights_hold(p: &Position) -> (r: bool)
    ensures
        r == p.castling_ok(),
{
    (p.castling & 1 == 0 || holds_at_home(p, 4, 7, Color::White)) && (p.castling & 2 == 0
        || holds_at_home(p, 4, 0, Color::White)) && (p.castling & 4 == 0 || holds_at_home(
        p,
        60,
        63,
        Color::Black,
    )) && (p.castling & 8 == 0 || holds_at_home(p, 60, 56, Color::Black))
}

fn ep_holds(p: &Position) -> (r: bool)
    ensures
        r == p.ep_ok(),
{
    if p.ep_sq == NO_SQ {
        return true;
    }
    let e = p.ep_sq;
    if e >= 64 {
        return false;
    }
    if p.board[e as usize].is_some() {
        return false;
    }
    let them = p.side.flip();
    let b: i32 = if p.side == Color::White {
        e as i32 - 8
    } else {
        e as i32 + 8
    };
    if b < 0 || b >= 64 {
        return false;
    }
    match p.board[b as usize] {
        Some(q) => q.kind == PieceType::Pawn && q.color == them,
        None => false,
    }
}

/// The hash the position should carry, computed from scratch.
fn compute_hash(p: &Position) -> (h: u64)
    ensures
        h == p.full_hash(),
{
    let mut h: u64 = 0;
    let mut sq: u8 = 0;
    while sq < 64
        invariant
            sq <= 64,
            h == super::position::board_hash_upto(p.board@, sq as int),
        decreases 64 - sq,
    {
        match p.board[sq as usize] {
            Some(q) => {
                h = h ^ zobrist::piece_key(q.bb_index(), sq);
            },
            None => {
                proof {
                    lemma_xor_facts(h, 0, 0);
                }
            },
        }
        sq += 1;
    }
    if p.side == Color::Black {
        h = h ^ zobrist::side_key();
    } else {
        proof {
            lemma_xor_facts(h, 0, 0);
        }
    }
    h = h ^ zobrist::castling_key(p.castling);
    if p.ep_sq != NO_SQ {
        h = h ^ zobrist::ep_key(p.ep_sq % 8);
    } else {
        proof {
            lemma_xor_facts(h, 0, 0);
        }
    }
    h
}


/// In the starting position no white piece attacks the black king: every
/// square next to e8 is occupied or off the board, and no white piece stands
/// on one of them.
proof fn lemma_start_not_in_check(p: Position)
    requires
        p.consistent(),
        p.board@ == Seq::new(64, |sq: int| start_piece(sq)),
    ensures
        !crate::moves::generator::attacked(p, 60, Color::White),
{
    let occ = crate::moves::generator::occ_bits(p);
    super::bitboard::lemma_or_bits(p.occupancy@[0].0, p.occupancy@[1].0);
    assert(p.occupancy@[1].has(51) && p.occupancy@[1].has(52) && p.occupancy@[1].has(53));
    assert(p.occupancy@[1].has(59) && p.occupancy@[1].has(61));
    assert(super::bitboard::bit(occ, 51) && super::bitboard::bit(occ, 52) && super::bitboard::bit(occ, 53));
    assert(super::bitboard::bit(occ, 59) && super::bitboard::bit(occ, 61));
    assert forall|t: int| !#[trigger] crate::moves::generator::attacker_at(p, t, 60, Color::White) by {
        if 0 <= t < 64 && p.board@[t] is Some && p.board@[t]->0.color == Color::White {
            assert(t < 16);
        }
    }
}

/// The UCI text of a move is its two squares, followed for a promotion by one
/// lower-case letter naming the new piece: the letter FEN uses for a black
/// piece of that kind, so 'q' for a queen, 'r' for a rook, 'b' for a bishop
/// and 'n' for a knight.
pub proof fn lemma_uci_promotion_letter(m: Move)
    ensures
        uci_text(m).len() == (if m.promo_spec() { 5int } else { 4int }),
        m.promo_spec() ==> uci_text(m)[4] == piece_letter(
            Piece { kind: m.promo_piece_spec(), color: Color::Black },
        ),
        m.promo_spec() && m.promo_piece_spec() == PieceType::Queen ==> uci_text(m)[4] == 'q',
        m.promo_spec() && m.promo_piece_spec() == PieceType::Rook ==> uci_text(m)[4] == 'r',
        m.promo_spec() && m.promo_piece_spec() == PieceType::Bishop ==> uci_text(m)[4] == 'b',
        m.promo_spec() && m.promo_piece_spec() == PieceType::Knight ==> uci_text(m)[4] == 'n',
{
}

} // verus!
