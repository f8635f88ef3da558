use vstd::prelude::*;

use crate::board::bitboard::{lemma_bits_extensional, Bitboard};
use crate::board::position::{
    board_hash_upto, ep_hash, lemma_xor_facts, side_hash, square_key, lemma_move_ranges, piece_of_index, Color, Move, Piece,
    PieceType, Position, behind, color_of_index, FLAG_CASTLE_K, FLAG_CASTLE_Q, FLAG_DOUBLE_PUSH, NO_SQ,
};
use crate::board::position::lemma_board_hash_update;
use crate::board::zobrist::zkey;
use crate::board::zobrist;
use crate::board::zobrist::castling_hash;

verus! {

/// Undo information saved before `make_move`.
#[derive(Clone, Copy)]
pub struct Undo {
    pub castling: u8,
    pub ep_sq: u8,
    pub halfmove_clock: u32,
    pub hash: u64,
    pub captured: Option<Piece>,
}

/// (rook origin, rook destination) of a castling move by `side`.
pub open spec fn castle_rook_squares(side: Color, m: Move) -> (int, int) {
    if m.flags_spec() == 2 {
        if side == Color::White {
            (7, 5)
        } else {
            (63, 61)
        }
    } else {
        if side == Color::White {
            (0, 3)
        } else {
            (56, 59)
        }
    }
}

/// Castling rights kept when a piece leaves or lands on `sq`.
pub open spec fn castling_mask_spec(sq: int) -> u8 {
    if sq == 0 {
        0xFD
    } else if sq == 4 {
        0xFC
    } else if sq == 7 {
        0xFE
    } else if sq == 56 {
        0xF7
    } else if sq == 60 {
        0xF3
    } else if sq == 63 {
        0xFB
    } else {
        0xFF
    }
}

pub open spec fn moving_piece(p: Position, m: Move) -> Piece {
    p.board@[m.from_spec()]->0
}

/// The piece standing on the destination square after the move.
pub open spec fn landing_piece(p: Position, m: Move) -> Piece {
    if m.promo_spec() {
        Piece { kind: m.promo_piece_spec(), color: moving_piece(p, m).color }
    } else {
        moving_piece(p, m)
    }
}

/// What a move requires of the position for `make_move` to apply it exactly
/// (and for `unmake_move` to take it back).
pub open spec fn move_fits(p: Position, m: Move) -> bool {
    let f = m.from_spec();
    let t = m.to_spec();
    let us = p.side;
    &&& p.board@[f] is Some
    &&& p.board@[f]->0.color == us
    &&& (m.capture_spec() && !m.ep_spec()) ==> (p.board@[t] is Some && p.board@[t]->0.color
        == us.opposite() && p.board@[t]->0.kind != PieceType::King)
    &&& !(m.capture_spec() && !m.ep_spec()) ==> p.board@[t] is None
    &&& m.ep_spec() ==> (0 <= behind(us, t) < 64 && p.board@[behind(us, t)] == Some(
        Piece { kind: PieceType::Pawn, color: us.opposite() },
    ))
    &&& m.flags_spec() == 1 ==> (0 <= behind(us, t) < 64 && p.board@[behind(us, t)] is None
        && p.board@[f]->0.kind == PieceType::Pawn)
    &&& m.promo_spec() ==> p.board@[f]->0.kind == PieceType::Pawn
    &&& m.castle_spec() ==> {
        let (rf, rt) = castle_rook_squares(us, m);
        &&& rf != f && rf != t && rt != f && rt != t
        &&& p.board@[rt] is None
        &&& p.board@[rf] is Some ==> (p.board@[rf]->0.color == us && p.board@[rf]->0.kind
            != PieceType::King)
    }
}

/// The board after the move.
pub open spec fn board_after(p: Position, m: Move) -> Seq<Option<Piece>> {
    let f = m.from_spec();
    let t = m.to_spec();
    let b1 = p.board@.update(f, None).update(t, Some(landing_piece(p, m)));
    let b2 = if m.ep_spec() {
        b1.update(behind(p.side, t), None)
    } else {
        b1
    };
    if m.castle_spec() {
        let (rf, rt) = castle_rook_squares(p.side, m);
        if b2[rf] is Some {
            b2.update(rf, None).update(rt, b2[rf])
        } else {
            b2
        }
    } else {
        b2
    }
}

pub open spec fn undo_of(p: Position, m: Move) -> Undo {
    Undo {
        castling: p.castling,
        ep_sq: p.ep_sq,
        halfmove_clock: p.halfmove_clock,
        hash: p.hash,
        captured: p.board@[m.to_spec()],
    }
}

/// `q` is `p` after `m`.
pub open spec fn made(p: Position, m: Move, q: Position) -> bool {
    let f = m.from_spec();
    let t = m.to_spec();
    &&& q.wf()
    &&& q.board@ == board_after(p, m)
    &&& q.side == p.side.opposite()
    &&& q.castling == p.castling & castling_mask_spec(f) & castling_mask_spec(t)
    &&& q.ep_sq == (if m.flags_spec() == 1 {
        behind(p.side, t) as u8
    } else {
        NO_SQ
    })
    &&& q.halfmove_clock == (if moving_piece(p, m).kind == PieceType::Pawn || m.capture_spec() {
        0
    } else {
        p.halfmove_clock + 1
    })
    &&& q.fullmove == (if p.side == Color::Black {
        p.fullmove + 1
    } else {
        p.fullmove as int
    })
    &&& q.king_sq@ == (if landing_piece(p, m).kind == PieceType::King {
        p.king_sq@.update(p.side.idx(), t as u8)
    } else {
        p.king_sq@
    })
}

fn castling_mask(sq: u8) -> (m: u8)
    ensures
        m == castling_mask_spec(sq as int),
{
    if sq == 0 {
        0xFD
    } else if sq == 4 {
        0xFC
    } else if sq == 7 {
        0xFE
    } else if sq == 56 {
        0xF7
    } else if sq == 60 {
        0xF3
    } else if sq == 63 {
        0xFB
    } else {
        0xFF
    }
}

fn update_castling(pos: &mut Position, from: u8, to: u8)
    ensures
        final(pos).castling == old(pos).castling & castling_mask_spec(from as int)
            & castling_mask_spec(to as int),
        final(pos).board == old(pos).board,
        final(pos).pieces == old(pos).pieces,
        final(pos).occupancy == old(pos).occupancy,
        final(pos).side == old(pos).side,
        final(pos).ep_sq == old(pos).ep_sq,
        final(pos).hash == old(pos).hash,
        final(pos).halfmove_clock == old(pos).halfmove_clock,
        final(pos).fullmove == old(pos).fullmove,
        final(pos).king_sq == old(pos).king_sq,
{
    pos.castling = pos.castling & castling_mask(from) & castling_mask(to);
}

// ── hash bookkeeping ────────────────────────────────────────────────────────

proof fn lemma_xor6(b: u64, s: u64, c: u64, e: u64, x: u64, y: u64)
    by (bit_vector)
    ensures
        ((((b ^ x) ^ y) ^ s) ^ c) ^ e == ((((b ^ s) ^ c) ^ e) ^ x) ^ y,
        (((b ^ (s ^ x) ^ y) ^ c) ^ e) == ((((b ^ s) ^ c) ^ e) ^ x) ^ y,
        (((b ^ s) ^ ((c ^ x) ^ y)) ^ e) == ((((b ^ s) ^ c) ^ e) ^ x) ^ y,
        (((b ^ s) ^ c) ^ ((e ^ x) ^ y)) == ((((b ^ s) ^ c) ^ e) ^ x) ^ y,
        x ^ 0u64 == x,
        (x ^ x) ^ y == y,
{
}

/// A change of one board square, with the hash updated by the old and new keys
/// of that square, keeps the hash up to date.
proof fn lemma_hash_square_step(p: Position, q: Position, k: int)
    requires
        p.hash == p.full_hash(),
        0 <= k < 64,
        q.board@ == p.board@.update(k, q.board@[k]),
        q.side == p.side,
        q.castling == p.castling,
        q.ep_sq == p.ep_sq,
        q.hash == p.hash ^ square_key(p.board@[k], k) ^ square_key(q.board@[k], k),
    ensures
        q.hash == q.full_hash(),
{
    lemma_board_hash_update(p.board@, k, q.board@[k], 64);
    lemma_xor6(
        board_hash_upto(p.board@, 64),
        side_hash(p.side),
        castling_hash(p.castling),
        ep_hash(p.ep_sq),
        square_key(p.board@[k], k),
        square_key(q.board@[k], k),
    );
}

proof fn lemma_hash_side_step(p: Position, q: Position)
    requires
        p.hash == p.full_hash(),
        q.board@ == p.board@,
        q.castling == p.castling,
        q.ep_sq == p.ep_sq,
        q.hash == p.hash ^ side_hash(p.side) ^ side_hash(q.side),
    ensures
        q.hash == q.full_hash(),
{
    let b = board_hash_upto(p.board@, 64);
    lemma_xor6(
        b,
        side_hash(p.side),
        castling_hash(p.castling),
        ep_hash(p.ep_sq),
        side_hash(p.side),
        side_hash(q.side),
    );
    lemma_xor6(b, 0, 0, 0, side_hash(p.side), side_hash(q.side));
    lemma_xor_facts(side_hash(p.side), side_hash(p.side), side_hash(q.side));
    lemma_xor_facts(b, side_hash(p.side) ^ side_hash(p.side), side_hash(q.side));
}

proof fn lemma_hash_castling_step(p: Position, q: Position)
    requires
        p.hash == p.full_hash(),
        q.board@ == p.board@,
        q.side == p.side,
        q.ep_sq == p.ep_sq,
        q.hash == p.hash ^ castling_hash(p.castling) ^ castling_hash(q.castling),
    ensures
        q.hash == q.full_hash(),
{
    let b = board_hash_upto(p.board@, 64);
    let s = side_hash(p.side);
    let c = castling_hash(p.castling);
    lemma_xor6(b, s, c, ep_hash(p.ep_sq), c, castling_hash(q.castling));
    lemma_xor_facts(c, c, castling_hash(q.castling));
    lemma_xor_facts(b ^ s, c ^ c, castling_hash(q.castling));
}

proof fn lemma_hash_ep_step(p: Position, q: Position)
    requires
        p.hash == p.full_hash(),
        q.board@ == p.board@,
        q.side == p.side,
        q.castling == p.castling,
        q.hash == p.hash ^ ep_hash(p.ep_sq) ^ ep_hash(q.ep_sq),
    ensures
        q.hash == q.full_hash(),
{
    let b = board_hash_upto(p.board@, 64);
    let s = side_hash(p.side);
    let c = castling_hash(p.castling);
    let e = ep_hash(p.ep_sq);
    lemma_xor6(b, s, c, e, e, ep_hash(q.ep_sq));
    lemma_xor_facts(e, e, ep_hash(q.ep_sq));
    lemma_xor_facts((b ^ s) ^ c, e ^ e, ep_hash(q.ep_sq));
}

/// Takes the piece on `sq` off the board and keeps the hash up to date.
fn take(pos: &mut Position, sq: u8)
    requires
        old(pos).consistent(),
        sq < 64,
        old(pos).board@[sq as int] is Some,
    ensures
        final(pos).consistent(),
        old(pos).hash == old(pos).full_hash() ==> final(pos).hash == final(pos).full_hash(),
        final(pos).board@ == old(pos).board@.update(sq as int, None),
        final(pos).side == old(pos).side,
        final(pos).castling == old(pos).castling,
        final(pos).ep_sq == old(pos).ep_sq,
        final(pos).halfmove_clock == old(pos).halfmove_clock,
        final(pos).fullmove == old(pos).fullmove,
        final(pos).king_sq == old(pos).king_sq,
{
    let ghost p = *pos;
    pos.take_piece(sq);
    proof {
        if p.hash == p.full_hash() {
            lemma_xor6(0, 0, 0, 0, p.hash ^ square_key(p.board@[sq as int], sq as int), 0);
            lemma_hash_square_step(p, *pos, sq as int);
        }
    }
}

/// Puts `piece` on the empty square `sq` and keeps the hash up to date.
fn put(pos: &mut Position, sq: u8, piece: Piece)
    requires
        old(pos).consistent(),
        sq < 64,
        old(pos).board@[sq as int] is None,
    ensures
        final(pos).consistent(),
        old(pos).hash == old(pos).full_hash() ==> final(pos).hash == final(pos).full_hash(),
        final(pos).board@ == old(pos).board@.update(sq as int, Some(piece)),
        final(pos).side == old(pos).side,
        final(pos).castling == old(pos).castling,
        final(pos).ep_sq == old(pos).ep_sq,
        final(pos).halfmove_clock == old(pos).halfmove_clock,
        final(pos).fullmove == old(pos).fullmove,
        final(pos).king_sq == old(pos).king_sq,
{
    let ghost p = *pos;
    pos.put_piece(sq, piece);
    proof {
        if p.hash == p.full_hash() {
            lemma_xor6(0, 0, 0, 0, p.hash, 0);
            lemma_hash_square_step(p, *pos, sq as int);
        }
    }
}

/// Moves whatever stands on `from` (a piece of `us`) to the empty square `to`.
fn move_piece(pos: &mut Position, from: u8, to: u8, us: usize)
    requires
        old(pos).consistent(),
        from < 64,
        to < 64,
        from != to,
        us < 2,
        old(pos).board@[from as int] is Some ==> old(pos).board@[from as int]->0.color.idx() == us
            && old(pos).board@[to as int] is None,
    ensures
        final(pos).consistent(),
        old(pos).hash == old(pos).full_hash() ==> final(pos).hash == final(pos).full_hash(),
        final(pos).board@ == (if old(pos).board@[from as int] is Some {
            old(pos).board@.update(from as int, None).update(to as int, old(pos).board@[from as int])
        } else {
            old(pos).board@
        }),
        final(pos).side == old(pos).side,
        final(pos).castling == old(pos).castling,
        final(pos).ep_sq == old(pos).ep_sq,
        final(pos).halfmove_clock == old(pos).halfmove_clock,
        final(pos).fullmove == old(pos).fullmove,
        final(pos).king_sq == old(pos).king_sq,
{
    if let Some(piece) = pos.board[from as usize] {
        take(pos, from);
        put(pos, to, piece);
    }
}

/// Moves the pieces of `mv` on the board: the capture, the mover (promoted if
/// need be), the pawn taken en passant and the castling rook.
fn relocate(pos: &mut Position, mv: Move)
    requires
        old(pos).consistent(),
        old(pos).hash == old(pos).full_hash(),
        move_fits(*old(pos), mv),
    ensures
        final(pos).consistent(),
        final(pos).hash == final(pos).full_hash(),
        final(pos).board@ == board_after(*old(pos), mv),
        final(pos).side == old(pos).side,
        final(pos).castling == old(pos).castling,
        final(pos).ep_sq == old(pos).ep_sq,
        final(pos).halfmove_clock == old(pos).halfmove_clock,
        final(pos).fullmove == old(pos).fullmove,
        final(pos).king_sq@ == (if landing_piece(*old(pos), mv).kind == PieceType::King {
            old(pos).king_sq@.update(old(pos).side.idx(), mv.to_spec() as u8)
        } else {
            old(pos).king_sq@
        }),
{
    let ghost p0 = *pos;
    let from = mv.from_sq();
    let to = mv.to_sq();
    let us = pos.side.index();
    let moving = pos.board[from as usize].unwrap();
    let ghost f = from as int;
    let ghost t = to as int;

    // Remove captured piece
    if mv.is_capture() && !mv.is_ep() {
        if let Some(_captured) = pos.board[to as usize] {
            take(pos, to);
        }
    }
    let ghost p1 = *pos;
    assert(p1.board@ == p0.board@.update(t, None));

    // Move the piece
    take(pos, from);
    let mut landing = moving;
    if mv.is_promotion() {
        landing = Piece::new(mv.promo_piece(), moving.color);
    }
    put(pos, to, landing);
    if landing.kind == PieceType::King {
        pos.king_sq[us] = to;
    }
    let ghost p2 = *pos;
    assert(landing == landing_piece(p0, mv));
    assert(p2.board@ =~= p0.board@.update(f, None).update(t, Some(landing_piece(p0, mv))));

    // En passant capture
    if mv.is_ep() {
        let ep_pawn_sq = if us == 0 {
            to - 8
        } else {
            to + 8
        };
        take(pos, ep_pawn_sq);
    }
    let ghost p3 = *pos;

    // Castling rook moves
    if mv.flags() == FLAG_CASTLE_K {
        let (rook_from, rook_to) = if us == 0 {
            (7u8, 5u8)
        } else {
            (63u8, 61u8)
        };
        move_piece(pos, rook_from, rook_to, us);
    } else if mv.flags() == FLAG_CASTLE_Q {
        let (rook_from, rook_to) = if us == 0 {
            (0u8, 3u8)
        } else {
            (56u8, 59u8)
        };
        move_piece(pos, rook_from, rook_to, us);
    }
}

/// After a fitting move on a well-formed position, each side still has exactly
/// one king and `king_sq` points at it.
proof fn lemma_kings_after(p: Position, m: Move, q: Position)
    requires
        p.wf(),
        move_fits(p, m),
        q.board@ == board_after(p, m),
        q.king_sq@ == (if landing_piece(p, m).kind == PieceType::King {
            p.king_sq@.update(p.side.idx(), m.to_spec() as u8)
        } else {
            p.king_sq@
        }),
    ensures
        q.kings_ok(),
{
    let f = m.from_spec();
    let t = m.to_spec();
    lemma_move_ranges(m);
    let us = p.side;
    let mover = moving_piece(p, m);
    let land = landing_piece(p, m);
    assert(mover.kind == PieceType::King <==> land.kind == PieceType::King);
    let (rf, rt) = castle_rook_squares(us, m);
    let v = behind(us, t);
    // squares that the move does not touch keep their piece
    assert forall|sq: int|
        0 <= sq < 64 && sq != f && sq != t && !(m.ep_spec() && sq == v) && !(m.castle_spec() && (
        sq == rf || sq == rt)) implies #[trigger] q.board@[sq] == p.board@[sq] by {
        assert(p.board@.len() == 64);
        let b1 = p.board@.update(f, None).update(t, Some(land));
        let b2 = if m.ep_spec() {
            b1.update(v, None)
        } else {
            b1
        };
        assert(b1[sq] == p.board@[sq]);
        assert(b2[sq] == p.board@[sq]);
    }
    // after the move no king stands where it did not stand before, except the mover
    assert forall|sq: int|
        0 <= sq < 64 && #[trigger] q.board@[sq] is Some && q.board@[sq]->0.kind == PieceType::King
            implies (sq == t && land.kind == PieceType::King) || (q.board@[sq] == p.board@[sq]
        && sq != f) by {
        assert(p.board@.len() == 64);
        let b1 = p.board@.update(f, None).update(t, Some(land));
        let b2 = if m.ep_spec() {
            b1.update(v, None)
        } else {
            b1
        };
        if m.castle_spec() {
            assert(b2[rf] == p.board@[rf]);
            assert(b2[rt] == p.board@[rt]);
        }
        if sq == t {
        } else if sq == f {
        } else if m.ep_spec() && sq == v {
        } else if m.castle_spec() && (sq == rf || sq == rt) {
        } else {
            assert(q.board@[sq] == p.board@[sq]);
        }
    }
    assert forall|c: int| 0 <= c < 2 implies {
        &&& #[trigger] q.king_sq@[c] < 64
        &&& forall|sq: int|
            0 <= sq < 64 ==> (#[trigger] q.board@[sq] == Some(
                Piece { kind: PieceType::King, color: color_of_index(c) },
            ) <==> sq == q.king_sq@[c])
    } by {
        let k = Piece { kind: PieceType::King, color: color_of_index(c) };
        let ks = p.king_sq@[c] as int;
        assert(p.board@[ks] == Some(k));
        assert forall|sq: int| 0 <= sq < 64 implies (#[trigger] q.board@[sq] == Some(k) <==> sq
            == q.king_sq@[c]) by {
            assert(p.board@[sq] == Some(k) <==> sq == p.king_sq@[c]);
            if land.kind == PieceType::King && c == us.idx() {
                assert(f == ks);
                assert(q.board@[t] == Some(k));
            } else {
                if land.kind == PieceType::King {
                    assert(q.board@[t] != Some(k));
                }
                assert(ks != f);
                assert(ks != t);
                if m.ep_spec() {
                    assert(ks != v);
                }
                if m.castle_spec() {
                    assert(ks != rf);
                    assert(ks != rt);
                }
                assert(q.board@[ks] == p.board@[ks]);
            }
        }
    }
}

proof fn lemma_rights_bits(c: u8, a: u8, b: u8)
    by (bit_vector)
    ensures
        (c & a & b) & 1u8 != 0 ==> (c & 1u8 != 0 && a & 1u8 != 0 && b & 1u8 != 0),
        (c & a & b) & 2u8 != 0 ==> (c & 2u8 != 0 && a & 2u8 != 0 && b & 2u8 != 0),
        (c & a & b) & 4u8 != 0 ==> (c & 4u8 != 0 && a & 4u8 != 0 && b & 4u8 != 0),
        (c & a & b) & 8u8 != 0 ==> (c & 8u8 != 0 && a & 8u8 != 0 && b & 8u8 != 0),
        0xFDu8 & 2u8 == 0,
        0xFCu8 & 1u8 == 0,
        0xFCu8 & 2u8 == 0,
        0xFEu8 & 1u8 == 0,
        0xF7u8 & 8u8 == 0,
        0xF3u8 & 4u8 == 0,
        0xF3u8 & 8u8 == 0,
        0xFBu8 & 4u8 == 0,
{
}

/// Castling rights and the en-passant square stay well formed after a fitting move.
proof fn lemma_rights_after(p: Position, m: Move, q: Position)
    requires
        p.wf(),
        move_fits(p, m),
        q.board@ == board_after(p, m),
        q.side == p.side.opposite(),
        q.castling == p.castling & castling_mask_spec(m.from_spec()) & castling_mask_spec(
            m.to_spec(),
        ),
        q.ep_sq == (if m.flags_spec() == 1 {
            behind(p.side, m.to_spec()) as u8
        } else {
            NO_SQ
        }),
    ensures
        q.castling_ok(),
        q.ep_ok(),
{
    lemma_move_ranges(m);
    let f = m.from_spec();
    let t = m.to_spec();
    let us = p.side;
    let land = landing_piece(p, m);
    let (rf, rt) = castle_rook_squares(us, m);
    let v = behind(us, t);
    assert(p.board@.len() == 64);
    let b1 = p.board@.update(f, None).update(t, Some(land));
    let b2 = if m.ep_spec() {
        b1.update(v, None)
    } else {
        b1
    };
    lemma_rights_bits(p.castling, castling_mask_spec(f), castling_mask_spec(t));
    // a square the move does not start or end on, and that is not the pawn taken
    // en passant, keeps its piece unless it is the castling rook's origin
    assert forall|sq: int|
        0 <= sq < 64 && sq != f && sq != t && !(m.ep_spec() && sq == v) implies (
        #[trigger] q.board@[sq] == p.board@[sq] || (m.castle_spec() && sq == rf && q.board@[sq] is None)
            || (m.castle_spec() && sq == rt)) by {
        assert(b1[sq] == p.board@[sq]);
        assert(b2[sq] == p.board@[sq]);
    }
    if q.castling & 1u8 != 0 {
        assert(p.home_ok(4, 7, Color::White));
        assert(f != 4 && t != 4 && f != 7 && t != 7);
        assert(!(m.ep_spec() && (v == 4 || v == 7)));
        assert(q.home_ok(4, 7, Color::White));
    }
    if q.castling & 2u8 != 0 {
        assert(p.home_ok(4, 0, Color::White));
        assert(f != 4 && t != 4 && f != 0 && t != 0);
        assert(!(m.ep_spec() && (v == 4 || v == 0)));
        assert(q.home_ok(4, 0, Color::White));
    }
    if q.castling & 4u8 != 0 {
        assert(p.home_ok(60, 63, Color::Black));
        assert(f != 60 && t != 60 && f != 63 && t != 63);
        assert(!(m.ep_spec() && (v == 60 || v == 63)));
        assert(q.home_ok(60, 63, Color::Black));
    }
    if q.castling & 8u8 != 0 {
        assert(p.home_ok(60, 56, Color::Black));
        assert(f != 60 && t != 60 && f != 56 && t != 56);
        assert(!(m.ep_spec() && (v == 60 || v == 56)));
        assert(q.home_ok(60, 56, Color::Black));
    }
    if m.flags_spec() == 1 {
        assert(b1[v] is None);
        assert(q.board@[v] is None);
        assert(behind(q.side, v) == t);
        assert(q.board@[t] == Some(land));
    }
}

pub fn make_move(pos: &mut Position, mv: Move) -> (undo: Undo)
    requires
        old(pos).wf(),
        move_fits(*old(pos), mv),
        old(pos).halfmove_clock < u32::MAX,
        old(pos).fullmove < u32::MAX,
    ensures
        made(*old(pos), mv, *final(pos)),
        undo == undo_of(*old(pos), mv),
{
    let ghost p0 = *pos;
    let from = mv.from_sq();
    let to = mv.to_sq();
    let us = pos.side.index();
    let them = 1 - us;

    let undo = Undo {
        castling: pos.castling,
        ep_sq: pos.ep_sq,
        halfmove_clock: pos.halfmove_clock,
        hash: pos.hash,
        captured: pos.board[to as usize],
    };

    // Clear old EP key
    if pos.ep_sq != NO_SQ {
        let ghost p = *pos;
        pos.hash = pos.hash ^ zobrist::ep_key(pos.ep_sq % 8);
        pos.ep_sq = NO_SQ;
        proof {
            lemma_xor6(0, 0, 0, 0, p.hash ^ ep_hash(p.ep_sq), 0);
            lemma_hash_ep_step(p, *pos);
        }
    }
    let ghost p1 = *pos;

    let moving = pos.board[from as usize].unwrap();
    relocate(pos, mv);
    proof {
        lemma_kings_after(p0, mv, *pos);
    }
    let ghost p_rel = *pos;

    // Double pawn push sets EP square
    if mv.flags() == FLAG_DOUBLE_PUSH {
        let ghost p = *pos;
        pos.ep_sq = if us == 0 {
            to - 8
        } else {
            to + 8
        };
        pos.hash = pos.hash ^ zobrist::ep_key(pos.ep_sq % 8);
        proof {
            lemma_xor6(0, 0, 0, 0, 0, p.hash);
            lemma_hash_ep_step(p, *pos);
        }
    }
    // Update castling rights
    let ghost p6 = *pos;
    pos.hash = pos.hash ^ zobrist::castling_key(pos.castling);
    update_castling(pos, from, to);
    pos.hash = pos.hash ^ zobrist::castling_key(pos.castling);
    proof {
        lemma_hash_castling_step(p6, *pos);
    }

    // Halfmove clock
    if moving.kind == PieceType::Pawn || mv.is_capture() {
        pos.halfmove_clock = 0;
    } else {
        pos.halfmove_clock = pos.halfmove_clock + 1;
    }

    if us == 1 {
        pos.fullmove = pos.fullmove + 1;
    }

    let ghost p7 = *pos;
    pos.side = pos.side.flip();
    pos.hash = pos.hash ^ zobrist::side_key();
    proof {
        assert(side_hash(p7.side) ^ side_hash(pos.side) == zkey(768)) by {
            lemma_xor_facts(0, zkey(768), 0);
            lemma_xor_facts(zkey(768), 0, 0);
        }
        lemma_xor_facts(p7.hash, side_hash(p7.side), side_hash(pos.side));
        lemma_hash_side_step(p7, *pos);
        assert(pos.board@ =~= board_after(p0, mv));
        lemma_rights_after(p0, mv, *pos);
    }
    undo
}

/// The piece that stood on the origin square before the move, given the
/// position after it.
pub open spec fn piece_before_move(p: Position, m: Move) -> Piece {
    let l = p.board@[m.to_spec()]->0;
    if m.promo_spec() {
        Piece { kind: PieceType::Pawn, color: l.color }
    } else {
        l
    }
}

/// The board before the move, given the board after it and the undo record.
pub open spec fn board_before(p: Position, m: Move, u: Undo) -> Seq<Option<Piece>> {
    let f = m.from_spec();
    let t = m.to_spec();
    let us = p.side.opposite();
    let b1 = p.board@.update(t, None).update(f, Some(piece_before_move(p, m)));
    let b2 = if m.capture_spec() && !m.ep_spec() && u.captured is Some {
        b1.update(t, u.captured)
    } else {
        b1
    };
    let b3 = if m.ep_spec() {
        b2.update(behind(us, t), Some(Piece { kind: PieceType::Pawn, color: us.opposite() }))
    } else {
        b2
    };
    if m.castle_spec() {
        let (rf, rt) = castle_rook_squares(us, m);
        if b3[rt] is Some {
            b3.update(rt, None).update(rf, b3[rt])
        } else {
            b3
        }
    } else {
        b3
    }
}

/// What `unmake_move` requires of the position it takes a move back from.
pub open spec fn unmake_fits(p: Position, m: Move, u: Undo) -> bool {
    let f = m.from_spec();
    let t = m.to_spec();
    let us = p.side.opposite();
    &&& p.consistent()
    &&& p.board@[t] is Some
    &&& p.board@[t]->0.color == us
    &&& p.board@[f] is None
    &&& (m.capture_spec() && !m.ep_spec() && u.captured is Some) ==> u.captured->0.color
        == us.opposite()
    &&& m.ep_spec() ==> (0 <= behind(us, t) < 64 && behind(us, t) != f && p.board@[behind(
        us,
        t,
    )] is None)
    &&& m.castle_spec() ==> {
        let (rf, rt) = castle_rook_squares(us, m);
        &&& rf != f && rf != t && rt != f && rt != t
        &&& p.board@[rt] is Some ==> (p.board@[rt]->0.color == us && p.board@[rf] is None)
    }
    &&& us == Color::Black ==> p.fullmove > 0
}

/// `q` is `p` with move `m` taken back using undo record `u`.
pub open spec fn unmade(p: Position, m: Move, u: Undo, q: Position) -> bool {
    &&& q.consistent()
    &&& q.board@ == board_before(p, m, u)
    &&& q.side == p.side.opposite()
    &&& q.castling == u.castling
    &&& q.ep_sq == u.ep_sq
    &&& q.halfmove_clock == u.halfmove_clock
    &&& q.hash == u.hash
    &&& q.fullmove == (if q.side == Color::Black {
        p.fullmove - 1
    } else {
        p.fullmove as int
    })
    &&& q.king_sq@ == (if piece_before_move(p, m).kind == PieceType::King {
        p.king_sq@.update(q.side.idx(), m.from_spec() as u8)
    } else {
        p.king_sq@
    })
}

pub fn unmake_move(pos: &mut Position, mv: Move, undo: Undo)
    requires
        unmake_fits(*old(pos), mv, undo),
    ensures
        unmade(*old(pos), mv, undo, *final(pos)),
{
    let ghost p0 = *pos;
    proof {
        lemma_move_ranges(mv);
    }
    pos.side = pos.side.flip();
    let us = pos.side.index();

    let from = mv.from_sq();
    let to = mv.to_sq();

    let landing = pos.board[to as usize].unwrap();

    // Move piece back
    take(pos, to);
    // If promotion, restore pawn
    let restored = if mv.is_promotion() {
        Piece::new(PieceType::Pawn, landing.color)
    } else {
        landing
    };
    put(pos, from, restored);
    if restored.kind == PieceType::King {
        pos.king_sq[us] = from;
    }
    let ghost p1 = *pos;
    assert(p1.board@ =~= p0.board@.update(to as int, None).update(
        from as int,
        Some(piece_before_move(p0, mv)),
    ));

    // Restore capture
    if mv.is_capture() && !mv.is_ep() {
        if let Some(captured) = undo.captured {
            put(pos, to, captured);
        }
    }
    // Restore EP captured pawn
    if mv.is_ep() {
        let ep_pawn_sq = if us == 0 {
            to - 8
        } else {
            to + 8
        };
        let their_pawn = Piece::new(PieceType::Pawn, pos.side.flip());
        put(pos, ep_pawn_sq, their_pawn);
    }
    // Undo castling
    if mv.flags() == FLAG_CASTLE_K {
        let (rook_from, rook_to) = if us == 0 {
            (7u8, 5u8)
        } else {
            (63u8, 61u8)
        };
        move_piece(pos, rook_to, rook_from, us);
    } else if mv.flags() == FLAG_CASTLE_Q {
        let (rook_from, rook_to) = if us == 0 {
            (0u8, 3u8)
        } else {
            (56u8, 59u8)
        };
        move_piece(pos, rook_to, rook_from, us);
    }

    pos.castling = undo.castling;
    pos.ep_sq = undo.ep_sq;
    pos.halfmove_clock = undo.halfmove_clock;
    pos.hash = undo.hash;

    if us == 1 {
        pos.fullmove = pos.fullmove - 1;
    }
}

/// Two consistent positions with the same board have the same bitboards.
pub proof fn lemma_same_board_same_bitboards(a: Position, b: Position)
    requires
        a.consistent(),
        b.consistent(),
        a.board@ == b.board@,
    ensures
        a.pieces == b.pieces,
        a.occupancy == b.occupancy,
{
    assert forall|i: int| 0 <= i < 12 implies a.pieces[i] == b.pieces[i] by {
        assert forall|sq: int| #[trigger] a.pieces@[i].has(sq) == b.pieces@[i].has(sq) by {
            if 0 <= sq < 64 {
                assert(a.pieces@[i].has(sq) <==> a.board@[sq] == Some(piece_of_index(i)));
                assert(b.pieces@[i].has(sq) <==> b.board@[sq] == Some(piece_of_index(i)));
            }
        }
        lemma_bits_extensional(a.pieces@[i].0, b.pieces@[i].0);
    }
    assert(a.pieces =~= b.pieces);
    assert forall|c: int| 0 <= c < 2 implies a.occupancy[c] == b.occupancy[c] by {
        assert forall|sq: int| #[trigger] a.occupancy@[c].has(sq) == b.occupancy@[c].has(sq) by {
            if 0 <= sq < 64 {
                assert(a.occupancy@[c].has(sq) <==> (a.board@[sq] is Some
                    && a.board@[sq]->0.color.idx() == c));
                assert(b.occupancy@[c].has(sq) <==> (b.board@[sq] is Some
                    && b.board@[sq]->0.color.idx() == c));
            }
        }
        lemma_bits_extensional(a.occupancy@[c].0, b.occupancy@[c].0);
    }
    assert(a.occupancy =~= b.occupancy);
}

/// A move made by `make_move` can always be handed to `unmake_move`.
pub proof fn lemma_unmake_fits_after_make(p: Position, m: Move, q: Position)
    requires
        p.wf(),
        move_fits(p, m),
        made(p, m, q),
    ensures
        unmake_fits(q, m, undo_of(p, m)),
{
    lemma_move_ranges(m);
    let f = m.from_spec();
    let t = m.to_spec();
    let us = p.side;
    let land = landing_piece(p, m);
    let (rf, rt) = castle_rook_squares(us, m);
    let v = behind(us, t);
    assert(p.board@.len() == 64);
    let b1 = p.board@.update(f, None).update(t, Some(land));
    let b2 = if m.ep_spec() {
        b1.update(v, None)
    } else {
        b1
    };
    assert(q.side.opposite() == us);
    assert(q.board@[t] == Some(land));
    assert(q.board@[f] is None);
    if m.ep_spec() {
        assert(v != f);
        assert(q.board@[v] is None);
    }
    if m.castle_spec() {
        if b2[rf] is Some {
            assert(q.board@[rt] == p.board@[rf]);
            assert(q.board@[rf] is None);
        } else {
            assert(q.board@[rt] == b2[rt]);
            assert(b2[rt] is None);
        }
    }
}

/// A made move leaves a well-formed position whose incrementally kept hash is
/// the hash computed from scratch.
pub proof fn lemma_made_keeps_valid(p: Position, m: Move, q: Position)
    requires
        made(p, m, q),
    ensures
        q.wf(),
        q.hash == q.full_hash(),
{
}

/// Taking back a move restores exactly the position it was made from.
pub proof fn lemma_unmake_restores(p: Position, m: Move, q: Position, r: Position)
    requires
        p.wf(),
        move_fits(p, m),
        made(p, m, q),
        unmade(q, m, undo_of(p, m), r),
    ensures
        r == p,
{
    lemma_move_ranges(m);
    let f = m.from_spec();
    let t = m.to_spec();
    let us = p.side;
    let u = undo_of(p, m);
    let land = landing_piece(p, m);
    let mover = moving_piece(p, m);
    let (rf, rt) = castle_rook_squares(us, m);
    let v = behind(us, t);
    assert(p.board@.len() == 64);
    assert(q.side.opposite() == us);
    assert(piece_before_move(q, m) == mover);
    // the board comes back
    let a1 = p.board@.update(f, None).update(t, Some(land));
    let a2 = if m.ep_spec() {
        a1.update(v, None)
    } else {
        a1
    };
    let c1 = q.board@.update(t, None).update(f, Some(mover));
    let c2 = if m.capture_spec() && !m.ep_spec() && u.captured is Some {
        c1.update(t, u.captured)
    } else {
        c1
    };
    let c3 = if m.ep_spec() {
        c2.update(v, Some(Piece { kind: PieceType::Pawn, color: us.opposite() }))
    } else {
        c2
    };
    assert forall|sq: int| 0 <= sq < 64 implies #[trigger] r.board@[sq] == p.board@[sq] by {
        if m.castle_spec() {
            if a2[rf] is Some {
                assert(q.board@[rt] == a2[rf]);
                assert(c3[rt] == q.board@[rt]);
                assert(c3[rf] == q.board@[rf]);
                assert(q.board@[rf] is None);
            } else {
                assert(q.board@[rt] == a2[rt]);
                assert(c3[rt] == q.board@[rt]);
            }
        }
    }
    assert(r.board@ =~= p.board@);
    assert(r.board =~= p.board);
    lemma_same_board_same_bitboards(r, p);
    // the king square comes back
    if mover.kind == PieceType::King {
        let k = Piece { kind: PieceType::King, color: color_of_index(us.idx()) };
        assert(p.board@[f] == Some(k));
        assert(f == p.king_sq@[us.idx()]);
    }
    assert(r.king_sq@ =~= p.king_sq@);
    assert(r.king_sq =~= p.king_sq);
}

/// Undo record of a null move made on `p`.
pub open spec fn null_undo_of(p: Position) -> Undo {
    Undo {
        castling: p.castling,
        ep_sq: p.ep_sq,
        halfmove_clock: p.halfmove_clock,
        hash: p.hash,
        captured: None,
    }
}

/// Passes the turn: the side to move flips and the en-passant square is cleared.
pub fn make_null_move(pos: &mut Position) -> (undo: Undo)
    requires
        old(pos).wf(),
    ensures
        final(pos).wf(),
        final(pos).board == old(pos).board,
        final(pos).pieces == old(pos).pieces,
        final(pos).occupancy == old(pos).occupancy,
        final(pos).side == old(pos).side.opposite(),
        final(pos).ep_sq == NO_SQ,
        final(pos).castling == old(pos).castling,
        final(pos).halfmove_clock == old(pos).halfmove_clock,
        final(pos).fullmove == old(pos).fullmove,
        final(pos).king_sq == old(pos).king_sq,
        undo == null_undo_of(*old(pos)),
{
    let undo = Undo {
        castling: pos.castling,
        ep_sq: pos.ep_sq,
        halfmove_clock: pos.halfmove_clock,
        hash: pos.hash,
        captured: None,
    };
    if pos.ep_sq != NO_SQ {
        let ghost p = *pos;
        pos.hash = pos.hash ^ zobrist::ep_key(pos.ep_sq % 8);
        pos.ep_sq = NO_SQ;
        proof {
            lemma_xor6(0, 0, 0, 0, p.hash ^ ep_hash(p.ep_sq), 0);
            lemma_hash_ep_step(p, *pos);
        }
    }
    let ghost p7 = *pos;
    pos.side = pos.side.flip();
    pos.hash = pos.hash ^ zobrist::side_key();
    proof {
        assert(side_hash(p7.side) ^ side_hash(pos.side) == zkey(768)) by {
            lemma_xor_facts(0, zkey(768), 0);
            lemma_xor_facts(zkey(768), 0, 0);
        }
        lemma_xor_facts(p7.hash, side_hash(p7.side), side_hash(pos.side));
        lemma_hash_side_step(p7, *pos);
    }
    undo
}

/// Takes back a null move.
pub fn unmake_null_move(pos: &mut Position, undo: Undo)
    ensures
        final(pos).board == old(pos).board,
        final(pos).pieces == old(pos).pieces,
        final(pos).occupancy == old(pos).occupancy,
        final(pos).side == old(pos).side.opposite(),
        final(pos).ep_sq == undo.ep_sq,
        final(pos).hash == undo.hash,
        final(pos).castling == old(pos).castling,
        final(pos).halfmove_clock == old(pos).halfmove_clock,
        final(pos).fullmove == old(pos).fullmove,
        final(pos).king_sq == old(pos).king_sq,
{
    pos.side = pos.side.flip();
    pos.ep_sq = undo.ep_sq;
    pos.hash = undo.hash;
}

/// Taking back a null move restores the position exactly.
pub proof fn lemma_unmake_null_restores(p: Position, q: Position, r: Position)
    requires
        q.board == p.board,
        q.pieces == p.pieces,
        q.occupancy == p.occupancy,
        q.side == p.side.opposite(),
        q.castling == p.castling,
        q.halfmove_clock == p.halfmove_clock,
        q.fullmove == p.fullmove,
        q.king_sq == p.king_sq,
        r.board == q.board,
        r.pieces == q.pieces,
        r.occupancy == q.occupancy,
        r.side == q.side.opposite(),
        r.ep_sq == p.ep_sq,
        r.hash == p.hash,
        r.castling == q.castling,
        r.halfmove_clock == q.halfmove_clock,
        r.fullmove == q.fullmove,
        r.king_sq == q.king_sq,
    ensures
        r == p,
{
}

/// The move starts or ends on square `sq`.
pub open spec fn touches(m: Move, sq: int) -> bool {
    m.from_spec() == sq || m.to_spec() == sq
}

proof fn lemma_right_bits(c: u8, a: u8, b: u8)
    by (bit_vector)
    ensures
        (c & a & b) & 1u8 == (if a & 1u8 != 0 && b & 1u8 != 0 { c & 1u8 } else { 0u8 }),
        (c & a & b) & 2u8 == (if a & 2u8 != 0 && b & 2u8 != 0 { c & 2u8 } else { 0u8 }),
        (c & a & b) & 4u8 == (if a & 4u8 != 0 && b & 4u8 != 0 { c & 4u8 } else { 0u8 }),
        (c & a & b) & 8u8 == (if a & 8u8 != 0 && b & 8u8 != 0 { c & 8u8 } else { 0u8 }),
{
}

proof fn lemma_mask_constants()
    by (bit_vector)
    ensures
        0xFDu8 & 1u8 != 0 && 0xFDu8 & 2u8 == 0 && 0xFDu8 & 4u8 != 0 && 0xFDu8 & 8u8 != 0,
        0xFCu8 & 1u8 == 0 && 0xFCu8 & 2u8 == 0 && 0xFCu8 & 4u8 != 0 && 0xFCu8 & 8u8 != 0,
        0xFEu8 & 1u8 == 0 && 0xFEu8 & 2u8 != 0 && 0xFEu8 & 4u8 != 0 && 0xFEu8 & 8u8 != 0,
        0xF7u8 & 1u8 != 0 && 0xF7u8 & 2u8 != 0 && 0xF7u8 & 4u8 != 0 && 0xF7u8 & 8u8 == 0,
        0xF3u8 & 1u8 != 0 && 0xF3u8 & 2u8 != 0 && 0xF3u8 & 4u8 == 0 && 0xF3u8 & 8u8 == 0,
        0xFBu8 & 1u8 != 0 && 0xFBu8 & 2u8 != 0 && 0xFBu8 & 4u8 == 0 && 0xFBu8 & 8u8 != 0,
        0xFFu8 & 1u8 != 0 && 0xFFu8 & 2u8 != 0 && 0xFFu8 & 4u8 != 0 && 0xFFu8 & 8u8 != 0,
{
}

/// Which rights a square keeps: a right is lost exactly on its own king's and
/// rook's home squares.
proof fn lemma_mask_keeps(sq: int)
    ensures
        castling_mask_spec(sq) & 1u8 != 0 <==> (sq != 4 && sq != 7),
        castling_mask_spec(sq) & 2u8 != 0 <==> (sq != 4 && sq != 0),
        castling_mask_spec(sq) & 4u8 != 0 <==> (sq != 60 && sq != 63),
        castling_mask_spec(sq) & 8u8 != 0 <==> (sq != 60 && sq != 56),
{
    lemma_mask_constants();
}

/// Each castling right outlives a move unless the move starts or ends on the
/// home square of its king or its rook, and is then lost: White king-side
/// (bit 1) with e1 and h1, White queen-side (bit 2) with e1 and a1, Black
/// king-side (bit 4) with e8 and h8, Black queen-side (bit 8) with e8 and a8.
/// Other bits of the rights are kept.
pub proof fn lemma_castling_rights_after_move(p: Position, m: Move, q: Position)
    requires
        made(p, m, q),
    ensures
        q.castling & 1u8 == (if touches(m, 4) || touches(m, 7) { 0u8 } else { p.castling & 1u8 }),
        q.castling & 2u8 == (if touches(m, 4) || touches(m, 0) { 0u8 } else { p.castling & 2u8 }),
        q.castling & 4u8 == (if touches(m, 60) || touches(m, 63) { 0u8 } else { p.castling & 4u8 }),
        q.castling & 8u8 == (if touches(m, 60) || touches(m, 56) { 0u8 } else { p.castling & 8u8 }),
{
    let f = m.from_spec();
    let t = m.to_spec();
    lemma_right_bits(p.castling, castling_mask_spec(f), castling_mask_spec(t));
    lemma_mask_keeps(f);
    lemma_mask_keeps(t);
}

} // verus!
