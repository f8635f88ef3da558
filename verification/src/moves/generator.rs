use vstd::prelude::*;

use crate::board::bitboard::{bit, Bitboard};
use crate::board::position::{
    behind, color_of_index, Color, Move, Piece, PieceType, Position, NO_SQ, CR_BK, CR_BQ, CR_WK,
    CR_WQ, FLAG_CAPTURE, FLAG_CASTLE_K, FLAG_CASTLE_Q, FLAG_DOUBLE_PUSH, FLAG_EP_CAPTURE,
    FLAG_QUIET,
};
use super::make_move::{made, move_fits, lemma_same_board_same_bitboards};
pub use super::attacks::{bishop_attacks, king_attacks, knight_attacks, rook_attacks};
use super::attacks::{
    bishop_attack, king_step, knight_step, lemma_bishop_symmetric, lemma_ray_not_origin,
    lemma_rook_symmetric, rook_attack,
};

verus! {

/// Bits of all occupied squares.
pub open spec fn occ_bits(p: Position) -> u64 {
    p.occupancy@[0].0 | p.occupancy@[1].0
}

/// The piece on `t` (of color `by`) attacks square `sq`.
pub open spec fn attacker_at(p: Position, t: int, sq: int, by: Color) -> bool {
    let occ = occ_bits(p);
    &&& 0 <= t < 64
    &&& p.board@[t] is Some
    &&& p.board@[t]->0.color == by
    &&& match p.board@[t]->0.kind {
        PieceType::Knight => knight_step(sq, t),
        PieceType::King => king_step(sq, t),
        PieceType::Bishop => bishop_attack(sq, occ, t),
        PieceType::Rook => rook_attack(sq, occ, t),
        PieceType::Queen => bishop_attack(sq, occ, t) || rook_attack(sq, occ, t),
        PieceType::Pawn => if by == Color::White {
            (sq == t + 9 && t % 8 != 7) || (sq == t + 7 && t % 8 != 0)
        } else {
            (sq + 7 == t && t % 8 != 7) || (sq + 9 == t && t % 8 != 0)
        },
    }
}

/// Square `sq` is attacked by a piece of color `by`. Sliders are found by looking
/// outward from `sq` for the first piece on each line.
pub open spec fn attacked(p: Position, sq: int, by: Color) -> bool {
    exists|t: int| #[trigger] attacker_at(p, t, sq, by)
}

/// The move with these fields, as `Move::new` encodes it.
pub open spec fn encode(f: int, t: int, fl: int) -> Move {
    Move((f as u32) | ((t as u32) << 6u32) | ((fl as u32) << 12u32))
}

pub proof fn lemma_encode_fields(f: int, t: int, fl: int)
    requires
        0 <= f < 64,
        0 <= t < 64,
        0 <= fl < 16,
    ensures
        encode(f, t, fl).from_spec() == f,
        encode(f, t, fl).to_spec() == t,
        encode(f, t, fl).flags_spec() == fl,
{
    crate::board::position::lemma_move_fields(f as u32, t as u32, fl as u32);
}

pub open spec fn own_at(p: Position, sq: int) -> bool {
    0 <= sq < 64 && p.board@[sq] is Some && p.board@[sq]->0.color == p.side
}

pub open spec fn enemy_at(p: Position, sq: int) -> bool {
    0 <= sq < 64 && p.board@[sq] is Some && p.board@[sq]->0.color != p.side
}

/// A piece move to `t` is allowed and flagged as a capture exactly when it takes.
pub open spec fn target_ok(p: Position, t: int, fl: int) -> bool {
    &&& 0 <= t < 64
    &&& !own_at(p, t)
    &&& if enemy_at(p, t) {
        fl == 4
    } else {
        fl == 0
    }
}

/// `kind` standing on `f` attacks `t` on a board with occupancy `occ`.
pub open spec fn piece_attack(kind: PieceType, f: int, t: int, occ: u64) -> bool {
    match kind {
        PieceType::Knight => knight_step(f, t),
        PieceType::Bishop => bishop_attack(f, occ, t),
        PieceType::Rook => rook_attack(f, occ, t),
        PieceType::Queen => bishop_attack(f, occ, t) || rook_attack(f, occ, t),
        PieceType::King => king_step(f, t),
        PieceType::Pawn => false,
    }
}

/// `m` is a knight, bishop, rook, queen or (non-castling) king move of the side
/// to move; for the king it starts on the tracked king square.
pub open spec fn piece_move(p: Position, m: Move, kind: PieceType) -> bool {
    let f = m.from_spec();
    let t = m.to_spec();
    let fl = m.flags_spec();
    &&& m == encode(f, t, fl)
    &&& p.board@[f] == Some(Piece { kind, color: p.side })
    &&& kind == PieceType::King ==> f == p.king_sq@[p.side.idx()]
    &&& piece_attack(kind, f, t, occ_bits(p))
    &&& target_ok(p, t, fl)
}

/// `b` extends `a`: every element of `a` is kept at its index.
pub open spec fn extends(a: Seq<Move>, b: Seq<Move>) -> bool {
    &&& a.len() <= b.len()
    &&& forall|i: int| 0 <= i < a.len() ==> #[trigger] b[i] == a[i]
}

/// No move occurs twice among the entries from `start` on.
pub open spec fn no_dup_from(v: Seq<Move>, start: int) -> bool {
    forall|i: int, j: int| start <= i < j < v.len() ==> #[trigger] v[i] != #[trigger] v[j]
}

/// No move occurs twice.
pub open spec fn no_dup(v: Seq<Move>) -> bool {
    no_dup_from(v, 0)
}

/// Order key of a move within one push: by target square, and for the
/// promotions of one pawn move queen, rook, bishop, knight.
pub open spec fn sub_key(m: Move) -> int {
    m.to_spec() * 16 + (15 - m.flags_spec())
}

/// The entries from `start` on come in strictly increasing `sub_key` order.
pub open spec fn ascending_from(v: Seq<Move>, start: int) -> bool {
    forall|i: int, j: int| start <= i < j < v.len() ==> sub_key(#[trigger] v[i]) < sub_key(#[trigger] v[j])
}

/// Appending entries that repeat neither each other nor an earlier entry keeps
/// the entries from `start` on free of repeats.
proof fn lemma_no_dup_join(before: Seq<Move>, after: Seq<Move>, start: int)
    requires
        0 <= start,
        extends(before, after),
        no_dup_from(before, start),
        no_dup_from(after, before.len() as int),
        forall|i: int, j: int|
            start <= i < before.len() <= j < after.len() ==> #[trigger] after[i] != #[trigger] after[j],
    ensures
        no_dup_from(after, start),
{
    assert forall|i: int, j: int| start <= i < j < after.len() implies #[trigger] after[i] != #[trigger] after[j] by {
        if j < before.len() {
            assert(after[i] == before[i] && after[j] == before[j]);
        }
    }
}

pub proof fn lemma_extends_contains(a: Seq<Move>, b: Seq<Move>, m: Move)
    requires
        extends(a, b),
        a.contains(m),
    ensures
        b.contains(m),
{
    let i = choose|i: int| 0 <= i < a.len() && a[i] == m;
    assert(b[i] == m);
}

pub proof fn lemma_extends_trans(a: Seq<Move>, b: Seq<Move>, c: Seq<Move>)
    requires
        extends(a, b),
        extends(b, c),
    ensures
        extends(a, c),
{
    assert forall|i: int| 0 <= i < a.len() implies #[trigger] c[i] == a[i] by {
        assert(b[i] == a[i]);
    }
}

/// Pushes a move with flag `flag` for every target square, each coming from
/// the target shifted by `off` (so `from = to + off`).
fn push_shifted(moves: &mut Vec<Move>, targets: Bitboard, off: i8, flag: u32)
    requires
        flag < 16,
        forall|t: int| #[trigger] targets.has(t) ==> 0 <= t + off < 64,
    ensures
        extends(old(moves)@, final(moves)@),
        forall|i: int|
            old(moves)@.len() <= i < final(moves)@.len() ==> {
                let m = #[trigger] final(moves)@[i];
                &&& targets.has(m.to_spec())
                &&& m == encode(m.to_spec() + off, m.to_spec(), flag as int)
            },
        forall|t: int| #[trigger] targets.has(t) ==> final(moves)@.contains(encode(t + off, t, flag as int)),
        no_dup_from(final(moves)@, old(moves)@.len() as int),
        ascending_from(final(moves)@, old(moves)@.len() as int),
{
    let ghost start = moves@;
    let mut bb = targets;
    while !bb.is_empty()
        invariant
            flag < 16,
            no_dup_from(moves@, start.len() as int),
            ascending_from(moves@, start.len() as int),
            forall|i: int| start.len() <= i < moves@.len() ==> (#[trigger] moves@[i]).flags_spec() == flag,
            forall|i: int, t: int|
                #![trigger moves@[i], bb.has(t)]
                start.len() <= i < moves@.len() && bb.has(t) ==> moves@[i].to_spec() < t,
            forall|i: int| start.len() <= i < moves@.len() ==> !bb.has(#[trigger] moves@[i].to_spec()),
            forall|t: int| #[trigger] targets.has(t) ==> 0 <= t + off < 64,
            forall|t: int| #[trigger] bb.has(t) ==> targets.has(t),
            extends(start, moves@),
            forall|i: int|
                start.len() <= i < moves@.len() ==> {
                    let m = #[trigger] moves@[i];
                    &&& targets.has(m.to_spec())
                    &&& m == encode(m.to_spec() + off, m.to_spec(), flag as int)
                },
            forall|t: int|
                #[trigger] targets.has(t) && !bb.has(t) ==> moves@.contains(
                    encode(t + off, t, flag as int),
                ),
        decreases bb.0,
    {
        let ghost before = moves@;
        let ghost bb0 = bb;
        let to = bb.pop_lsb();
        assert(targets.has(to as int));
        let from = (to as i8 + off) as u8;
        let m = Move::new(from, to, flag);
        moves.push(m);
        proof {
            crate::board::position::lemma_move_ranges(m);
            assert(m.to_spec() == to);
            assert(m.flags_spec() == flag);
            assert forall|i: int| start.len() <= i < moves@.len() implies (#[trigger] moves@[i]).flags_spec()
                == flag by {
                if i < moves@.len() - 1 {
                    assert(moves@[i] == before[i]);
                }
            }
            assert forall|i: int, t: int|
                #![trigger moves@[i], bb.has(t)]
                start.len() <= i < moves@.len() && bb.has(t) implies moves@[i].to_spec() < t by {
                assert(bb0.has(t) && t != to as int);
                if i < moves@.len() - 1 {
                    assert(moves@[i] == before[i]);
                }
            }
            assert forall|i: int, j: int| start.len() <= i < j < moves@.len() implies sub_key(
                #[trigger] moves@[i],
            ) < sub_key(#[trigger] moves@[j]) by {
                assert(moves@[i] == before[i]);
                if j == moves@.len() - 1 {
                    assert(before[i].to_spec() < to);
                } else {
                    assert(moves@[j] == before[j]);
                }
            }
            assert forall|i: int| start.len() <= i < moves@.len() implies !bb.has(#[trigger] moves@[i].to_spec()) by {
                if i < moves@.len() - 1 {
                    assert(moves@[i] == before[i]);
                }
            }
            assert forall|i: int, j: int| start.len() <= i < j < moves@.len() implies #[trigger] moves@[i]
                != #[trigger] moves@[j] by {
                assert(moves@[i] == before[i]);
                if j == moves@.len() - 1 {
                    assert(!bb0.has(before[i].to_spec()));
                } else {
                    assert(moves@[j] == before[j]);
                }
            }
            assert(moves@[moves@.len() - 1] == m);
            assert forall|t: int| #[trigger] targets.has(t) && !bb.has(t) implies moves@.contains(
                encode(t + off, t, flag as int),
            ) by {
                if t == to {
                    assert(moves@[moves@.len() - 1] == encode(t + off, t, flag as int));
                } else {
                    lemma_extends_contains(before, moves@, encode(t + off, t, flag as int));
                }
            }
        }
    }
}

/// Pushes a move from `from` with flag `flag` to every target square.
fn push_from(moves: &mut Vec<Move>, from: u8, targets: Bitboard, flag: u32)
    requires
        from < 64,
        flag < 16,
    ensures
        extends(old(moves)@, final(moves)@),
        forall|i: int|
            old(moves)@.len() <= i < final(moves)@.len() ==> {
                let m = #[trigger] final(moves)@[i];
                &&& targets.has(m.to_spec())
                &&& m == encode(from as int, m.to_spec(), flag as int)
            },
        forall|t: int| #[trigger] targets.has(t) ==> final(moves)@.contains(
            encode(from as int, t, flag as int),
        ),
        no_dup_from(final(moves)@, old(moves)@.len() as int),
        ascending_from(final(moves)@, old(moves)@.len() as int),
{
    let ghost start = moves@;
    let mut bb = targets;
    while !bb.is_empty()
        invariant
            from < 64,
            flag < 16,
            no_dup_from(moves@, start.len() as int),
            ascending_from(moves@, start.len() as int),
            forall|i: int| start.len() <= i < moves@.len() ==> (#[trigger] moves@[i]).flags_spec() == flag,
            forall|i: int, t: int|
                #![trigger moves@[i], bb.has(t)]
                start.len() <= i < moves@.len() && bb.has(t) ==> moves@[i].to_spec() < t,
            forall|i: int| start.len() <= i < moves@.len() ==> !bb.has(#[trigger] moves@[i].to_spec()),
            forall|t: int| #[trigger] bb.has(t) ==> targets.has(t),
            extends(start, moves@),
            forall|i: int|
                start.len() <= i < moves@.len() ==> {
                    let m = #[trigger] moves@[i];
                    &&& targets.has(m.to_spec())
                    &&& m == encode(from as int, m.to_spec(), flag as int)
                },
            forall|t: int|
                #[trigger] targets.has(t) && !bb.has(t) ==> moves@.contains(
                    encode(from as int, t, flag as int),
                ),
        decreases bb.0,
    {
        let ghost before = moves@;
        let ghost bb0 = bb;
        let to = bb.pop_lsb();
        let m = Move::new(from, to, flag);
        moves.push(m);
        proof {
            assert(m.to_spec() == to);
            assert(m.flags_spec() == flag);
            assert forall|i: int| start.len() <= i < moves@.len() implies (#[trigger] moves@[i]).flags_spec()
                == flag by {
                if i < moves@.len() - 1 {
                    assert(moves@[i] == before[i]);
                }
            }
            assert forall|i: int, t: int|
                #![trigger moves@[i], bb.has(t)]
                start.len() <= i < moves@.len() && bb.has(t) implies moves@[i].to_spec() < t by {
                assert(bb0.has(t) && t != to as int);
                if i < moves@.len() - 1 {
                    assert(moves@[i] == before[i]);
                }
            }
            assert forall|i: int, j: int| start.len() <= i < j < moves@.len() implies sub_key(
                #[trigger] moves@[i],
            ) < sub_key(#[trigger] moves@[j]) by {
                assert(moves@[i] == before[i]);
                if j == moves@.len() - 1 {
                    assert(before[i].to_spec() < to);
                } else {
                    assert(moves@[j] == before[j]);
                }
            }
            assert forall|i: int| start.len() <= i < moves@.len() implies !bb.has(#[trigger] moves@[i].to_spec()) by {
                if i < moves@.len() - 1 {
                    assert(moves@[i] == before[i]);
                }
            }
            assert forall|i: int, j: int| start.len() <= i < j < moves@.len() implies #[trigger] moves@[i]
                != #[trigger] moves@[j] by {
                assert(moves@[i] == before[i]);
                if j == moves@.len() - 1 {
                    assert(!bb0.has(before[i].to_spec()));
                } else {
                    assert(moves@[j] == before[j]);
                }
            }
            assert(moves@[moves@.len() - 1] == m);
            assert forall|t: int| #[trigger] targets.has(t) && !bb.has(t) implies moves@.contains(
                encode(from as int, t, flag as int),
            ) by {
                if t == to {
                    assert(moves@[moves@.len() - 1] == encode(from as int, t, flag as int));
                } else {
                    lemma_extends_contains(before, moves@, encode(from as int, t, flag as int));
                }
            }
        }
    }
}

pub open spec fn promo_flag(fl: int, capture: bool) -> bool {
    if capture {
        12 <= fl < 16
    } else {
        8 <= fl < 12
    }
}

proof fn lemma_promo_flags()
    by (bit_vector)
    ensures
        8u32 | 3u32 == 11u32,
        8u32 | 2u32 == 10u32,
        8u32 | 1u32 == 9u32,
        8u32 | 0u32 == 8u32,
        12u32 | 3u32 == 15u32,
        12u32 | 2u32 == 14u32,
        12u32 | 1u32 == 13u32,
        12u32 | 0u32 == 12u32,
{
}

/// Pushes the four promotions (queen, rook, bishop, knight) of a pawn move.
fn push_promotions(moves: &mut Vec<Move>, from: u8, to: u8, capture: bool)
    requires
        from < 64,
        to < 64,
    ensures
        extends(old(moves)@, final(moves)@),
        forall|i: int|
            old(moves)@.len() <= i < final(moves)@.len() ==> {
                let m = #[trigger] final(moves)@[i];
                &&& m.to_spec() == to
                &&& promo_flag(m.flags_spec(), capture)
                &&& m == encode(from as int, to as int, m.flags_spec())
            },
        forall|fl: int|
            promo_flag(fl, capture) ==> #[trigger] final(moves)@.contains(
                encode(from as int, to as int, fl),
            ),
        no_dup_from(final(moves)@, old(moves)@.len() as int),
        ascending_from(final(moves)@, old(moves)@.len() as int),
{
    let ghost start = moves@;
    proof {
        lemma_promo_flags();
    }
    let ghost base: int = if capture { 12int } else { 8int };
    moves.push(Move::new_promo(from, to, PieceType::Queen, capture));
    moves.push(Move::new_promo(from, to, PieceType::Rook, capture));
    moves.push(Move::new_promo(from, to, PieceType::Bishop, capture));
    moves.push(Move::new_promo(from, to, PieceType::Knight, capture));
    proof {
        let n = start.len() as int;
        assert(moves@[n] == encode(from as int, to as int, base + 3));
        assert(moves@[n + 1] == encode(from as int, to as int, base + 2));
        assert(moves@[n + 2] == encode(from as int, to as int, base + 1));
        assert(moves@[n + 3] == encode(from as int, to as int, base));
        lemma_encode_fields(from as int, to as int, base + 3);
        lemma_encode_fields(from as int, to as int, base + 2);
        lemma_encode_fields(from as int, to as int, base + 1);
        lemma_encode_fields(from as int, to as int, base);
        assert forall|fl: int| promo_flag(fl, capture) implies #[trigger] moves@.contains(
            encode(from as int, to as int, fl),
        ) by {
            assert(moves@[n + base + 3 - fl] == encode(from as int, to as int, fl));
        }
        assert forall|i: int, j: int| n <= i < j < moves@.len() implies #[trigger] moves@[i]
            != #[trigger] moves@[j] by {
            assert(moves@[i].flags_spec() == base + 3 - (i - n));
            assert(moves@[j].flags_spec() == base + 3 - (j - n));
        }
        assert forall|i: int, j: int| n <= i < j < moves@.len() implies sub_key(#[trigger] moves@[i])
            < sub_key(#[trigger] moves@[j]) by {
            assert(moves@[i].flags_spec() == base + 3 - (i - n));
            assert(moves@[j].flags_spec() == base + 3 - (j - n));
        }
    }
}

/// For every target square, pushes the four promotions of the pawn move coming
/// from the target shifted by `off`.
fn push_promo_shifted(moves: &mut Vec<Move>, targets: Bitboard, off: i8, capture: bool)
    requires
        forall|t: int| #[trigger] targets.has(t) ==> 0 <= t + off < 64,
    ensures
        extends(old(moves)@, final(moves)@),
        forall|i: int|
            old(moves)@.len() <= i < final(moves)@.len() ==> {
                let m = #[trigger] final(moves)@[i];
                &&& targets.has(m.to_spec())
                &&& promo_flag(m.flags_spec(), capture)
                &&& m == encode(m.to_spec() + off, m.to_spec(), m.flags_spec())
            },
        forall|t: int, fl: int|
            #[trigger] targets.has(t) && #[trigger] promo_flag(fl, capture)
                ==> final(moves)@.contains(encode(t + off, t, fl)),
        no_dup_from(final(moves)@, old(moves)@.len() as int),
        ascending_from(final(moves)@, old(moves)@.len() as int),
{
    let ghost start = moves@;
    let mut bb = targets;
    while !bb.is_empty()
        invariant
            no_dup_from(moves@, start.len() as int),
            ascending_from(moves@, start.len() as int),
            forall|i: int, t: int|
                #![trigger moves@[i], bb.has(t)]
                start.len() <= i < moves@.len() && bb.has(t) ==> moves@[i].to_spec() < t,
            forall|i: int| start.len() <= i < moves@.len() ==> !bb.has(#[trigger] moves@[i].to_spec()),
            forall|t: int| #[trigger] targets.has(t) ==> 0 <= t + off < 64,
            forall|t: int| #[trigger] bb.has(t) ==> targets.has(t),
            extends(start, moves@),
            forall|i: int|
                start.len() <= i < moves@.len() ==> {
                    let m = #[trigger] moves@[i];
                    &&& targets.has(m.to_spec())
                    &&& promo_flag(m.flags_spec(), capture)
                    &&& m == encode(m.to_spec() + off, m.to_spec(), m.flags_spec())
                },
            forall|t: int, fl: int|
                #[trigger] targets.has(t) && !bb.has(t) && #[trigger] promo_flag(fl, capture)
                    ==> moves@.contains(encode(t + off, t, fl)),
        decreases bb.0,
    {
        let ghost before = moves@;
        let ghost bb0 = bb;
        let to = bb.pop_lsb();
        assert(targets.has(to as int));
        let from = (to as i8 + off) as u8;
        push_promotions(moves, from, to, capture);
        proof {
            lemma_extends_trans(start, before, moves@);
            assert forall|i: int| start.len() <= i < moves@.len() implies !bb.has(#[trigger] moves@[i].to_spec()) by {
                if i < before.len() {
                    assert(moves@[i] == before[i]);
                }
            }
            assert forall|i: int, j: int|
                start.len() <= i < before.len() <= j < moves@.len() implies #[trigger] moves@[i]
                != #[trigger] moves@[j] by {
                assert(moves@[i] == before[i]);
                assert(!bb0.has(before[i].to_spec()));
            }
            lemma_no_dup_join(before, moves@, start.len() as int);
            assert forall|i: int, j: int| start.len() <= i < j < moves@.len() implies sub_key(
                #[trigger] moves@[i],
            ) < sub_key(#[trigger] moves@[j]) by {
                if j < before.len() {
                    assert(moves@[i] == before[i] && moves@[j] == before[j]);
                } else if i < before.len() {
                    assert(moves@[i] == before[i]);
                    assert(before[i].to_spec() < to);
                    crate::board::position::lemma_move_ranges(moves@[i]);
                    crate::board::position::lemma_move_ranges(moves@[j]);
                }
            }
            assert forall|i: int, t: int|
                #![trigger moves@[i], bb.has(t)]
                start.len() <= i < moves@.len() && bb.has(t) implies moves@[i].to_spec() < t by {
                assert(bb0.has(t) && t != to as int);
                if i < before.len() {
                    assert(moves@[i] == before[i]);
                }
            }
            assert forall|t: int, fl: int|
                #[trigger] targets.has(t) && !bb.has(t) && #[trigger] promo_flag(fl, capture)
                    implies moves@.contains(encode(t + off, t, fl)) by {
                if t != to {
                    lemma_extends_contains(before, moves@, encode(t + off, t, fl));
                }
            }
        }
    }
}

/// Moves of every `kind` piece (knight, bishop, rook or queen) of the side to
/// move; only captures when `captures_only`.
fn gen_piece_moves(pos: &Position, moves: &mut Vec<Move>, kind: PieceType, captures_only: bool)
    requires
        pos.consistent(),
        kind != PieceType::Pawn,
        kind != PieceType::King,
    ensures
        extends(old(moves)@, final(moves)@),
        forall|i: int|
            old(moves)@.len() <= i < final(moves)@.len() ==> piece_move(
                *pos,
                #[trigger] final(moves)@[i],
                kind,
            ) && (captures_only ==> final(moves)@[i].flags_spec() == 4),
        forall|m: Move|
            piece_move(*pos, m, kind) && (captures_only ==> m.flags_spec() == 4)
                ==> #[trigger] final(moves)@.contains(m),
        no_dup_from(final(moves)@, old(moves)@.len() as int),
{
    let ghost start = moves@;
    let us = pos.side.index();
    let them = 1 - us;
    let our_occ = pos.occupancy[us];
    let their_occ = pos.occupancy[them];
    let all = pos.all_occupancy();
    let idx = kind.index() * 2 + us;
    let ghost pieces = pos.pieces[idx as int];
    proof {
        assert(crate::board::position::piece_of_index(idx as int) == Piece {
            kind,
            color: pos.side,
        });
    }
    let mut bb = pos.pieces[idx];
    proof {
        assert forall|m: Move|
            piece_move(*pos, m, kind) && (captures_only ==> m.flags_spec() == 4) && !bb.has(
                m.from_spec(),
            ) implies #[trigger] moves@.contains(m) by {
            crate::board::position::lemma_move_ranges(m);
        }
    }
    while !bb.is_empty()
        invariant
            pos.consistent(),
            kind != PieceType::Pawn,
            kind != PieceType::King,
            us == pos.side.idx(),
            them == 1 - us,
            our_occ == pos.occupancy[us as int],
            their_occ == pos.occupancy[them as int],
            all.0 == occ_bits(*pos),
            forall|t: int| #[trigger] bb.has(t) ==> pieces.has(t),
            forall|t: int|
                0 <= t < 64 ==> (#[trigger] pieces.has(t) <==> pos.board@[t] == Some(
                    Piece { kind, color: pos.side },
                )),
            extends(start, moves@),
            no_dup_from(moves@, start.len() as int),
            forall|i: int| start.len() <= i < moves@.len() ==> !bb.has(#[trigger] moves@[i].from_spec()),
            forall|i: int|
                start.len() <= i < moves@.len() ==> piece_move(*pos, #[trigger] moves@[i], kind)
                    && (captures_only ==> moves@[i].flags_spec() == 4),
            forall|m: Move|
                piece_move(*pos, m, kind) && (captures_only ==> m.flags_spec() == 4) && !bb.has(
                    m.from_spec(),
                ) ==> #[trigger] moves@.contains(m),
        decreases bb.0,
    {
        let ghost before = moves@;
        let ghost bb0 = bb;
        let from = bb.pop_lsb();
        let attacks = match kind {
            PieceType::Knight => knight_attacks(from),
            PieceType::Bishop => bishop_attacks(from, all),
            PieceType::Rook => rook_attacks(from, all),
            _ => bishop_attacks(from, all).bitor(rook_attacks(from, all)),
        };
        assert(forall|t: int| #[trigger] attacks.has(t) <==> piece_attack(kind, from as int, t, occ_bits(*pos)));
        assert(pos.board@[from as int] == Some(Piece { kind, color: pos.side }));
        if captures_only {
            let caps = attacks.bitand(their_occ);
            push_from(moves, from, caps, FLAG_CAPTURE);
            proof {
                assert forall|i: int| before.len() <= i < moves@.len() implies piece_move(
                    *pos,
                    #[trigger] moves@[i],
                    kind,
                ) && (captures_only ==> moves@[i].flags_spec() == 4) by {
                    let m = moves@[i];
                    lemma_encode_fields(from as int, m.to_spec(), 4);
                    crate::board::position::lemma_move_ranges(m);
                }
                assert forall|m: Move|
                    piece_move(*pos, m, kind) && (captures_only ==> m.flags_spec() == 4)
                        && !bb.has(m.from_spec()) implies #[trigger] moves@.contains(m) by {
                    crate::board::position::lemma_move_ranges(m);
                    if m.from_spec() == from {
                        assert(caps.has(m.to_spec()));
                    } else {
                        lemma_extends_contains(before, moves@, m);
                    }
                }
            }
        } else {
            let a = attacks.bitand(our_occ.not());
            let caps = a.bitand(their_occ);
            let quiets = a.bitand(their_occ.not());
            push_from(moves, from, caps, FLAG_CAPTURE);
            let ghost mid = moves@;
            push_from(moves, from, quiets, FLAG_QUIET);
            proof {
                lemma_extends_trans(before, mid, moves@);
                assert forall|i: int, j: int|
                    before.len() <= i < mid.len() <= j < moves@.len() implies #[trigger] moves@[i]
                    != #[trigger] moves@[j] by {
                    assert(moves@[i] == mid[i]);
                    lemma_encode_fields(from as int, mid[i].to_spec(), 4);
                    crate::board::position::lemma_move_ranges(mid[i]);
                    crate::board::position::lemma_move_ranges(moves@[j]);
                    lemma_encode_fields(from as int, moves@[j].to_spec(), 0);
                }
                lemma_no_dup_join(mid, moves@, before.len() as int);
                assert forall|i: int| before.len() <= i < moves@.len() implies piece_move(
                    *pos,
                    #[trigger] moves@[i],
                    kind,
                ) && (captures_only ==> moves@[i].flags_spec() == 4) by {
                    let m = moves@[i];
                    crate::board::position::lemma_move_ranges(m);
                    if i < mid.len() {
                        assert(mid[i] == m);
                        lemma_encode_fields(from as int, m.to_spec(), 4);
                    } else {
                        lemma_encode_fields(from as int, m.to_spec(), 0);
                    }
                }
                assert forall|m: Move|
                    piece_move(*pos, m, kind) && (captures_only ==> m.flags_spec() == 4)
                        && !bb.has(m.from_spec()) implies #[trigger] moves@.contains(m) by {
                    crate::board::position::lemma_move_ranges(m);
                    if m.from_spec() == from {
                        if enemy_at(*pos, m.to_spec()) {
                            assert(caps.has(m.to_spec()));
                            lemma_extends_contains(mid, moves@, m);
                        } else {
                            assert(quiets.has(m.to_spec()));
                        }
                    } else {
                        lemma_extends_contains(before, moves@, m);
                    }
                }
            }
        }
        proof {
            assert forall|i: int| before.len() <= i < moves@.len() implies (#[trigger] moves@[i]).from_spec()
                == from by {
                let m = moves@[i];
                crate::board::position::lemma_move_ranges(m);
                lemma_encode_fields(from as int, m.to_spec(), m.flags_spec());
            }
            assert forall|i: int, j: int|
                start.len() <= i < before.len() <= j < moves@.len() implies #[trigger] moves@[i]
                != #[trigger] moves@[j] by {
                assert(moves@[i] == before[i]);
                assert(!bb0.has(before[i].from_spec()));
                assert(moves@[j].from_spec() == from);
            }
            lemma_no_dup_join(before, moves@, start.len() as int);
            assert forall|i: int| start.len() <= i < moves@.len() implies !bb.has(#[trigger] moves@[i].from_spec()) by {
                if i < before.len() {
                    assert(moves@[i] == before[i]);
                    assert(!bb0.has(before[i].from_spec()));
                } else {
                    assert(moves@[i].from_spec() == from);
                }
            }
        }
    }
}

/// White pawn move from `f` to `t` with flags `fl`.
pub open spec fn white_pawn_move(p: Position, f: int, t: int, fl: int) -> bool {
    let occ = occ_bits(p);
    let diag = (t == f + 9 && f % 8 != 7) || (t == f + 7 && f % 8 != 0);
    ||| t == f + 8 && t < 56 && !bit(occ, t) && fl == 0
    ||| t == f + 8 && 56 <= t < 64 && !bit(occ, t) && 8 <= fl < 12
    ||| 8 <= f < 16 && t == f + 16 && !bit(occ, f + 8) && !bit(occ, t) && fl == 1
    ||| diag && enemy_at(p, t) && t < 56 && fl == 4
    ||| diag && enemy_at(p, t) && 56 <= t < 64 && 12 <= fl < 16
    ||| diag && p.ep_sq != NO_SQ && t == p.ep_sq && fl == 5
}

/// Black pawn move from `f` to `t` with flags `fl`.
pub open spec fn black_pawn_move(p: Position, f: int, t: int, fl: int) -> bool {
    let occ = occ_bits(p);
    let diag = (f == t + 7 && f % 8 != 7) || (f == t + 9 && f % 8 != 0);
    ||| f == t + 8 && 8 <= t && !bit(occ, t) && fl == 0
    ||| f == t + 8 && 0 <= t < 8 && !bit(occ, t) && 8 <= fl < 12
    ||| 48 <= f < 56 && f == t + 16 && !bit(occ, f - 8) && !bit(occ, t) && fl == 1
    ||| diag && enemy_at(p, t) && 8 <= t && fl == 4
    ||| diag && enemy_at(p, t) && 0 <= t < 8 && 12 <= fl < 16
    ||| diag && p.ep_sq != NO_SQ && t == p.ep_sq && fl == 5
}

/// A pawn move (push, double push, capture, promotion or en passant) of the
/// side to move.
pub open spec fn pawn_move(p: Position, m: Move) -> bool {
    let f = m.from_spec();
    let t = m.to_spec();
    let fl = m.flags_spec();
    &&& m == encode(f, t, fl)
    &&& p.board@[f] == Some(Piece { kind: PieceType::Pawn, color: p.side })
    &&& if p.side == Color::White {
        white_pawn_move(p, f, t, fl)
    } else {
        black_pawn_move(p, f, t, fl)
    }
}

proof fn lemma_mask_bits(i: u64)
    by (bit_vector)
    requires
        i < 64,
    ensures
        ((0xFF00000000000000u64 >> i) & 1u64 == 1u64) <==> 56 <= i,
        ((0x00000000000000FFu64 >> i) & 1u64 == 1u64) <==> i < 8,
        ((0x0000000000FF0000u64 >> i) & 1u64 == 1u64) <==> (16 <= i && i < 24),
        ((0x0000FF0000000000u64 >> i) & 1u64 == 1u64) <==> (40 <= i && i < 48),
        ((0x60u64 >> i) & 1u64 == 1u64) <==> (i == 5 || i == 6),
        ((0x0Eu64 >> i) & 1u64 == 1u64) <==> (1 <= i && i <= 3),
        ((0x6000000000000000u64 >> i) & 1u64 == 1u64) <==> (i == 61 || i == 62),
        ((0x0E00000000000000u64 >> i) & 1u64 == 1u64) <==> (57 <= i && i <= 59),
{
}

pub proof fn lemma_masks()
    ensures
        forall|i: int| #[trigger] bit(0xFF00000000000000u64, i) <==> 56 <= i < 64,
        forall|i: int| #[trigger] bit(0x00000000000000FFu64, i) <==> 0 <= i < 8,
        forall|i: int| #[trigger] bit(0x0000000000FF0000u64, i) <==> 16 <= i < 24,
        forall|i: int| #[trigger] bit(0x0000FF0000000000u64, i) <==> 40 <= i < 48,
        forall|i: int| #[trigger] bit(0x60u64, i) <==> (i == 5 || i == 6),
        forall|i: int| #[trigger] bit(0x0Eu64, i) <==> 1 <= i <= 3,
        forall|i: int| #[trigger] bit(0x6000000000000000u64, i) <==> (i == 61 || i == 62),
        forall|i: int| #[trigger] bit(0x0E00000000000000u64, i) <==> 57 <= i <= 59,
{
    assert forall|i: int| #[trigger] bit(0xFF00000000000000u64, i) <==> 56 <= i < 64 by {
        if 0 <= i < 64 {
            lemma_mask_bits(i as u64);
        }
    }
    assert forall|i: int| #[trigger] bit(0x00000000000000FFu64, i) <==> 0 <= i < 8 by {
        if 0 <= i < 64 {
            lemma_mask_bits(i as u64);
        }
    }
    assert forall|i: int| #[trigger] bit(0x0000000000FF0000u64, i) <==> 16 <= i < 24 by {
        if 0 <= i < 64 {
            lemma_mask_bits(i as u64);
        }
    }
    assert forall|i: int| #[trigger] bit(0x0000FF0000000000u64, i) <==> 40 <= i < 48 by {
        if 0 <= i < 64 {
            lemma_mask_bits(i as u64);
        }
    }
    assert forall|i: int| #[trigger] bit(0x60u64, i) <==> (i == 5 || i == 6) by {
        if 0 <= i < 64 {
            lemma_mask_bits(i as u64);
        }
    }
    assert forall|i: int| #[trigger] bit(0x0Eu64, i) <==> 1 <= i <= 3 by {
        if 0 <= i < 64 {
            lemma_mask_bits(i as u64);
        }
    }
    assert forall|i: int| #[trigger] bit(0x6000000000000000u64, i) <==> (i == 61 || i == 62) by {
        if 0 <= i < 64 {
            lemma_mask_bits(i as u64);
        }
    }
    assert forall|i: int| #[trigger] bit(0x0E00000000000000u64, i) <==> 57 <= i <= 59 by {
        if 0 <= i < 64 {
            lemma_mask_bits(i as u64);
        }
    }
}

pub open spec fn pawn_gen_ok(p: Position, m: Move, captures_only: bool) -> bool {
    pawn_move(p, m) && (captures_only ==> m.capture_spec())
}

/// Which push of the pawn generator a pawn move comes from, told by its
/// direction and kind of flag.
pub open spec fn pawn_stage(m: Move) -> int {
    let fl = m.flags_spec();
    let cls = if fl >= 12 {
        12
    } else if fl >= 8 {
        8
    } else {
        fl
    };
    let c = (m.from_spec() - m.to_spec()) * 16 + cls;
    if c == -128 || c == 128 {
        1
    } else if c == -255 || c == 257 {
        2
    } else if c == -120 || c == 136 {
        3
    } else if c == -140 || c == 116 {
        4
    } else if c == -108 || c == 148 {
        5
    } else if c == -132 || c == 124 {
        6
    } else if c == -100 || c == 156 {
        7
    } else if c == -139 || c == 117 {
        8
    } else if c == -107 || c == 149 {
        9
    } else {
        100
    }
}

/// Order of the pawn moves: by push, then within a push by target square
/// (and for promotions queen, rook, bishop, knight).
pub open spec fn pawn_key(m: Move) -> int {
    pawn_stage(m) * 1024 + sub_key(m)
}

/// The entries from `start` on come in strictly increasing `pawn_key` order.
pub open spec fn pawn_sorted_from(v: Seq<Move>, start: int) -> bool {
    forall|i: int, j: int| start <= i < j < v.len() ==> pawn_key(#[trigger] v[i]) < pawn_key(#[trigger] v[j])
}

/// Appending moves of a later pawn push keeps the pawn moves free of repeats
/// and in order.
proof fn lemma_pawn_step(before: Seq<Move>, after: Seq<Move>, start: int, k: int)
    requires
        0 <= start <= before.len(),
        extends(before, after),
        no_dup_from(before, start),
        no_dup_from(after, before.len() as int),
        pawn_sorted_from(before, start),
        ascending_from(after, before.len() as int),
        forall|i: int| start <= i < before.len() ==> pawn_stage(#[trigger] before[i]) < k,
        forall|i: int| before.len() <= i < after.len() ==> pawn_stage(#[trigger] after[i]) == k,
    ensures
        no_dup_from(after, start),
        pawn_sorted_from(after, start),
        forall|i: int| start <= i < after.len() ==> pawn_stage(#[trigger] after[i]) <= k,
{
    assert forall|i: int, j: int| start <= i < j < after.len() implies pawn_key(#[trigger] after[i])
        < pawn_key(#[trigger] after[j]) by {
        crate::board::position::lemma_move_ranges(after[i]);
        crate::board::position::lemma_move_ranges(after[j]);
        if j < before.len() {
            assert(after[i] == before[i] && after[j] == before[j]);
        } else if i < before.len() {
            assert(after[i] == before[i]);
            assert(pawn_stage(before[i]) < k);
        }
    }
    assert forall|i: int, j: int| start <= i < before.len() <= j < after.len() implies #[trigger] after[i]
        != #[trigger] after[j] by {
        assert(after[i] == before[i]);
        assert(pawn_stage(before[i]) < k);
    }
    lemma_no_dup_join(before, after, start);
    assert forall|i: int| start <= i < after.len() implies pawn_stage(#[trigger] after[i]) <= k by {
        if i < before.len() {
            assert(after[i] == before[i]);
        }
    }
}

/// White pawn moves (all of them, or only the captures).
#[verifier::rlimit(100)]
fn gen_white_pawns(pos: &Position, moves: &mut Vec<Move>, captures_only: bool)
    requires
        pos.wf(),
        pos.side == Color::White,
    ensures
        extends(old(moves)@, final(moves)@),
        forall|i: int|
            old(moves)@.len() <= i < final(moves)@.len() ==> pawn_gen_ok(
                *pos,
                #[trigger] final(moves)@[i],
                captures_only,
            ),
        forall|m: Move| pawn_gen_ok(*pos, m, captures_only) ==> #[trigger] final(moves)@.contains(m),
        no_dup_from(final(moves)@, old(moves)@.len() as int),
        pawn_sorted_from(final(moves)@, old(moves)@.len() as int),
{
    let ghost v0 = moves@;
    let pawns = pos.pieces[0];
    let all = pos.all_occupancy();
    let their_occ = pos.occupancy[1];
    let promo_rank = Bitboard(0xFF00000000000000);
    proof {
        lemma_masks();
        assert(crate::board::position::piece_of_index(0) == Piece {
            kind: PieceType::Pawn,
            color: Color::White,
        });
        assert(forall|t: int| 0 <= t < 64 ==> (#[trigger] pawns.has(t) <==> pos.board@[t] == Some(
            Piece { kind: PieceType::Pawn, color: Color::White },
        )));
        assert(forall|t: int| #[trigger] their_occ.has(t) <==> enemy_at(*pos, t));
        assert(forall|t: int| #[trigger] all.has(t) <==> bit(occ_bits(*pos), t));
    }
    let ghost mut v1 = moves@;
    let ghost mut v2 = moves@;
    let ghost mut v3 = moves@;
    if !captures_only {
        let single = pawns.shift_north().bitand(all.not());
        let normal_single = single.bitand(promo_rank.not());
        let promos = single.bitand(promo_rank);
        push_shifted(moves, normal_single, -8, FLAG_QUIET);
        proof {
            v1 = moves@;
            assert forall|i: int| v0.len() <= i < v1.len() implies pawn_stage(#[trigger] v1[i]) == 1 by {
                let m = v1[i];
                crate::board::position::lemma_move_ranges(m);
                lemma_encode_fields(m.to_spec() - 8, m.to_spec(), 0);
            }
            lemma_pawn_step(v0, v1, v0.len() as int, 1);
        }
        let double = single.bitand(Bitboard(0x0000000000FF0000)).shift_north().bitand(all.not());
        push_shifted(moves, double, -16, FLAG_DOUBLE_PUSH);
        proof {
            v2 = moves@;
            assert forall|i: int| v1.len() <= i < v2.len() implies pawn_stage(#[trigger] v2[i]) == 2 by {
                let m = v2[i];
                crate::board::position::lemma_move_ranges(m);
                lemma_encode_fields(m.to_spec() - 16, m.to_spec(), 1);
            }
            lemma_pawn_step(v1, v2, v0.len() as int, 2);
        }
        push_promo_shifted(moves, promos, -8, false);
        proof {
            v3 = moves@;
            assert forall|i: int| v2.len() <= i < v3.len() implies pawn_stage(#[trigger] v3[i]) == 3 by {
                let m = v3[i];
                crate::board::position::lemma_move_ranges(m);
                lemma_encode_fields(m.to_spec() - 8, m.to_spec(), m.flags_spec());
            }
            lemma_pawn_step(v2, v3, v0.len() as int, 3);
            lemma_extends_trans(v0, v1, v2);
            lemma_extends_trans(v0, v2, v3);
            assert forall|i: int| v0.len() <= i < v3.len() implies pawn_gen_ok(
                *pos,
                #[trigger] v3[i],
                captures_only,
            ) by {
                let m = v3[i];
                crate::board::position::lemma_move_ranges(m);
                if i < v1.len() {
                    assert(v1[i] == m);
                    lemma_encode_fields(m.to_spec() - 8, m.to_spec(), 0);
                } else if i < v2.len() {
                    assert(v2[i] == m);
                    lemma_encode_fields(m.to_spec() - 16, m.to_spec(), 1);
                } else {
                    lemma_encode_fields(m.to_spec() - 8, m.to_spec(), m.flags_spec());
                }
            }
            assert forall|m: Move|
                pawn_gen_ok(*pos, m, captures_only) && !m.capture_spec() implies #[trigger] v3.contains(m) by {
                crate::board::position::lemma_move_ranges(m);
                let f = m.from_spec();
                let t = m.to_spec();
                if m.flags_spec() == 0 {
                    assert(t == f + 8 && t < 56);
                    assert(single.has(t));
                    assert(normal_single.has(t));
                    assert(v1.contains(encode(t - 8, t, 0)));
                    lemma_extends_contains(v1, v3, m);
                } else if m.flags_spec() == 1 {
                    assert(single.has(t - 8));
                    assert(double.has(t));
                    assert(v2.contains(encode(t - 16, t, 1)));
                    lemma_extends_contains(v2, v3, m);
                } else {
                    assert(promos.has(t));
                    assert(promo_flag(m.flags_spec(), false));
                    assert(v3.contains(encode(t - 8, t, m.flags_spec())));
                }
            }
        }
    }
    let cap_e = pawns.shift_north().shift_east().bitand(their_occ);
    let cap_w = pawns.shift_north().shift_west().bitand(their_occ);
    let ce = cap_e.bitand(promo_rank.not());
    let cw = cap_w.bitand(promo_rank.not());
    let pe = cap_e.bitand(promo_rank);
    let pw = cap_w.bitand(promo_rank);
    push_shifted(moves, ce, -9, FLAG_CAPTURE);
    let ghost v4 = moves@;
    proof {
            assert forall|i: int| v3.len() <= i < v4.len() implies pawn_stage(#[trigger] v4[i]) == 4 by {
                let m = v4[i];
                crate::board::position::lemma_move_ranges(m);
                lemma_encode_fields(m.to_spec() - 9, m.to_spec(), 4);
            }
            lemma_pawn_step(v3, v4, v0.len() as int, 4);
    }
    push_shifted(moves, cw, -7, FLAG_CAPTURE);
    let ghost v5 = moves@;
    proof {
            assert forall|i: int| v4.len() <= i < v5.len() implies pawn_stage(#[trigger] v5[i]) == 5 by {
                let m = v5[i];
                crate::board::position::lemma_move_ranges(m);
                lemma_encode_fields(m.to_spec() - 7, m.to_spec(), 4);
            }
            lemma_pawn_step(v4, v5, v0.len() as int, 5);
    }
    push_promo_shifted(moves, pe, -9, true);
    let ghost v6 = moves@;
    proof {
            assert forall|i: int| v5.len() <= i < v6.len() implies pawn_stage(#[trigger] v6[i]) == 6 by {
                let m = v6[i];
                crate::board::position::lemma_move_ranges(m);
                lemma_encode_fields(m.to_spec() - 9, m.to_spec(), m.flags_spec());
            }
            lemma_pawn_step(v5, v6, v0.len() as int, 6);
    }
    push_promo_shifted(moves, pw, -7, true);
    let ghost v7 = moves@;
    proof {
            assert forall|i: int| v6.len() <= i < v7.len() implies pawn_stage(#[trigger] v7[i]) == 7 by {
                let m = v7[i];
                crate::board::position::lemma_move_ranges(m);
                lemma_encode_fields(m.to_spec() - 7, m.to_spec(), m.flags_spec());
            }
            lemma_pawn_step(v6, v7, v0.len() as int, 7);
    }
    proof {
        lemma_extends_trans(v3, v4, v5);
        lemma_extends_trans(v3, v5, v6);
        lemma_extends_trans(v3, v6, v7);
        lemma_extends_trans(v0, v3, v7);
        assert forall|i: int| v3.len() <= i < v7.len() implies pawn_gen_ok(
            *pos,
            #[trigger] v7[i],
            captures_only,
        ) by {
            let m = v7[i];
            crate::board::position::lemma_move_ranges(m);
            if i < v4.len() {
                assert(v4[i] == m);
                lemma_encode_fields(m.to_spec() - 9, m.to_spec(), 4);
            } else if i < v5.len() {
                assert(v5[i] == m);
                lemma_encode_fields(m.to_spec() - 7, m.to_spec(), 4);
            } else if i < v6.len() {
                assert(v6[i] == m);
                lemma_encode_fields(m.to_spec() - 9, m.to_spec(), m.flags_spec());
            } else {
                lemma_encode_fields(m.to_spec() - 7, m.to_spec(), m.flags_spec());
            }
        }
        assert forall|m: Move|
            pawn_gen_ok(*pos, m, captures_only) && m.capture_spec() && !m.ep_spec() implies #[trigger] v7.contains(m) by {
            crate::board::position::lemma_move_ranges(m);
            let f = m.from_spec();
            let t = m.to_spec();
            if t == f + 9 {
                if t < 56 {
                    assert(ce.has(t));
                    assert(v4.contains(encode(t - 9, t, 4)));
                    lemma_extends_contains(v4, v7, m);
                } else {
                    assert(pe.has(t));
                    assert(promo_flag(m.flags_spec(), true));
                    assert(v6.contains(encode(t - 9, t, m.flags_spec())));
                    lemma_extends_contains(v6, v7, m);
                }
            } else {
                if t < 56 {
                    assert(cw.has(t));
                    assert(v5.contains(encode(t - 7, t, 4)));
                    lemma_extends_contains(v5, v7, m);
                } else {
                    assert(pw.has(t));
                    assert(promo_flag(m.flags_spec(), true));
                    assert(v7.contains(encode(t - 7, t, m.flags_spec())));
                }
            }
        }
        assert forall|m: Move|
            pawn_gen_ok(*pos, m, captures_only) && !m.capture_spec() implies #[trigger] v7.contains(m) by {
            lemma_extends_contains(v3, v7, m);
        }
    }
    if pos.ep_sq != NO_SQ {
        let ep = Bitboard::from_square(pos.ep_sq);
        let ghost v8 = moves@;
        let ne = pawns.shift_north().shift_east().bitand(ep);
        if !ne.is_empty() {
            moves.push(Move::new(pos.ep_sq - 9, pos.ep_sq, FLAG_EP_CAPTURE));
        }
        let ghost v9 = moves@;
        proof {
            assert(v8 == v7);
                assert forall|i: int| v8.len() <= i < v9.len() implies pawn_stage(#[trigger] v9[i]) == 8 by {
                    let m = v9[i];
                    crate::board::position::lemma_move_ranges(m);
                    lemma_encode_fields(m.to_spec() - 9, m.to_spec(), 5);
                }
                lemma_pawn_step(v8, v9, v0.len() as int, 8);
        }
        let nw = pawns.shift_north().shift_west().bitand(ep);
        if !nw.is_empty() {
            moves.push(Move::new(pos.ep_sq - 7, pos.ep_sq, FLAG_EP_CAPTURE));
        }
        proof {
            let e = pos.ep_sq as int;
            let vend = moves@;
            assert forall|i: int| v9.len() <= i < vend.len() implies pawn_stage(#[trigger] vend[i]) == 9 by {
                let m = vend[i];
                crate::board::position::lemma_move_ranges(m);
                lemma_encode_fields(m.to_spec() - 7, m.to_spec(), 5);
            }
            lemma_pawn_step(v9, vend, v0.len() as int, 9);
            assert(extends(v8, v9));
            assert(extends(v9, moves@));
            lemma_extends_trans(v8, v9, moves@);
            assert forall|m: Move| pawn_gen_ok(*pos, m, captures_only) implies #[trigger] moves@.contains(m) by {
                crate::board::position::lemma_move_ranges(m);
                if m.ep_spec() {
                    let f = m.from_spec();
                    let t = m.to_spec();
                    assert(t == e);
                    if t == f + 9 {
                        assert(ne.has(t));
                        lemma_encode_fields(e - 9, e, 5);
                        assert(v9[v8.len() as int] == m);
                        lemma_extends_contains(v9, moves@, m);
                    } else {
                        assert(nw.has(t));
                        lemma_encode_fields(e - 7, e, 5);
                        assert(moves@[v9.len() as int] == m);
                    }
                } else {
                    lemma_extends_contains(v7, moves@, m);
                }
            }
        }
    }
}

/// Black pawn moves (all of them, or only the captures).
#[verifier::rlimit(50)]
#[verifier::spinoff_prover]
fn gen_black_pawns(pos: &Position, moves: &mut Vec<Move>, captures_only: bool)
    requires
        pos.wf(),
        pos.side == Color::Black,
    ensures
        extends(old(moves)@, final(moves)@),
        forall|i: int|
            old(moves)@.len() <= i < final(moves)@.len() ==> pawn_gen_ok(
                *pos,
                #[trigger] final(moves)@[i],
                captures_only,
            ),
        forall|m: Move| pawn_gen_ok(*pos, m, captures_only) ==> #[trigger] final(moves)@.contains(m),
        no_dup_from(final(moves)@, old(moves)@.len() as int),
        pawn_sorted_from(final(moves)@, old(moves)@.len() as int),
{
    let ghost v0 = moves@;
    let pawns = pos.pieces[1];
    let all = pos.all_occupancy();
    let their_occ = pos.occupancy[0];
    let promo_rank = Bitboard(0x00000000000000FF);
    proof {
        lemma_masks();
        assert(crate::board::position::piece_of_index(1) == Piece {
            kind: PieceType::Pawn,
            color: Color::Black,
        });
        assert(forall|t: int| 0 <= t < 64 ==> (#[trigger] pawns.has(t) <==> pos.board@[t] == Some(
            Piece { kind: PieceType::Pawn, color: Color::Black },
        )));
        assert(forall|t: int| #[trigger] their_occ.has(t) <==> enemy_at(*pos, t));
        assert(forall|t: int| #[trigger] all.has(t) <==> bit(occ_bits(*pos), t));
    }
    let ghost mut v1 = moves@;
    let ghost mut v2 = moves@;
    let ghost mut v3 = moves@;
    if !captures_only {
        let single = pawns.shift_south().bitand(all.not());
        let normal_single = single.bitand(promo_rank.not());
        let promos = single.bitand(promo_rank);
        push_shifted(moves, normal_single, 8, FLAG_QUIET);
        proof {
            v1 = moves@;
            assert forall|i: int| v0.len() <= i < v1.len() implies pawn_stage(#[trigger] v1[i]) == 1 by {
                let m = v1[i];
                crate::board::position::lemma_move_ranges(m);
                lemma_encode_fields(m.to_spec() + 8, m.to_spec(), 0);
            }
            lemma_pawn_step(v0, v1, v0.len() as int, 1);
        }
        let double = single.bitand(Bitboard(0x0000FF0000000000)).shift_south().bitand(all.not());
        push_shifted(moves, double, 16, FLAG_DOUBLE_PUSH);
        proof {
            v2 = moves@;
            assert forall|i: int| v1.len() <= i < v2.len() implies pawn_stage(#[trigger] v2[i]) == 2 by {
                let m = v2[i];
                crate::board::position::lemma_move_ranges(m);
                lemma_encode_fields(m.to_spec() + 16, m.to_spec(), 1);
            }
            lemma_pawn_step(v1, v2, v0.len() as int, 2);
        }
        push_promo_shifted(moves, promos, 8, false);
        proof {
            v3 = moves@;
            assert forall|i: int| v2.len() <= i < v3.len() implies pawn_stage(#[trigger] v3[i]) == 3 by {
                let m = v3[i];
                crate::board::position::lemma_move_ranges(m);
                lemma_encode_fields(m.to_spec() + 8, m.to_spec(), m.flags_spec());
            }
            lemma_pawn_step(v2, v3, v0.len() as int, 3);
            lemma_extends_trans(v0, v1, v2);
            lemma_extends_trans(v0, v2, v3);
            assert forall|i: int| v0.len() <= i < v3.len() implies pawn_gen_ok(
                *pos,
                #[trigger] v3[i],
                captures_only,
            ) by {
                let m = v3[i];
                crate::board::position::lemma_move_ranges(m);
                if i < v1.len() {
                    assert(v1[i] == m);
                    lemma_encode_fields(m.to_spec() + 8, m.to_spec(), 0);
                } else if i < v2.len() {
                    assert(v2[i] == m);
                    lemma_encode_fields(m.to_spec() + 16, m.to_spec(), 1);
                } else {
                    lemma_encode_fields(m.to_spec() + 8, m.to_spec(), m.flags_spec());
                }
            }
            assert forall|m: Move|
                pawn_gen_ok(*pos, m, captures_only) && !m.capture_spec() implies #[trigger] v3.contains(m) by {
                crate::board::position::lemma_move_ranges(m);
                let f = m.from_spec();
                let t = m.to_spec();
                if m.flags_spec() == 0 {
                    assert(f == t + 8 && 8 <= t);
                    assert(single.has(t));
                    assert(normal_single.has(t));
                    assert(v1.contains(encode(t + 8, t, 0)));
                    lemma_extends_contains(v1, v3, m);
                } else if m.flags_spec() == 1 {
                    assert(single.has(t + 8));
                    assert(double.has(t));
                    assert(v2.contains(encode(t + 16, t, 1)));
                    lemma_extends_contains(v2, v3, m);
                } else {
                    assert(promos.has(t));
                    assert(promo_flag(m.flags_spec(), false));
                    assert(v3.contains(encode(t + 8, t, m.flags_spec())));
                }
            }
        }
    }
    let cap_e = pawns.shift_south().shift_east().bitand(their_occ);
    let cap_w = pawns.shift_south().shift_west().bitand(their_occ);
    let ce = cap_e.bitand(promo_rank.not());
    let cw = cap_w.bitand(promo_rank.not());
    let pe = cap_e.bitand(promo_rank);
    let pw = cap_w.bitand(promo_rank);
    push_shifted(moves, ce, 7, FLAG_CAPTURE);
    let ghost v4 = moves@;
    proof {
            assert forall|i: int| v3.len() <= i < v4.len() implies pawn_stage(#[trigger] v4[i]) == 4 by {
                let m = v4[i];
                crate::board::position::lemma_move_ranges(m);
                lemma_encode_fields(m.to_spec() + 7, m.to_spec(), 4);
            }
            lemma_pawn_step(v3, v4, v0.len() as int, 4);
    }
    push_shifted(moves, cw, 9, FLAG_CAPTURE);
    let ghost v5 = moves@;
    proof {
            assert forall|i: int| v4.len() <= i < v5.len() implies pawn_stage(#[trigger] v5[i]) == 5 by {
                let m = v5[i];
                crate::board::position::lemma_move_ranges(m);
                lemma_encode_fields(m.to_spec() + 9, m.to_spec(), 4);
            }
            lemma_pawn_step(v4, v5, v0.len() as int, 5);
    }
    push_promo_shifted(moves, pe, 7, true);
    let ghost v6 = moves@;
    proof {
            assert forall|i: int| v5.len() <= i < v6.len() implies pawn_stage(#[trigger] v6[i]) == 6 by {
                let m = v6[i];
                crate::board::position::lemma_move_ranges(m);
                lemma_encode_fields(m.to_spec() + 7, m.to_spec(), m.flags_spec());
            }
            lemma_pawn_step(v5, v6, v0.len() as int, 6);
    }
    push_promo_shifted(moves, pw, 9, true);
    let ghost v7 = moves@;
    proof {
            assert forall|i: int| v6.len() <= i < v7.len() implies pawn_stage(#[trigger] v7[i]) == 7 by {
                let m = v7[i];
                crate::board::position::lemma_move_ranges(m);
                lemma_encode_fields(m.to_spec() + 9, m.to_spec(), m.flags_spec());
            }
            lemma_pawn_step(v6, v7, v0.len() as int, 7);
    }
    proof {
        lemma_extends_trans(v3, v4, v5);
        lemma_extends_trans(v3, v5, v6);
        lemma_extends_trans(v3, v6, v7);
        lemma_extends_trans(v0, v3, v7);
        assert forall|i: int| v3.len() <= i < v7.len() implies pawn_gen_ok(
            *pos,
            #[trigger] v7[i],
            captures_only,
        ) by {
            let m = v7[i];
            crate::board::position::lemma_move_ranges(m);
            if i < v4.len() {
                assert(v4[i] == m);
                lemma_encode_fields(m.to_spec() + 7, m.to_spec(), 4);
            } else if i < v5.len() {
                assert(v5[i] == m);
                lemma_encode_fields(m.to_spec() + 9, m.to_spec(), 4);
            } else if i < v6.len() {
                assert(v6[i] == m);
                lemma_encode_fields(m.to_spec() + 7, m.to_spec(), m.flags_spec());
            } else {
                lemma_encode_fields(m.to_spec() + 9, m.to_spec(), m.flags_spec());
            }
        }
        assert forall|m: Move|
            pawn_gen_ok(*pos, m, captures_only) && m.capture_spec() && !m.ep_spec() implies #[trigger] v7.contains(m) by {
            crate::board::position::lemma_move_ranges(m);
            let f = m.from_spec();
            let t = m.to_spec();
            if f == t + 7 {
                if 8 <= t {
                    assert(ce.has(t));
                    assert(v4.contains(encode(t + 7, t, 4)));
                    lemma_extends_contains(v4, v7, m);
                } else {
                    assert(pe.has(t));
                    assert(promo_flag(m.flags_spec(), true));
                    assert(v6.contains(encode(t + 7, t, m.flags_spec())));
                    lemma_extends_contains(v6, v7, m);
                }
            } else {
                if 8 <= t {
                    assert(cw.has(t));
                    assert(v5.contains(encode(t + 9, t, 4)));
                    lemma_extends_contains(v5, v7, m);
                } else {
                    assert(pw.has(t));
                    assert(promo_flag(m.flags_spec(), true));
                    assert(v7.contains(encode(t + 9, t, m.flags_spec())));
                }
            }
        }
        assert forall|m: Move|
            pawn_gen_ok(*pos, m, captures_only) && !m.capture_spec() implies #[trigger] v7.contains(m) by {
            lemma_extends_contains(v3, v7, m);
        }
    }
    if pos.ep_sq != NO_SQ {
        let ep = Bitboard::from_square(pos.ep_sq);
        let ghost v8 = moves@;
        let ne = pawns.shift_south().shift_east().bitand(ep);
        if !ne.is_empty() {
            moves.push(Move::new(pos.ep_sq + 7, pos.ep_sq, FLAG_EP_CAPTURE));
        }
        let ghost v9 = moves@;
        proof {
            assert(v8 == v7);
                assert forall|i: int| v8.len() <= i < v9.len() implies pawn_stage(#[trigger] v9[i]) == 8 by {
                    let m = v9[i];
                    crate::board::position::lemma_move_ranges(m);
                    lemma_encode_fields(m.to_spec() + 7, m.to_spec(), 5);
                }
                lemma_pawn_step(v8, v9, v0.len() as int, 8);
        }
        let nw = pawns.shift_south().shift_west().bitand(ep);
        if !nw.is_empty() {
            moves.push(Move::new(pos.ep_sq + 9, pos.ep_sq, FLAG_EP_CAPTURE));
        }
        proof {
            let e = pos.ep_sq as int;
            let vend = moves@;
            assert forall|i: int| v9.len() <= i < vend.len() implies pawn_stage(#[trigger] vend[i]) == 9 by {
                let m = vend[i];
                crate::board::position::lemma_move_ranges(m);
                lemma_encode_fields(m.to_spec() + 9, m.to_spec(), 5);
            }
            lemma_pawn_step(v9, vend, v0.len() as int, 9);
            assert(extends(v8, v9));
            assert(extends(v9, moves@));
            lemma_extends_trans(v8, v9, moves@);
            assert forall|m: Move| pawn_gen_ok(*pos, m, captures_only) implies #[trigger] moves@.contains(m) by {
                crate::board::position::lemma_move_ranges(m);
                if m.ep_spec() {
                    let f = m.from_spec();
                    let t = m.to_spec();
                    assert(t == e);
                    if f == t + 7 {
                        assert(ne.has(t));
                        lemma_encode_fields(e + 7, e, 5);
                        assert(v9[v8.len() as int] == m);
                        lemma_extends_contains(v9, moves@, m);
                    } else {
                        assert(nw.has(t));
                        lemma_encode_fields(e + 9, e, 5);
                        assert(moves@[v9.len() as int] == m);
                    }
                } else {
                    lemma_extends_contains(v7, moves@, m);
                }
            }
        }
    }
}

/// A castling move of the side to move: the right is held, the squares between
/// king and rook are empty, and the king neither stands on nor crosses an
/// attacked square.
pub open spec fn castle_move(p: Position, m: Move) -> bool {
    let f = m.from_spec();
    let t = m.to_spec();
    let fl = m.flags_spec();
    let occ = occ_bits(p);
    &&& m == encode(f, t, fl)
    &&& if p.side == Color::White {
        &&& !attacked(p, 4, Color::Black)
        &&& ((f == 4 && t == 6 && fl == 2 && p.castling & CR_WK != 0 && occ & 0x60u64 == 0
            && !attacked(p, 5, Color::Black)) || (f == 4 && t == 2 && fl == 3 && p.castling
            & CR_WQ != 0 && occ & 0x0Eu64 == 0 && !attacked(p, 3, Color::Black)))
    } else {
        &&& !attacked(p, 60, Color::White)
        &&& ((f == 60 && t == 62 && fl == 2 && p.castling & CR_BK != 0 && occ
            & 0x6000000000000000u64 == 0 && !attacked(p, 61, Color::White)) || (f == 60 && t == 58
            && fl == 3 && p.castling & CR_BQ != 0 && occ & 0x0E00000000000000u64 == 0
            && !attacked(p, 59, Color::White)))
    }
}

/// Every pseudo-legal move of the side to move: legal except that it may leave
/// the own king in check.
pub open spec fn pseudo_legal(p: Position, m: Move) -> bool {
    ||| pawn_move(p, m)
    ||| piece_move(p, m, PieceType::Knight)
    ||| piece_move(p, m, PieceType::Bishop)
    ||| piece_move(p, m, PieceType::Rook)
    ||| piece_move(p, m, PieceType::Queen)
    ||| piece_move(p, m, PieceType::King)
    ||| castle_move(p, m)
}

/// The pseudo-legal captures (en passant and capturing promotions included).
pub open spec fn pseudo_capture(p: Position, m: Move) -> bool {
    pseudo_legal(p, m) && m.capture_spec()
}

/// King moves of the side to move (only captures when `captures_only`).
fn gen_king(pos: &Position, moves: &mut Vec<Move>, captures_only: bool)
    requires
        pos.consistent(),
        pos.kings_ok(),
    ensures
        extends(old(moves)@, final(moves)@),
        forall|i: int|
            old(moves)@.len() <= i < final(moves)@.len() ==> piece_move(
                *pos,
                #[trigger] final(moves)@[i],
                PieceType::King,
            ) && (captures_only ==> final(moves)@[i].flags_spec() == 4),
        forall|m: Move|
            piece_move(*pos, m, PieceType::King) && (captures_only ==> m.flags_spec() == 4)
                ==> #[trigger] final(moves)@.contains(m),
        no_dup_from(final(moves)@, old(moves)@.len() as int),
{
    let ghost v0 = moves@;
    let us = pos.side.index();
    let them = 1 - us;
    let our_occ = pos.occupancy[us];
    let their_occ = pos.occupancy[them];
    let from = pos.king_sq[us];
    proof {
        assert(pos.king_sq@[us as int] < 64);
        let k = Piece { kind: PieceType::King, color: color_of_index(us as int) };
        assert(pos.board@[from as int] == Some(k));
    }
    let attacks = king_attacks(from);
    if captures_only {
        let caps = attacks.bitand(their_occ);
        push_from(moves, from, caps, FLAG_CAPTURE);
        proof {
            assert forall|i: int| v0.len() <= i < moves@.len() implies piece_move(
                *pos,
                #[trigger] moves@[i],
                PieceType::King,
            ) && (captures_only ==> moves@[i].flags_spec() == 4) by {
                let m = moves@[i];
                lemma_encode_fields(from as int, m.to_spec(), 4);
                crate::board::position::lemma_move_ranges(m);
            }
            assert forall|m: Move|
                piece_move(*pos, m, PieceType::King) && (captures_only ==> m.flags_spec() == 4)
                    implies #[trigger] moves@.contains(m) by {
                crate::board::position::lemma_move_ranges(m);
                assert(caps.has(m.to_spec()));
            }
        }
    } else {
        let a = attacks.bitand(our_occ.not());
        let caps = a.bitand(their_occ);
        let quiets = a.bitand(their_occ.not());
        push_from(moves, from, caps, FLAG_CAPTURE);
        let ghost mid = moves@;
        push_from(moves, from, quiets, FLAG_QUIET);
        proof {
            lemma_extends_trans(v0, mid, moves@);
            assert forall|i: int, j: int|
                v0.len() <= i < mid.len() <= j < moves@.len() implies #[trigger] moves@[i]
                != #[trigger] moves@[j] by {
                assert(moves@[i] == mid[i]);
                lemma_encode_fields(from as int, mid[i].to_spec(), 4);
                crate::board::position::lemma_move_ranges(mid[i]);
                crate::board::position::lemma_move_ranges(moves@[j]);
                lemma_encode_fields(from as int, moves@[j].to_spec(), 0);
            }
            lemma_no_dup_join(mid, moves@, v0.len() as int);
            assert forall|i: int| v0.len() <= i < moves@.len() implies piece_move(
                *pos,
                #[trigger] moves@[i],
                PieceType::King,
            ) && (captures_only ==> moves@[i].flags_spec() == 4) by {
                let m = moves@[i];
                crate::board::position::lemma_move_ranges(m);
                if i < mid.len() {
                    assert(mid[i] == m);
                    lemma_encode_fields(from as int, m.to_spec(), 4);
                } else {
                    lemma_encode_fields(from as int, m.to_spec(), 0);
                }
            }
            assert forall|m: Move|
                piece_move(*pos, m, PieceType::King) && (captures_only ==> m.flags_spec() == 4)
                    implies #[trigger] moves@.contains(m) by {
                crate::board::position::lemma_move_ranges(m);
                if enemy_at(*pos, m.to_spec()) {
                    assert(caps.has(m.to_spec()));
                    lemma_extends_contains(mid, moves@, m);
                } else {
                    assert(quiets.has(m.to_spec()));
                }
            }
        }
    }
}

/// `m` takes a king.
pub open spec fn takes_king(p: Position, m: Move) -> bool {
    p.board@[m.to_spec()] is Some && p.board@[m.to_spec()]->0.kind == PieceType::King
}

/// Every generated move that does not take a king can be made.
pub proof fn lemma_pseudo_legal_fits(p: Position, m: Move)
    requires
        p.wf(),
        pseudo_legal(p, m),
        !takes_king(p, m),
    ensures
        move_fits(p, m),
{
    crate::board::position::lemma_move_ranges(m);
    lemma_masks();
    let f = m.from_spec();
    let t = m.to_spec();
    lemma_encode_fields(f, t, m.flags_spec());
    let all = p.occupancy@[0].0 | p.occupancy@[1].0;
    crate::board::bitboard::lemma_or_bits(p.occupancy@[0].0, p.occupancy@[1].0);
    assert forall|sq: int| 0 <= sq < 64 implies (#[trigger] bit(occ_bits(p), sq) <==> p.board@[sq]
        is Some) by {
        assert(p.occupancy@[0].has(sq) <==> (p.board@[sq] is Some && p.board@[sq]->0.color.idx()
            == 0));
        assert(p.occupancy@[1].has(sq) <==> (p.board@[sq] is Some && p.board@[sq]->0.color.idx()
            == 1));
    }
    if castle_move(p, m) {
        crate::board::bitboard::lemma_and_bits(occ_bits(p), 0x60u64);
        crate::board::bitboard::lemma_and_bits(occ_bits(p), 0x0Eu64);
        crate::board::bitboard::lemma_and_bits(occ_bits(p), 0x6000000000000000u64);
        crate::board::bitboard::lemma_and_bits(occ_bits(p), 0x0E00000000000000u64);
        crate::board::bitboard::lemma_zero_iff_no_bits(occ_bits(p) & 0x60u64);
        crate::board::bitboard::lemma_zero_iff_no_bits(occ_bits(p) & 0x0Eu64);
        crate::board::bitboard::lemma_zero_iff_no_bits(occ_bits(p) & 0x6000000000000000u64);
        crate::board::bitboard::lemma_zero_iff_no_bits(occ_bits(p) & 0x0E00000000000000u64);
        if p.side == Color::White {
            if t == 6 {
                assert(!bit(occ_bits(p) & 0x60u64, 5));
                assert(!bit(occ_bits(p) & 0x60u64, 6));
                assert(p.home_ok(4, 7, Color::White));
            } else {
                assert(!bit(occ_bits(p) & 0x0Eu64, 2));
                assert(!bit(occ_bits(p) & 0x0Eu64, 3));
                assert(p.home_ok(4, 0, Color::White));
            }
        } else {
            if t == 62 {
                assert(!bit(occ_bits(p) & 0x6000000000000000u64, 61));
                assert(!bit(occ_bits(p) & 0x6000000000000000u64, 62));
                assert(p.home_ok(60, 63, Color::Black));
            } else {
                assert(!bit(occ_bits(p) & 0x0E00000000000000u64, 58));
                assert(!bit(occ_bits(p) & 0x0E00000000000000u64, 59));
                assert(p.home_ok(60, 56, Color::Black));
            }
        }
    }
}

/// A pseudo-legal move can only take a king that is already attacked.
pub proof fn lemma_takes_king_attacked(p: Position, m: Move)
    requires
        p.wf(),
        pseudo_legal(p, m),
        takes_king(p, m),
    ensures
        attacked(p, p.king_sq@[p.side.opposite().idx()] as int, p.side),
{
    crate::board::position::lemma_move_ranges(m);
    lemma_masks();
    let f = m.from_spec();
    let t = m.to_spec();
    let them = p.side.opposite();
    let occ = occ_bits(p);
    lemma_encode_fields(f, t, m.flags_spec());
    crate::board::bitboard::lemma_or_bits(p.occupancy@[0].0, p.occupancy@[1].0);
    assert(p.occupancy@[p.board@[t]->0.color.idx()].has(t));
    assert(bit(occ, t));
    if castle_move(p, m) {
        crate::board::bitboard::lemma_and_bits(occ, 0x60u64);
        crate::board::bitboard::lemma_and_bits(occ, 0x0Eu64);
        crate::board::bitboard::lemma_and_bits(occ, 0x6000000000000000u64);
        crate::board::bitboard::lemma_and_bits(occ, 0x0E00000000000000u64);
        crate::board::bitboard::lemma_zero_iff_no_bits(occ & 0x60u64);
        crate::board::bitboard::lemma_zero_iff_no_bits(occ & 0x0Eu64);
        crate::board::bitboard::lemma_zero_iff_no_bits(occ & 0x6000000000000000u64);
        crate::board::bitboard::lemma_zero_iff_no_bits(occ & 0x0E00000000000000u64);
        if p.side == Color::White {
            if t == 6 {
                assert(bit(occ & 0x60u64, 6));
            } else {
                assert(bit(occ & 0x0Eu64, 2));
            }
        } else {
            if t == 62 {
                assert(bit(occ & 0x6000000000000000u64, 62));
            } else {
                assert(bit(occ & 0x0E00000000000000u64, 58));
            }
        }
        assert(false);
    }
    if pawn_move(p, m) {
        if m.ep_spec() {
            assert(p.board@[t] is None);
        }
    }
    assert(p.board@[t]->0.color == them);
    assert(p.board@[t] == Some(Piece { kind: PieceType::King, color: color_of_index(them.idx()) }));
    assert(t == p.king_sq@[them.idx()]);
    if piece_move(p, m, PieceType::Bishop) {
        lemma_bishop_symmetric(f, occ, t);
    } else if piece_move(p, m, PieceType::Rook) {
        lemma_rook_symmetric(f, occ, t);
    } else if piece_move(p, m, PieceType::Queen) {
        if bishop_attack(f, occ, t) {
            lemma_bishop_symmetric(f, occ, t);
        } else {
            lemma_rook_symmetric(f, occ, t);
        }
    }
    assert(attacker_at(p, f, t, p.side));
}

pub struct MoveGen;

/// Pawn moves of the side to move (only captures when `captures_only`).
fn gen_pawns(pos: &Position, moves: &mut Vec<Move>, captures_only: bool)
    requires
        pos.wf(),
    ensures
        extends(old(moves)@, final(moves)@),
        forall|i: int|
            old(moves)@.len() <= i < final(moves)@.len() ==> pawn_gen_ok(
                *pos,
                #[trigger] final(moves)@[i],
                captures_only,
            ),
        forall|m: Move| pawn_gen_ok(*pos, m, captures_only) ==> #[trigger] final(moves)@.contains(m),
        no_dup_from(final(moves)@, old(moves)@.len() as int),
        pawn_sorted_from(final(moves)@, old(moves)@.len() as int),
{
    if pos.side.index() == 0 {
        gen_white_pawns(pos, moves, captures_only);
    } else {
        gen_black_pawns(pos, moves, captures_only);
    }
}

/// Castling moves of the side to move.
fn gen_castling(pos: &Position, moves: &mut Vec<Move>)
    requires
        pos.consistent(),
    ensures
        extends(old(moves)@, final(moves)@),
        forall|i: int|
            old(moves)@.len() <= i < final(moves)@.len() ==> castle_move(
                *pos,
                #[trigger] final(moves)@[i],
            ),
        forall|m: Move| castle_move(*pos, m) ==> #[trigger] final(moves)@.contains(m),
        no_dup_from(final(moves)@, old(moves)@.len() as int),
{
    let ghost v0 = moves@;
    let us = pos.side.index();
    let them = 1 - us;
    let all = pos.all_occupancy();
    proof {
        assert forall|m: Move| castle_move(*pos, m) implies m.from_spec() == (if us == 0 {
            4int
        } else {
            60int
        }) by {
            crate::board::position::lemma_move_ranges(m);
        }
    }
    if us == 0 {
        // Can't castle out of check
        if MoveGen::is_attacked(pos, 4, them) {
            return;
        }
        // Kingside: f1 and g1 empty; the king passes through f1, which must not be attacked
        if pos.castling & CR_WK != 0 && all.bitand(Bitboard(0x60)).is_empty()
            && !MoveGen::is_attacked(pos, 5, them) {
            moves.push(Move::new(4, 6, FLAG_CASTLE_K));
        }
        let ghost v1 = moves@;
        // Queenside: b1-d1 empty; the king passes through d1, which must not be attacked
        if pos.castling & CR_WQ != 0 && all.bitand(Bitboard(0x0E)).is_empty()
            && !MoveGen::is_attacked(pos, 3, them) {
            moves.push(Move::new(4, 2, FLAG_CASTLE_Q));
        }
        proof {
            lemma_encode_fields(4, 6, 2);
            lemma_encode_fields(4, 2, 3);
            assert forall|m: Move| castle_move(*pos, m) implies #[trigger] moves@.contains(m) by {
                crate::board::position::lemma_move_ranges(m);
                if m.to_spec() == 6 {
                    assert(v1[v0.len() as int] == m);
                    assert(moves@[v0.len() as int] == m);
                } else {
                    assert(moves@[v1.len() as int] == m);
                }
            }
            assert forall|i: int, j: int| v0.len() <= i < j < moves@.len() implies #[trigger] moves@[i]
                != #[trigger] moves@[j] by {
                assert(i == v0.len() && j == v0.len() + 1);
                assert(moves@[i] == v1[i]);
                assert(moves@[i].to_spec() == 6);
                assert(moves@[j].to_spec() == 2);
            }
        }
    } else {
        if MoveGen::is_attacked(pos, 60, them) {
            return;
        }
        if pos.castling & CR_BK != 0 && all.bitand(Bitboard(0x6000000000000000)).is_empty()
            && !MoveGen::is_attacked(pos, 61, them) {
            moves.push(Move::new(60, 62, FLAG_CASTLE_K));
        }
        let ghost v1 = moves@;
        if pos.castling & CR_BQ != 0 && all.bitand(Bitboard(0x0E00000000000000)).is_empty()
            && !MoveGen::is_attacked(pos, 59, them) {
            moves.push(Move::new(60, 58, FLAG_CASTLE_Q));
        }
        proof {
            lemma_encode_fields(60, 62, 2);
            lemma_encode_fields(60, 58, 3);
            assert forall|m: Move| castle_move(*pos, m) implies #[trigger] moves@.contains(m) by {
                crate::board::position::lemma_move_ranges(m);
                if m.to_spec() == 62 {
                    assert(v1[v0.len() as int] == m);
                    assert(moves@[v0.len() as int] == m);
                } else {
                    assert(moves@[v1.len() as int] == m);
                }
            }
            assert forall|i: int, j: int| v0.len() <= i < j < moves@.len() implies #[trigger] moves@[i]
                != #[trigger] moves@[j] by {
                assert(i == v0.len() && j == v0.len() + 1);
                assert(moves@[i] == v1[i]);
                assert(moves@[i].to_spec() == 62);
                assert(moves@[j].to_spec() == 58);
            }
        }
    }
}

/// Which generator a pseudo-legal move comes from: the kind of the piece that
/// moves (0 pawn .. 5 king), or 6 for castling.
pub open spec fn move_class(p: Position, m: Move) -> int {
    if m.flags_spec() == 2 || m.flags_spec() == 3 {
        6
    } else if p.board@[m.from_spec()] is Some {
        p.board@[m.from_spec()]->0.kind.idx()
    } else {
        7
    }
}

/// Appending moves of a later generator keeps the moves free of repeats.
proof fn lemma_class_step(p: Position, before: Seq<Move>, after: Seq<Move>, k: int)
    requires
        extends(before, after),
        no_dup_from(before, 0),
        no_dup_from(after, before.len() as int),
        forall|i: int| 0 <= i < before.len() ==> move_class(p, #[trigger] before[i]) < k,
        forall|i: int| before.len() <= i < after.len() ==> move_class(p, #[trigger] after[i]) == k,
    ensures
        no_dup_from(after, 0),
        forall|i: int| 0 <= i < after.len() ==> move_class(p, #[trigger] after[i]) <= k,
{
    assert forall|i: int, j: int| 0 <= i < before.len() <= j < after.len() implies #[trigger] after[i]
        != #[trigger] after[j] by {
        assert(after[i] == before[i]);
        assert(move_class(p, before[i]) < k);
    }
    lemma_no_dup_join(before, after, 0);
    assert forall|i: int| 0 <= i < after.len() implies move_class(p, #[trigger] after[i]) <= k by {
        if i < before.len() {
            assert(after[i] == before[i]);
        }
    }
}

impl MoveGen {
    /// All pseudo-legal moves of the side to move (the search filters the ones
    /// that leave the own king in check).
    pub fn generate(pos: &Position) -> (moves: Vec<Move>)
        requires
            pos.wf(),
        ensures
            forall|i: int| 0 <= i < moves@.len() ==> pseudo_legal(*pos, #[trigger] moves@[i]),
            forall|m: Move| pseudo_legal(*pos, m) ==> #[trigger] moves@.contains(m),
            no_dup(moves@),
    {
        let mut moves: Vec<Move> = Vec::new();
        gen_pawns(pos, &mut moves, false);
        let ghost v1 = moves@;
        gen_piece_moves(pos, &mut moves, PieceType::Knight, false);
        let ghost v2 = moves@;
        gen_piece_moves(pos, &mut moves, PieceType::Bishop, false);
        let ghost v3 = moves@;
        gen_piece_moves(pos, &mut moves, PieceType::Rook, false);
        let ghost v4 = moves@;
        gen_piece_moves(pos, &mut moves, PieceType::Queen, false);
        let ghost v5 = moves@;
        gen_king(pos, &mut moves, false);
        let ghost v6 = moves@;
        gen_castling(pos, &mut moves);
        proof {
            let v7 = moves@;
            assert forall|i: int| 0 <= i < v1.len() implies move_class(*pos, #[trigger] v1[i]) < 1 by {
                assert(pawn_gen_ok(*pos, v1[i], false));
            }
            assert forall|i: int| v1.len() <= i < v2.len() implies move_class(*pos, #[trigger] v2[i]) == 1 by {
                assert(piece_move(*pos, v2[i], PieceType::Knight));
            }
            lemma_class_step(*pos, v1, v2, 1);
            assert forall|i: int| v2.len() <= i < v3.len() implies move_class(*pos, #[trigger] v3[i]) == 2 by {
                assert(piece_move(*pos, v3[i], PieceType::Bishop));
            }
            lemma_class_step(*pos, v2, v3, 2);
            assert forall|i: int| v3.len() <= i < v4.len() implies move_class(*pos, #[trigger] v4[i]) == 3 by {
                assert(piece_move(*pos, v4[i], PieceType::Rook));
            }
            lemma_class_step(*pos, v3, v4, 3);
            assert forall|i: int| v4.len() <= i < v5.len() implies move_class(*pos, #[trigger] v5[i]) == 4 by {
                assert(piece_move(*pos, v5[i], PieceType::Queen));
            }
            lemma_class_step(*pos, v4, v5, 4);
            assert forall|i: int| v5.len() <= i < v6.len() implies move_class(*pos, #[trigger] v6[i]) == 5 by {
                assert(piece_move(*pos, v6[i], PieceType::King));
            }
            lemma_class_step(*pos, v5, v6, 5);
            assert forall|i: int| v6.len() <= i < v7.len() implies move_class(*pos, #[trigger] v7[i]) == 6 by {
                assert(castle_move(*pos, v7[i]));
            }
            lemma_class_step(*pos, v6, v7, 6);
            lemma_extends_trans(v1, v2, v3);
            lemma_extends_trans(v1, v3, v4);
            lemma_extends_trans(v1, v4, v5);
            lemma_extends_trans(v1, v5, v6);
            lemma_extends_trans(v1, v6, v7);
            lemma_extends_trans(v2, v3, v4);
            lemma_extends_trans(v2, v4, v5);
            lemma_extends_trans(v2, v5, v6);
            lemma_extends_trans(v2, v6, v7);
            lemma_extends_trans(v3, v4, v5);
            lemma_extends_trans(v3, v5, v6);
            lemma_extends_trans(v3, v6, v7);
            lemma_extends_trans(v4, v5, v6);
            lemma_extends_trans(v4, v6, v7);
            lemma_extends_trans(v5, v6, v7);
            assert forall|i: int| 0 <= i < v7.len() implies pseudo_legal(*pos, #[trigger] v7[i]) by {
                if i < v1.len() {
                    assert(v7[i] == v1[i]);
                } else if i < v2.len() {
                    assert(v7[i] == v2[i]);
                } else if i < v3.len() {
                    assert(v7[i] == v3[i]);
                } else if i < v4.len() {
                    assert(v7[i] == v4[i]);
                } else if i < v5.len() {
                    assert(v7[i] == v5[i]);
                } else if i < v6.len() {
                    assert(v7[i] == v6[i]);
                }
            }
            assert forall|m: Move| pseudo_legal(*pos, m) implies #[trigger] v7.contains(m) by {
                if pawn_move(*pos, m) {
                    assert(pawn_gen_ok(*pos, m, false));
                    lemma_extends_contains(v1, v7, m);
                } else if piece_move(*pos, m, PieceType::Knight) {
                    lemma_extends_contains(v2, v7, m);
                } else if piece_move(*pos, m, PieceType::Bishop) {
                    lemma_extends_contains(v3, v7, m);
                } else if piece_move(*pos, m, PieceType::Rook) {
                    lemma_extends_contains(v4, v7, m);
                } else if piece_move(*pos, m, PieceType::Queen) {
                    lemma_extends_contains(v5, v7, m);
                } else if piece_move(*pos, m, PieceType::King) {
                    lemma_extends_contains(v6, v7, m);
                }
            }
        }
        moves
    }

    /// Generate only captures (for quiescence search).
    pub fn generate_captures(pos: &Position) -> (moves: Vec<Move>)
        requires
            pos.wf(),
        ensures
            forall|i: int| 0 <= i < moves@.len() ==> pseudo_capture(*pos, #[trigger] moves@[i]),
            forall|m: Move| pseudo_capture(*pos, m) ==> #[trigger] moves@.contains(m),
            no_dup(moves@),
    {
        let mut moves: Vec<Move> = Vec::new();
        gen_pawns(pos, &mut moves, true);
        let ghost v1 = moves@;
        gen_piece_moves(pos, &mut moves, PieceType::Knight, true);
        let ghost v2 = moves@;
        gen_piece_moves(pos, &mut moves, PieceType::Bishop, true);
        let ghost v3 = moves@;
        gen_piece_moves(pos, &mut moves, PieceType::Rook, true);
        let ghost v4 = moves@;
        gen_piece_moves(pos, &mut moves, PieceType::Queen, true);
        let ghost v5 = moves@;
        gen_king(pos, &mut moves, true);
        proof {
            let v6 = moves@;
            assert forall|i: int| 0 <= i < v1.len() implies move_class(*pos, #[trigger] v1[i]) < 1 by {
                assert(pawn_gen_ok(*pos, v1[i], true));
            }
            assert forall|i: int| v1.len() <= i < v2.len() implies move_class(*pos, #[trigger] v2[i]) == 1 by {
                assert(piece_move(*pos, v2[i], PieceType::Knight));
            }
            lemma_class_step(*pos, v1, v2, 1);
            assert forall|i: int| v2.len() <= i < v3.len() implies move_class(*pos, #[trigger] v3[i]) == 2 by {
                assert(piece_move(*pos, v3[i], PieceType::Bishop));
            }
            lemma_class_step(*pos, v2, v3, 2);
            assert forall|i: int| v3.len() <= i < v4.len() implies move_class(*pos, #[trigger] v4[i]) == 3 by {
                assert(piece_move(*pos, v4[i], PieceType::Rook));
            }
            lemma_class_step(*pos, v3, v4, 3);
            assert forall|i: int| v4.len() <= i < v5.len() implies move_class(*pos, #[trigger] v5[i]) == 4 by {
                assert(piece_move(*pos, v5[i], PieceType::Queen));
            }
            lemma_class_step(*pos, v4, v5, 4);
            assert forall|i: int| v5.len() <= i < v6.len() implies move_class(*pos, #[trigger] v6[i]) == 5 by {
                assert(piece_move(*pos, v6[i], PieceType::King));
            }
            lemma_class_step(*pos, v5, v6, 5);
            lemma_extends_trans(v1, v2, v3);
            lemma_extends_trans(v1, v3, v4);
            lemma_extends_trans(v1, v4, v5);
            lemma_extends_trans(v1, v5, v6);
            lemma_extends_trans(v2, v3, v4);
            lemma_extends_trans(v2, v4, v5);
            lemma_extends_trans(v2, v5, v6);
            lemma_extends_trans(v3, v4, v5);
            lemma_extends_trans(v3, v5, v6);
            lemma_extends_trans(v4, v5, v6);
            assert forall|i: int| 0 <= i < v6.len() implies pseudo_capture(*pos, #[trigger] v6[i]) by {
                if i < v1.len() {
                    assert(v6[i] == v1[i]);
                } else if i < v2.len() {
                    assert(v6[i] == v2[i]);
                } else if i < v3.len() {
                    assert(v6[i] == v3[i]);
                } else if i < v4.len() {
                    assert(v6[i] == v4[i]);
                } else if i < v5.len() {
                    assert(v6[i] == v5[i]);
                }
            }
            assert forall|m: Move| pseudo_capture(*pos, m) implies #[trigger] v6.contains(m) by {
                if pawn_move(*pos, m) {
                    assert(pawn_gen_ok(*pos, m, true));
                    lemma_extends_contains(v1, v6, m);
                } else if piece_move(*pos, m, PieceType::Knight) {
                    lemma_extends_contains(v2, v6, m);
                } else if piece_move(*pos, m, PieceType::Bishop) {
                    lemma_extends_contains(v3, v6, m);
                } else if piece_move(*pos, m, PieceType::Rook) {
                    lemma_extends_contains(v4, v6, m);
                } else if piece_move(*pos, m, PieceType::Queen) {
                    lemma_extends_contains(v5, v6, m);
                } else if piece_move(*pos, m, PieceType::King) {
                } else {
                    assert(castle_move(*pos, m));
                    crate::board::position::lemma_move_ranges(m);
                    assert(!m.capture_spec());
                }
            }
        }
        moves
    }

    /// Check if a square is attacked by the given side.
    pub fn is_attacked(pos: &Position, sq: u8, by: usize) -> (r: bool)
        requires
            pos.consistent(),
            sq < 64,
            by < 2,
        ensures
            r == attacked(*pos, sq as int, color_of_index(by as int)),
    {
        let ghost byc = color_of_index(by as int);
        let all = pos.all_occupancy();
        let them_pawn = pos.pieces[by];
        let them_knight = pos.pieces[2 + by];
        let them_bishop = pos.pieces[4 + by];
        let them_rook = pos.pieces[6 + by];
        let them_queen = pos.pieces[8 + by];
        let them_king = pos.pieces[10 + by];
        proof {
            assert forall|t: int| 0 <= t < 64 && #[trigger] pos.board@[t] is Some
                && pos.board@[t]->0.color == byc implies pos.pieces@[pos.board@[t]->0.idx()].has(
                t,
            ) by {
                crate::board::position::lemma_piece_index_roundtrip(pos.board@[t]->0);
            }
            assert forall|k: int, t: int| 0 <= k < 6 && 0 <= t < 64 implies (#[trigger] pos.pieces@[
                k * 2 + by].has(t) <==> pos.board@[t] == Some(
                Piece { kind: crate::board::position::kind_of_index(k), color: byc },
            )) by {
                assert((k * 2 + by) / 2 == k);
                assert((k * 2 + by) % 2 == by);
            }
        }

        let kn = knight_attacks(sq).bitand(them_knight);
        if !kn.is_empty() {
            proof {
                let t = choose|t: int| kn.has(t);
                assert(attacker_at(*pos, t, sq as int, byc));
            }
            return true;
        }
        let bq = bishop_attacks(sq, all).bitand(them_bishop.bitor(them_queen));
        if !bq.is_empty() {
            proof {
                let t = choose|t: int| bq.has(t);
                assert(attacker_at(*pos, t, sq as int, byc));
            }
            return true;
        }
        let rq = rook_attacks(sq, all).bitand(them_rook.bitor(them_queen));
        if !rq.is_empty() {
            proof {
                let t = choose|t: int| rq.has(t);
                assert(attacker_at(*pos, t, sq as int, byc));
            }
            return true;
        }
        let kg = king_attacks(sq).bitand(them_king);
        if !kg.is_empty() {
            proof {
                let t = choose|t: int| kg.has(t);
                assert(attacker_at(*pos, t, sq as int, byc));
            }
            return true;
        }

        let sq_bb = Bitboard::from_square(sq);
        if by == 0 {
            // White pawns attack upward — sq attacked by white pawn if pawn is one rank below
            let pe = sq_bb.shift_south().shift_east().bitand(them_pawn);
            if !pe.is_empty() {
                proof {
                    let t = choose|t: int| pe.has(t);
                    assert(attacker_at(*pos, t, sq as int, byc));
                }
                return true;
            }
            let pw = sq_bb.shift_south().shift_west().bitand(them_pawn);
            if !pw.is_empty() {
                proof {
                    let t = choose|t: int| pw.has(t);
                    assert(attacker_at(*pos, t, sq as int, byc));
                }
                return true;
            }
            proof {
                assert forall|t: int| !#[trigger] attacker_at(*pos, t, sq as int, byc) by {
                    if attacker_at(*pos, t, sq as int, byc) {
                        assert(kn.has(t) || bq.has(t) || rq.has(t) || kg.has(t) || pe.has(t)
                            || pw.has(t));
                    }
                }
            }
        } else {
            let pe = sq_bb.shift_north().shift_east().bitand(them_pawn);
            if !pe.is_empty() {
                proof {
                    let t = choose|t: int| pe.has(t);
                    assert(attacker_at(*pos, t, sq as int, byc));
                }
                return true;
            }
            let pw = sq_bb.shift_north().shift_west().bitand(them_pawn);
            if !pw.is_empty() {
                proof {
                    let t = choose|t: int| pw.has(t);
                    assert(attacker_at(*pos, t, sq as int, byc));
                }
                return true;
            }
            proof {
                assert forall|t: int| !#[trigger] attacker_at(*pos, t, sq as int, byc) by {
                    if attacker_at(*pos, t, sq as int, byc) {
                        assert(kn.has(t) || bq.has(t) || rq.has(t) || kg.has(t) || pe.has(t)
                            || pw.has(t));
                    }
                }
            }
        }
        false
    }

    /// The side to move has its king attacked.
    pub fn in_check(pos: &Position) -> (r: bool)
        requires
            pos.consistent(),
            pos.kings_ok(),
        ensures
            r == attacked(*pos, pos.king_sq@[pos.side.idx()] as int, pos.side.opposite()),
    {
        let us = pos.side.index();
        let them = 1 - us;
        proof {
            assert(pos.king_sq@[us as int] < 64);
        }
        Self::is_attacked(pos, pos.king_sq[us], them)
    }
}


// ── Legality ─────────────────────────────────────────────────────────────────

/// The side that just moved in `q` does not have its king attacked.
pub open spec fn king_safe_after(q: Position) -> bool {
    !attacked(q, q.king_sq@[q.side.opposite().idx()] as int, q.side)
}

/// A well-formed position that the side not to move has not left in check.
pub open spec fn legal_position(p: Position) -> bool {
    p.wf() && king_safe_after(p)
}

/// A pseudo-legal move that does not leave the mover's own king attacked.
pub open spec fn legal_move(p: Position, m: Move) -> bool {
    &&& pseudo_legal(p, m)
    &&& forall|q: Position| #[trigger] made(p, m, q) ==> king_safe_after(q)
}

/// The side to move has at least one legal move.
pub open spec fn has_legal_move(p: Position) -> bool {
    exists|m: Move| #[trigger] legal_move(p, m)
}

/// `line` is a sequence of legal moves played one after another from `p`.
pub open spec fn legal_line(p: Position, line: Seq<Move>) -> bool
    decreases line.len(),
{
    line.len() == 0 || {
        &&& legal_move(p, line[0])
        &&& forall|q: Position| #[trigger] made(p, line[0], q) ==> legal_line(q, line.drop_first())
    }
}

/// A move leads from a position to exactly one position.
pub proof fn lemma_made_unique(p: Position, m: Move, q1: Position, q2: Position)
    requires
        made(p, m, q1),
        made(p, m, q2),
    ensures
        q1 == q2,
{
    assert(q1.board =~= q2.board);
    lemma_same_board_same_bitboards(q1, q2);
    assert(q1.king_sq =~= q2.king_sq);
}

/// In a legal position every pseudo-legal move can be made.
pub proof fn lemma_legal_position_fits(p: Position, m: Move)
    requires
        legal_position(p),
        pseudo_legal(p, m),
    ensures
        move_fits(p, m),
{
    if takes_king(p, m) {
        lemma_takes_king_attacked(p, m);
        assert(false);
    }
    lemma_pseudo_legal_fits(p, m);
}

/// A pseudo-legal move is determined by its squares and, for a promotion,
/// the piece promoted to.
pub proof fn lemma_pseudo_legal_unique(p: Position, m1: Move, m2: Move)
    requires
        p.wf(),
        pseudo_legal(p, m1),
        pseudo_legal(p, m2),
        m1.from_spec() == m2.from_spec(),
        m1.to_spec() == m2.to_spec(),
        m1.promo_spec() && m2.promo_spec() ==> m1.promo_piece_spec() == m2.promo_piece_spec(),
    ensures
        m1 == m2,
{
    crate::board::position::lemma_move_ranges(m1);
    crate::board::position::lemma_move_ranges(m2);
    let f = m1.from_spec();
    let t = m1.to_spec();
    let fl1 = m1.flags_spec();
    let fl2 = m2.flags_spec();
    assert(m1 == encode(f, t, fl1));
    assert(m2 == encode(f, t, fl2));
    if castle_move(p, m1) || castle_move(p, m2) {
        assert(p.board@[f] == Some(Piece { kind: PieceType::King, color: p.side }));
        assert(!king_step(f, t));
    }
    if p.ep_sq != NO_SQ {
        assert(p.board@[p.ep_sq as int] is None);
    }
    if m1.promo_spec() && m2.promo_spec() {
        assert(crate::board::position::promo_of_bits(fl1 % 4) == crate::board::position::promo_of_bits(
            fl2 % 4,
        ));
        assert(fl1 % 4 == fl2 % 4);
    }
    assert(fl1 == fl2);
}

/// A pseudo-legal move leaves its square; so the null move is never one.
pub proof fn lemma_pseudo_legal_moves(p: Position, m: Move)
    requires
        pseudo_legal(p, m),
    ensures
        m.from_spec() != m.to_spec(),
        m != Move(0),
{
    crate::board::position::lemma_move_ranges(m);
    let f = m.from_spec();
    let occ = occ_bits(p);
    lemma_ray_not_origin(f, 1, 1, occ);
    lemma_ray_not_origin(f, 1, -1, occ);
    lemma_ray_not_origin(f, -1, 1, occ);
    lemma_ray_not_origin(f, -1, -1, occ);
    lemma_ray_not_origin(f, 0, 1, occ);
    lemma_ray_not_origin(f, 0, -1, occ);
    lemma_ray_not_origin(f, 1, 0, occ);
    lemma_ray_not_origin(f, -1, 0, occ);
    assert(Move(0).from_spec() == 0 && Move(0).to_spec() == 0) by {
        assert(0u32 & 0x3F == 0 && (0u32 >> 6u32) & 0x3F == 0) by (bit_vector);
    }
}

/// A sequence whose moves are pairwise different, in vstd's terms.
proof fn lemma_no_dup_distinct(v: Seq<Move>)
    requires
        no_dup(v),
    ensures
        v.no_duplicates(),
{
    assert forall|i: int, j: int| 0 <= i < v.len() && 0 <= j < v.len() && i != j implies v[i] != v[j] by {
        if i < j {
            assert(v[i] != v[j]);
        } else {
            assert(v[j] != v[i]);
        }
    }
}

/// Filtering keeps a sequence free of duplicates.
proof fn lemma_filter_distinct(s: Seq<Move>, pred: spec_fn(Move) -> bool)
    requires
        s.no_duplicates(),
    ensures
        s.filter(pred).no_duplicates(),
    decreases s.len(),
{
    reveal(Seq::filter);
    if s.len() > 0 {
        let t = s.drop_last();
        lemma_filter_distinct(t, pred);
        let f = t.filter(pred);
        if pred(s.last()) {
            if f.contains(s.last()) {
                t.lemma_filter_contains_rev(pred, s.last());
                let j = choose|j: int| 0 <= j < t.len() && t[j] == s.last();
                assert(s[j] == s[s.len() - 1]);
            }
            let g = f.push(s.last());
            assert(s.filter(pred) == g);
            assert forall|i: int, j: int| 0 <= i < g.len() && 0 <= j < g.len() && i != j implies g[i] != g[j] by {
                if i < g.len() - 1 && j < g.len() - 1 {
                    assert(g[i] == f[i] && g[j] == f[j]);
                } else if i == g.len() - 1 {
                    assert(f.contains(g[j]));
                } else {
                    assert(f.contains(g[i]));
                }
            }
        }
    }
}

/// In a sequence without duplicates each member counts once.
proof fn lemma_distinct_count(s: Seq<Move>, x: Move)
    requires
        s.no_duplicates(),
    ensures
        s.to_multiset().count(x) == (if s.contains(x) { 1nat } else { 0nat }),
{
    s.lemma_multiset_has_no_duplicates();
    vstd::seq_lib::to_multiset_contains(s, x);
    broadcast use vstd::multiset::group_multiset_axioms;
}

/// The captures `generate_captures` gives are, counted with multiplicity, the
/// capturing moves `generate` gives.
pub proof fn lemma_captures_match_generate(p: Position, caps: Seq<Move>, all: Seq<Move>)
    requires
        forall|i: int| 0 <= i < caps.len() ==> pseudo_capture(p, #[trigger] caps[i]),
        forall|m: Move| pseudo_capture(p, m) ==> #[trigger] caps.contains(m),
        no_dup(caps),
        forall|i: int| 0 <= i < all.len() ==> pseudo_legal(p, #[trigger] all[i]),
        forall|m: Move| pseudo_legal(p, m) ==> #[trigger] all.contains(m),
        no_dup(all),
    ensures
        caps.to_multiset() =~= all.filter(|m: Move| m.capture_spec()).to_multiset(),
{
    let pred = |m: Move| m.capture_spec();
    let f = all.filter(pred);
    lemma_no_dup_distinct(caps);
    lemma_no_dup_distinct(all);
    lemma_filter_distinct(all, pred);
    assert forall|x: Move| caps.to_multiset().count(x) == f.to_multiset().count(x) by {
        lemma_distinct_count(caps, x);
        lemma_distinct_count(f, x);
        if caps.contains(x) {
            let i = choose|i: int| 0 <= i < caps.len() && caps[i] == x;
            assert(pseudo_capture(p, caps[i]));
            assert(all.contains(x));
            let j = choose|j: int| 0 <= j < all.len() && all[j] == x;
            all.lemma_filter_contains(pred, j);
        }
        if f.contains(x) {
            all.lemma_filter_contains_rev(pred, x);
            let k = choose|k: int| 0 <= k < f.len() && f[k] == x;
            all.lemma_filter_pred(pred, k);
            let j = choose|j: int| 0 <= j < all.len() && all[j] == x;
            assert(pseudo_legal(p, all[j]));
            assert(pseudo_capture(p, x));
        }
    }
}

} // verus!
