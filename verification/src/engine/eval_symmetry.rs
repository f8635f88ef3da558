use vstd::prelude::*;

use crate::board::bitboard::{bit, lemma_or_bits};
use crate::board::position::{Color, Piece, PieceType, Position};
use crate::engine::eval::{
    bishop_pair, count_where, eg_fn, eg_on, has_major_or_pawn, has_piece, insufficient_material,
    king_safety_spec, last_bishop_light, light_square, material_fn, material_on, mg_fn, mg_on,
    mob_target_fn, mobility, non_king_fn, non_king_on, passed_pawn, pawn_on, pawn_rank_fn,
    pawn_term, pawns_on_file, phase_fn, phase_on, piece_at_fn, piece_count, rook_term,
    shield_file, structure_fn, structure_on, sum_to, chebyshev_spec, edge_dist_spec, endgame_term,
    eval_spec, game_phase, tdiv, white_score, DRAW_SCORE, MAX_PHASE,
};
use crate::board::position::color_of_index;
use crate::moves::generator::occ_bits;
use crate::moves::attacks::{
    bishop_attack, file_of, king_step, knight_step, on_board, rank_of, ray_attack, ray_reaches,
    rook_attack, square_at,
};
use crate::moves::generator::piece_attack;

verus! {

/// The square on the same file, rank counted from the other side.
pub open spec fn mirror_sq(sq: int) -> int {
    (7 - sq / 8) * 8 + sq % 8
}

/// Summing over the board in mirrored order gives the same sum.
proof fn lemma_sum_mirror(f: spec_fn(int) -> int, g: spec_fn(int) -> int)
    requires
        forall|i: int| 0 <= i < 64 ==> #[trigger] g(i) == f(mirror_sq(i)),
    ensures
        sum_to(64, g) == sum_to(64, f),
{
    reveal_with_fuel(sum_to, 65);
}

pub open spec fn indicator(f: spec_fn(int) -> bool) -> spec_fn(int) -> int {
    |i: int| if f(i) { 1int } else { 0int }
}

proof fn lemma_count_as_sum(n: int, f: spec_fn(int) -> bool)
    requires
        n >= 0,
    ensures
        count_where(n, f) == sum_to(n, indicator(f)),
    decreases n,
{
    if n > 0 {
        lemma_count_as_sum(n - 1, f);
    }
}

/// Summing the negated terms in mirrored order gives the negated sum.
proof fn lemma_sum_mirror_neg(f: spec_fn(int) -> int, g: spec_fn(int) -> int)
    requires
        forall|i: int| 0 <= i < 64 ==> #[trigger] g(i) == -f(mirror_sq(i)),
    ensures
        sum_to(64, g) == -sum_to(64, f),
{
    reveal_with_fuel(sum_to, 65);
}

/// Counting over the board in mirrored order gives the same count.
proof fn lemma_count_mirror(f: spec_fn(int) -> bool, g: spec_fn(int) -> bool)
    requires
        forall|i: int| 0 <= i < 64 ==> #[trigger] g(i) == f(mirror_sq(i)),
    ensures
        count_where(64, g) == count_where(64, f),
{
    lemma_count_as_sum(64, f);
    lemma_count_as_sum(64, g);
    assert forall|i: int| 0 <= i < 64 implies #[trigger] indicator(g)(i) == indicator(f)(mirror_sq(i)) by {
        assert(g(i) == f(mirror_sq(i)));
    }
    lemma_sum_mirror(indicator(f), indicator(g));
}

/// Counting over the eight ranks in reverse order gives the same count.
proof fn lemma_count_reversed8(f: spec_fn(int) -> bool, g: spec_fn(int) -> bool)
    requires
        forall|i: int| 0 <= i < 8 ==> #[trigger] g(i) == f(7 - i),
    ensures
        count_where(8, g) == count_where(8, f),
{
    reveal_with_fuel(count_where, 9);
}

/// `bq` holds the squares of `bp`, mirrored.
pub open spec fn mirrored_bits(bp: u64, bq: u64) -> bool {
    forall|sq: int| 0 <= sq < 64 ==> #[trigger] bit(bq, sq) == bit(bp, mirror_sq(sq))
}

proof fn lemma_mirror_square(f: int, r: int)
    requires
        on_board(f, r),
    ensures
        mirror_sq(square_at(f, r)) == square_at(f, 7 - r),
        0 <= square_at(f, r) < 64,
{
    assert((r * 8 + f) / 8 == r);
    assert((r * 8 + f) % 8 == f);
}

proof fn lemma_mirror_involution(sq: int)
    requires
        0 <= sq < 64,
    ensures
        0 <= mirror_sq(sq) < 64,
        mirror_sq(mirror_sq(sq)) == sq,
        file_of(mirror_sq(sq)) == file_of(sq),
        rank_of(mirror_sq(sq)) == 7 - rank_of(sq),
{
    let m = mirror_sq(sq);
    assert(m / 8 == 7 - sq / 8);
    assert(m % 8 == sq % 8);
}

/// A ray walked on the mirrored board, in the mirrored direction, reaches the
/// mirrored squares.
proof fn lemma_ray_flip(f: int, r: int, df: int, dr: int, bp: u64, bq: u64, t: int, n: nat)
    requires
        on_board(f, r),
        0 <= t < 64,
        mirrored_bits(bp, bq),
    ensures
        ray_reaches(f, 7 - r, df, -dr, bq, mirror_sq(t), n) == ray_reaches(f, r, df, dr, bp, t, n),
    decreases n,
{
    if n > 0 {
        let nf = f + df;
        let nr = r + dr;
        assert(7 - r + (-dr) == 7 - nr);
        if on_board(nf, nr) {
            let s = square_at(nf, nr);
            lemma_mirror_square(nf, nr);
            lemma_mirror_involution(s);
            lemma_mirror_involution(t);
            assert(bit(bq, mirror_sq(s)) == bit(bp, s));
            assert((mirror_sq(t) == mirror_sq(s)) == (t == s));
            lemma_ray_flip(nf, nr, df, dr, bp, bq, t, (n - 1) as nat);
        }
    }
}

proof fn lemma_ray_attack_flip(s: int, df: int, dr: int, bp: u64, bq: u64, t: int)
    requires
        0 <= s < 64,
        0 <= t < 64,
        mirrored_bits(bp, bq),
    ensures
        ray_attack(mirror_sq(s), df, -dr, bq, mirror_sq(t)) == ray_attack(s, df, dr, bp, t),
{
    lemma_mirror_involution(s);
    lemma_ray_flip(file_of(s), rank_of(s), df, dr, bp, bq, t, 8);
}

/// Every piece attacks on the mirrored board what it attacks on the board,
/// mirrored.
pub proof fn lemma_attack_flip(kind: PieceType, s: int, t: int, bp: u64, bq: u64)
    requires
        0 <= s < 64,
        0 <= t < 64,
        mirrored_bits(bp, bq),
    ensures
        piece_attack(kind, mirror_sq(s), mirror_sq(t), bq) == piece_attack(kind, s, t, bp),
{
    lemma_mirror_involution(s);
    lemma_mirror_involution(t);
    lemma_ray_attack_flip(s, 1, 1, bp, bq, t);
    lemma_ray_attack_flip(s, 1, -1, bp, bq, t);
    lemma_ray_attack_flip(s, -1, 1, bp, bq, t);
    lemma_ray_attack_flip(s, -1, -1, bp, bq, t);
    lemma_ray_attack_flip(s, 0, 1, bp, bq, t);
    lemma_ray_attack_flip(s, 0, -1, bp, bq, t);
    lemma_ray_attack_flip(s, 1, 0, bp, bq, t);
    lemma_ray_attack_flip(s, -1, 0, bp, bq, t);
    assert(bishop_attack(mirror_sq(s), bq, mirror_sq(t)) == bishop_attack(s, bp, t));
    assert(rook_attack(mirror_sq(s), bq, mirror_sq(t)) == rook_attack(s, bp, t));
    assert(knight_step(mirror_sq(s), mirror_sq(t)) == knight_step(s, t));
    assert(king_step(mirror_sq(s), mirror_sq(t)) == king_step(s, t));
}

/// The same piece in the other colour.
pub open spec fn mirror_piece(x: Option<Piece>) -> Option<Piece> {
    match x {
        Some(pc) => Some(Piece { kind: pc.kind, color: pc.color.opposite() }),
        None => None,
    }
}

/// `c` is `b` turned around: each rank seen from the other side, and every
/// piece in the other colour.
pub open spec fn mirrored_board(b: Seq<Option<Piece>>, c: Seq<Option<Piece>>) -> bool {
    forall|sq: int| 0 <= sq < 64 ==> #[trigger] c[sq] == mirror_piece(b[mirror_sq(sq)])
}

proof fn lemma_mirrored_back(b: Seq<Option<Piece>>, c: Seq<Option<Piece>>, sq: int)
    requires
        mirrored_board(b, c),
        0 <= sq < 64,
    ensures
        b[sq] == mirror_piece(c[mirror_sq(sq)]),
{
    lemma_mirror_involution(sq);
    assert(c[mirror_sq(sq)] == mirror_piece(b[mirror_sq(mirror_sq(sq))]));
}

/// Occupancy of both colours, and of each colour against the other, is mirrored.
proof fn lemma_mirrored_occupancy(p: Position, q: Position)
    requires
        p.consistent(),
        q.consistent(),
        mirrored_board(p.board@, q.board@),
    ensures
        mirrored_bits(occ_bits(p), occ_bits(q)),
        mirrored_bits(p.occupancy@[0].0, q.occupancy@[1].0),
        mirrored_bits(p.occupancy@[1].0, q.occupancy@[0].0),
{
    lemma_or_bits(p.occupancy@[0].0, p.occupancy@[1].0);
    lemma_or_bits(q.occupancy@[0].0, q.occupancy@[1].0);
    assert forall|sq: int| 0 <= sq < 64 implies #[trigger] bit(q.occupancy@[1].0, sq) == bit(
        p.occupancy@[0].0,
        mirror_sq(sq),
    ) by {
        lemma_mirror_involution(sq);
        let m = mirror_sq(sq);
        assert(q.occupancy@[1].has(sq) == (q.board@[sq] is Some && q.board@[sq]->0.color.idx() == 1));
        assert(p.occupancy@[0].has(m) == (p.board@[m] is Some && p.board@[m]->0.color.idx() == 0));
        assert(q.board@[sq] == mirror_piece(p.board@[m]));
    }
    assert forall|sq: int| 0 <= sq < 64 implies #[trigger] bit(q.occupancy@[0].0, sq) == bit(
        p.occupancy@[1].0,
        mirror_sq(sq),
    ) by {
        lemma_mirror_involution(sq);
        let m = mirror_sq(sq);
        assert(q.occupancy@[0].has(sq) == (q.board@[sq] is Some && q.board@[sq]->0.color.idx() == 0));
        assert(p.occupancy@[1].has(m) == (p.board@[m] is Some && p.board@[m]->0.color.idx() == 1));
        assert(q.board@[sq] == mirror_piece(p.board@[m]));
    }
    assert forall|sq: int| 0 <= sq < 64 implies #[trigger] bit(occ_bits(q), sq) == bit(
        occ_bits(p),
        mirror_sq(sq),
    ) by {
        lemma_mirror_involution(sq);
        assert(bit(q.occupancy@[0].0, sq) == bit(p.occupancy@[1].0, mirror_sq(sq)));
        assert(bit(q.occupancy@[1].0, sq) == bit(p.occupancy@[0].0, mirror_sq(sq)));
    }
}

/// A pawn on the mirrored board stands on the mirrored rank, in the other
/// colour.
proof fn lemma_pawn_on_mirror(b: Seq<Option<Piece>>, c: Seq<Option<Piece>>, color: Color, f: int, r: int)
    requires
        mirrored_board(b, c),
    ensures
        pawn_on(c, color, f, r) == pawn_on(b, color.opposite(), f, 7 - r),
{
    if 0 <= f < 8 && 0 <= r < 8 {
        lemma_mirror_square(f, r);
        assert(c[8 * r + f] == mirror_piece(b[mirror_sq(8 * r + f)]));
        assert(mirror_sq(8 * r + f) == 8 * (7 - r) + f);
    }
}

proof fn lemma_pawns_on_file_mirror(b: Seq<Option<Piece>>, c: Seq<Option<Piece>>, color: Color, f: int)
    requires
        mirrored_board(b, c),
    ensures
        pawns_on_file(c, color, f) == pawns_on_file(b, color.opposite(), f),
{
    assert forall|r: int| 0 <= r < 8 implies #[trigger] pawn_rank_fn(c, color, f)(r) == pawn_rank_fn(
        b,
        color.opposite(),
        f,
    )(7 - r) by {
        lemma_pawn_on_mirror(b, c, color, f, r);
    }
    lemma_count_reversed8(pawn_rank_fn(b, color.opposite(), f), pawn_rank_fn(c, color, f));
}

proof fn lemma_pawn_term_mirror(b: Seq<Option<Piece>>, c: Seq<Option<Piece>>, color: Color, f: int, r: int)
    requires
        mirrored_board(b, c),
    ensures
        pawn_term(c, color, f, r) == pawn_term(b, color.opposite(), f, 7 - r),
{
    lemma_pawns_on_file_mirror(b, c, color, f - 1);
    lemma_pawns_on_file_mirror(b, c, color, f + 1);
    assert(crate::engine::eval::pawn_behind(c, color, f, r) == crate::engine::eval::pawn_behind(
        b,
        color.opposite(),
        f,
        7 - r,
    )) by {
        if crate::engine::eval::pawn_behind(c, color, f, r) {
            let rr = choose|rr: int| crate::engine::eval::ahead(color, rr, r) && #[trigger] pawn_on(c, color, f, rr);
            lemma_pawn_on_mirror(b, c, color, f, rr);
            assert(pawn_on(b, color.opposite(), f, 7 - rr));
        }
        if crate::engine::eval::pawn_behind(b, color.opposite(), f, 7 - r) {
            let rr = choose|rr: int|
                crate::engine::eval::ahead(color.opposite(), rr, 7 - r) && #[trigger] pawn_on(
                    b,
                    color.opposite(),
                    f,
                    rr,
                );
            lemma_pawn_on_mirror(b, c, color, f, 7 - rr);
            assert(pawn_on(c, color, f, 7 - rr));
        }
    }
    assert(passed_pawn(c, color, f, r) == passed_pawn(b, color.opposite(), f, 7 - r)) by {
        assert forall|ff: int, rr: int| #[trigger] pawn_on(c, color.opposite(), ff, rr) == pawn_on(
            b,
            color,
            ff,
            7 - rr,
        ) by {
            lemma_pawn_on_mirror(b, c, color.opposite(), ff, rr);
        }
        if passed_pawn(c, color, f, r) {
            assert forall|ff: int, rr: int|
                f - 1 <= ff <= f + 1 && crate::engine::eval::ahead(color.opposite(), 7 - r, rr) implies !#[trigger] pawn_on(
                b,
                color,
                ff,
                rr,
            ) by {
                assert(pawn_on(c, color.opposite(), ff, 7 - rr) == pawn_on(b, color, ff, 7 - (7 - rr)));
            }
        }
        if passed_pawn(b, color.opposite(), f, 7 - r) {
            assert forall|ff: int, rr: int|
                f - 1 <= ff <= f + 1 && crate::engine::eval::ahead(color, r, rr) implies !#[trigger] pawn_on(
                c,
                color.opposite(),
                ff,
                rr,
            ) by {
                assert(pawn_on(c, color.opposite(), ff, rr) == pawn_on(b, color, ff, 7 - rr));
            }
        }
    }
}

proof fn lemma_rook_term_mirror(b: Seq<Option<Piece>>, c: Seq<Option<Piece>>, color: Color, f: int)
    requires
        mirrored_board(b, c),
    ensures
        rook_term(c, color, f) == rook_term(b, color.opposite(), f),
{
    lemma_pawns_on_file_mirror(b, c, color, f);
    lemma_pawns_on_file_mirror(b, c, color.opposite(), f);
}

/// The terms of a square on the mirrored board are those of the mirrored
/// square, the coloured ones negated.
proof fn lemma_square_terms(p: Position, q: Position, sq: int)
    requires
        p.consistent(),
        q.consistent(),
        mirrored_board(p.board@, q.board@),
        0 <= sq < 64,
    ensures
        mg_on(q.board@, sq) == -mg_on(p.board@, mirror_sq(sq)),
        eg_on(q.board@, sq) == -eg_on(p.board@, mirror_sq(sq)),
        phase_on(q.board@, sq) == phase_on(p.board@, mirror_sq(sq)),
        non_king_on(q.board@, sq) == non_king_on(p.board@, mirror_sq(sq)),
        material_on(q.board@, Color::White, sq) == material_on(p.board@, Color::Black, mirror_sq(sq)),
        material_on(q.board@, Color::Black, sq) == material_on(p.board@, Color::White, mirror_sq(sq)),
        structure_on(q, sq) == -structure_on(p, mirror_sq(sq)),
{
    let m = mirror_sq(sq);
    lemma_mirror_involution(sq);
    let b = p.board@;
    let c = q.board@;
    assert(c[sq] == mirror_piece(b[m]));
    if b[m] is Some {
        let pc = b[m]->0;
        assert(crate::engine::eval::pst_index_spec(sq, pc.color.opposite())
            == crate::engine::eval::pst_index_spec(m, pc.color));
        lemma_mirrored_occupancy(p, q);
        let own_p = p.occupancy@[pc.color.idx()].0;
        let own_q = q.occupancy@[pc.color.opposite().idx()].0;
        assert(mirrored_bits(own_p, own_q));
        let occ_p = occ_bits(p);
        let occ_q = occ_bits(q);
        assert forall|i: int| 0 <= i < 64 implies #[trigger] mob_target_fn(pc.kind, sq, occ_q, own_q)(i)
            == mob_target_fn(pc.kind, m, occ_p, own_p)(mirror_sq(i)) by {
            lemma_mirror_involution(i);
            lemma_attack_flip(pc.kind, m, mirror_sq(i), occ_p, occ_q);
        }
        lemma_count_mirror(mob_target_fn(pc.kind, m, occ_p, own_p), mob_target_fn(pc.kind, sq, occ_q, own_q));
        assert(mobility(pc.kind, sq, occ_q, own_q) == mobility(pc.kind, m, occ_p, own_p));
        lemma_pawn_term_mirror(b, c, pc.color.opposite(), sq % 8, sq / 8);
        lemma_rook_term_mirror(b, c, pc.color.opposite(), sq % 8);
        assert(m % 8 == sq % 8 && m / 8 == 7 - sq / 8);
    }
}

proof fn lemma_piece_count_mirror(b: Seq<Option<Piece>>, c: Seq<Option<Piece>>, kind: PieceType, color: Color)
    requires
        mirrored_board(b, c),
    ensures
        piece_count(c, kind, color) == piece_count(b, kind, color.opposite()),
{
    assert forall|i: int| 0 <= i < 64 implies #[trigger] piece_at_fn(c, kind, color)(i) == piece_at_fn(
        b,
        kind,
        color.opposite(),
    )(mirror_sq(i)) by {
        lemma_mirror_involution(i);
        assert(c[i] == mirror_piece(b[mirror_sq(i)]));
    }
    lemma_count_mirror(piece_at_fn(b, kind, color.opposite()), piece_at_fn(c, kind, color));
}

/// `s` is the only `i` below `n` with `f(i)`.
pub open spec fn only_at(f: spec_fn(int) -> bool, n: int, s: int) -> bool {
    0 <= s < n && f(s) && forall|t: int| 0 <= t < n && t != s ==> !#[trigger] f(t)
}

/// With exactly one `i` below `n` for which `f` holds, there is such an `i`.
proof fn lemma_count_one(n: int, f: spec_fn(int) -> bool)
    requires
        0 <= n,
        count_where(n, f) == 1,
    ensures
        exists|s: int| #[trigger] only_at(f, n, s),
    decreases n,
{
    if f(n - 1) {
        assert(count_where(n - 1, f) == 0);
        lemma_count_zero(n - 1, f);
        assert(only_at(f, n, n - 1));
    } else {
        lemma_count_one(n - 1, f);
        let s = choose|s: int| #[trigger] only_at(f, n - 1, s);
        assert(only_at(f, n, s));
    }
}

proof fn lemma_count_zero(n: int, f: spec_fn(int) -> bool)
    requires
        0 <= n,
        count_where(n, f) == 0,
    ensures
        forall|t: int| 0 <= t < n ==> !#[trigger] f(t),
    decreases n,
{
    if n > 0 {
        lemma_count_zero(n - 1, f);
    }
}

/// The last bishop of `color` below `n` is the only one there is.
proof fn lemma_last_bishop(b: Seq<Option<Piece>>, color: Color, n: int, s: int)
    requires
        0 <= s < n,
        has_piece(b, s, PieceType::Bishop, color),
        forall|t: int| 0 <= t < n && t != s ==> !#[trigger] has_piece(b, t, PieceType::Bishop, color),
    ensures
        last_bishop_light(b, color, n) == light_square(s),
    decreases n,
{
    if s < n - 1 {
        assert(!has_piece(b, n - 1, PieceType::Bishop, color));
        lemma_last_bishop(b, color, n - 1, s);
    }
}

/// The square colour of a lone bishop of `color`.
proof fn lemma_lone_bishop(b: Seq<Option<Piece>>, color: Color)
    requires
        piece_count(b, PieceType::Bishop, color) == 1,
    ensures
        exists|s: int|
            0 <= s < 64 && #[trigger] has_piece(b, s, PieceType::Bishop, color) && last_bishop_light(
                b,
                color,
                64,
            ) == light_square(s),
{
    let f = piece_at_fn(b, PieceType::Bishop, color);
    lemma_count_one(64, f);
    let s = choose|s: int| #[trigger] only_at(f, 64, s);
    assert forall|t: int| 0 <= t < 64 && t != s implies !#[trigger] has_piece(b, t, PieceType::Bishop, color) by {
        assert(!f(t));
    }
    assert(has_piece(b, s, PieceType::Bishop, color)) by {
        assert(f(s));
    }
    lemma_last_bishop(b, color, 64, s);
}

proof fn lemma_lone_bishop_mirror(b: Seq<Option<Piece>>, c: Seq<Option<Piece>>, color: Color)
    requires
        mirrored_board(b, c),
        piece_count(b, PieceType::Bishop, color.opposite()) == 1,
    ensures
        last_bishop_light(c, color, 64) == !last_bishop_light(b, color.opposite(), 64),
{
    lemma_piece_count_mirror(b, c, PieceType::Bishop, color);
    lemma_lone_bishop(b, color.opposite());
    lemma_lone_bishop(c, color);
    let s = choose|s: int|
        0 <= s < 64 && #[trigger] has_piece(b, s, PieceType::Bishop, color.opposite()) && last_bishop_light(
            b,
            color.opposite(),
            64,
        ) == light_square(s);
    let t = choose|t: int|
        0 <= t < 64 && #[trigger] has_piece(c, t, PieceType::Bishop, color) && last_bishop_light(
            c,
            color,
            64,
        ) == light_square(t);
    lemma_mirror_involution(t);
    assert(c[t] == mirror_piece(b[mirror_sq(t)]));
    assert(has_piece(b, mirror_sq(t), PieceType::Bishop, color.opposite()));
    // The lone bishop of `b` is the mirror of the one of `c`.
    lemma_count_one(64, piece_at_fn(b, PieceType::Bishop, color.opposite()));
    let u = choose|u: int| #[trigger] only_at(piece_at_fn(b, PieceType::Bishop, color.opposite()), 64, u);
    assert(piece_at_fn(b, PieceType::Bishop, color.opposite())(s));
    assert(piece_at_fn(b, PieceType::Bishop, color.opposite())(mirror_sq(t)));
    assert(s == mirror_sq(t));
    assert(light_square(mirror_sq(t)) == !light_square(t));
}

/// Insufficient material is the same on the mirrored board.
proof fn lemma_insufficient_mirror(b: Seq<Option<Piece>>, c: Seq<Option<Piece>>)
    requires
        mirrored_board(b, c),
    ensures
        insufficient_material(c) == insufficient_material(b),
{
    lemma_piece_count_mirror(b, c, PieceType::Knight, Color::White);
    lemma_piece_count_mirror(b, c, PieceType::Knight, Color::Black);
    lemma_piece_count_mirror(b, c, PieceType::Bishop, Color::White);
    lemma_piece_count_mirror(b, c, PieceType::Bishop, Color::Black);
    assert(has_major_or_pawn(c) == has_major_or_pawn(b)) by {
        if has_major_or_pawn(c) {
            let sq = choose|sq: int|
                0 <= sq < 64 && #[trigger] c[sq] is Some && (c[sq]->0.kind == PieceType::Pawn
                    || c[sq]->0.kind == PieceType::Rook || c[sq]->0.kind == PieceType::Queen);
            lemma_mirror_involution(sq);
            assert(c[sq] == mirror_piece(b[mirror_sq(sq)]));
            assert(b[mirror_sq(sq)] is Some);
        }
        if has_major_or_pawn(b) {
            let sq = choose|sq: int|
                0 <= sq < 64 && #[trigger] b[sq] is Some && (b[sq]->0.kind == PieceType::Pawn
                    || b[sq]->0.kind == PieceType::Rook || b[sq]->0.kind == PieceType::Queen);
            lemma_mirror_involution(sq);
            assert(c[mirror_sq(sq)] == mirror_piece(b[mirror_sq(mirror_sq(sq))]));
            assert(c[mirror_sq(sq)] is Some);
        }
    }
    if piece_count(b, PieceType::Bishop, Color::White) == 1 && piece_count(b, PieceType::Bishop, Color::Black)
        == 1 {
        lemma_lone_bishop_mirror(b, c, Color::White);
        lemma_lone_bishop_mirror(b, c, Color::Black);
    }
}

/// The kings of the mirrored board stand on the mirrored squares, colours
/// swapped.
proof fn lemma_kings_mirror(p: Position, q: Position)
    requires
        p.kings_ok(),
        q.kings_ok(),
        mirrored_board(p.board@, q.board@),
    ensures
        q.king_sq@[0] as int == mirror_sq(p.king_sq@[1] as int),
        q.king_sq@[1] as int == mirror_sq(p.king_sq@[0] as int),
{
    assert forall|c: int| 0 <= c < 2 implies #[trigger] q.king_sq@[c] as int == mirror_sq(
        p.king_sq@[1 - c] as int,
    ) by {
        let s = p.king_sq@[1 - c] as int;
        assert(p.king_sq@[1 - c] < 64);
        assert(q.king_sq@[c] < 64);
        lemma_mirror_involution(s);
        assert(p.board@[s] == Some(Piece { kind: PieceType::King, color: color_of_index(1 - c) }));
        assert(q.board@[mirror_sq(s)] == mirror_piece(p.board@[mirror_sq(mirror_sq(s))]));
        assert(color_of_index(1 - c).opposite() == color_of_index(c));
        assert(q.board@[mirror_sq(s)] == Some(Piece { kind: PieceType::King, color: color_of_index(c) }));
    }
    assert(q.king_sq@[0] as int == mirror_sq(p.king_sq@[1 - 0] as int));
    assert(q.king_sq@[1] as int == mirror_sq(p.king_sq@[1 - 1] as int));
}

proof fn lemma_king_safety_mirror(p: Position, q: Position, color: Color)
    requires
        p.kings_ok(),
        q.kings_ok(),
        mirrored_board(p.board@, q.board@),
    ensures
        king_safety_spec(q, color) == king_safety_spec(p, color.opposite()),
{
    lemma_kings_mirror(p, q);
    let kp = p.king_sq@[color.opposite().idx()] as int;
    assert(p.king_sq@[color.opposite().idx()] < 64);
    lemma_mirror_involution(kp);
    let kq = q.king_sq@[color.idx()] as int;
    assert(kq == mirror_sq(kp));
    let kf = kp % 8;
    let kr = kp / 8;
    assert(kq % 8 == kf && kq / 8 == 7 - kr);
    let (r1, r2) = if color == Color::White { (7 - kr + 1, 7 - kr + 2) } else { (7 - kr - 1, 7 - kr - 2) };
    assert forall|f: int| #[trigger] shield_file(q.board@, color, f, r1, r2) == shield_file(
        p.board@,
        color.opposite(),
        f,
        7 - r1,
        7 - r2,
    ) by {
        lemma_pawn_on_mirror(p.board@, q.board@, color, f, r1);
        lemma_pawn_on_mirror(p.board@, q.board@, color, f, r2);
    }
    assert(shield_file(q.board@, color, kf - 1, r1, r2) == shield_file(p.board@, color.opposite(), kf - 1, 7 - r1, 7 - r2));
    assert(shield_file(q.board@, color, kf, r1, r2) == shield_file(p.board@, color.opposite(), kf, 7 - r1, 7 - r2));
    assert(shield_file(q.board@, color, kf + 1, r1, r2) == shield_file(p.board@, color.opposite(), kf + 1, 7 - r1, 7 - r2));
}

proof fn lemma_distances_mirror(a: int, b: int)
    requires
        0 <= a < 64,
        0 <= b < 64,
    ensures
        chebyshev_spec(mirror_sq(a), mirror_sq(b)) == chebyshev_spec(a, b),
        edge_dist_spec(mirror_sq(a)) == edge_dist_spec(a),
{
    lemma_mirror_involution(a);
    lemma_mirror_involution(b);
    assert(mirror_sq(a) % 8 == a % 8 && mirror_sq(a) / 8 == 7 - a / 8);
    assert(mirror_sq(b) % 8 == b % 8 && mirror_sq(b) / 8 == 7 - b / 8);
}

proof fn lemma_tdiv_neg(x: int)
    ensures
        tdiv(-x, MAX_PHASE as int) == -tdiv(x, MAX_PHASE as int),
{
}

/// The evaluation is blind to colour: turning the board around (each rank seen
/// from the other side, every piece in the other colour) with the other side
/// to move scores the same for the side to move.
pub proof fn lemma_eval_mirror(p: Position, q: Position)
    requires
        p.consistent(),
        p.kings_ok(),
        q.consistent(),
        q.kings_ok(),
        mirrored_board(p.board@, q.board@),
        q.side == p.side.opposite(),
    ensures
        eval_spec(q) == eval_spec(p),
{
    let b = p.board@;
    let c = q.board@;
    lemma_insufficient_mirror(b, c);
    // Sums over the board.
    assert forall|i: int| 0 <= i < 64 implies #[trigger] mg_fn(c)(i) == -mg_fn(b)(mirror_sq(i)) by {
        lemma_square_terms(p, q, i);
    }
    assert forall|i: int| 0 <= i < 64 implies #[trigger] eg_fn(c)(i) == -eg_fn(b)(mirror_sq(i)) by {
        lemma_square_terms(p, q, i);
    }
    assert forall|i: int| 0 <= i < 64 implies #[trigger] phase_fn(c)(i) == phase_fn(b)(mirror_sq(i)) by {
        lemma_square_terms(p, q, i);
    }
    assert forall|i: int| 0 <= i < 64 implies #[trigger] structure_fn(q)(i) == -structure_fn(p)(mirror_sq(i)) by {
        lemma_square_terms(p, q, i);
    }
    assert forall|i: int| 0 <= i < 64 implies #[trigger] non_king_fn(c)(i) == non_king_fn(b)(mirror_sq(i)) by {
        lemma_square_terms(p, q, i);
    }
    assert forall|i: int| 0 <= i < 64 implies #[trigger] material_fn(c, Color::White)(i) == material_fn(
        b,
        Color::Black,
    )(mirror_sq(i)) by {
        lemma_square_terms(p, q, i);
    }
    assert forall|i: int| 0 <= i < 64 implies #[trigger] material_fn(c, Color::Black)(i) == material_fn(
        b,
        Color::White,
    )(mirror_sq(i)) by {
        lemma_square_terms(p, q, i);
    }
    lemma_sum_mirror_neg(mg_fn(b), mg_fn(c));
    lemma_sum_mirror_neg(eg_fn(b), eg_fn(c));
    lemma_sum_mirror(phase_fn(b), phase_fn(c));
    lemma_sum_mirror_neg(structure_fn(p), structure_fn(q));
    lemma_sum_mirror(non_king_fn(b), non_king_fn(c));
    lemma_sum_mirror(material_fn(b, Color::Black), material_fn(c, Color::White));
    lemma_sum_mirror(material_fn(b, Color::White), material_fn(c, Color::Black));
    // Bishop pair, king safety, endgame.
    lemma_piece_count_mirror(b, c, PieceType::Bishop, Color::White);
    lemma_piece_count_mirror(b, c, PieceType::Bishop, Color::Black);
    assert(bishop_pair(c) == -bishop_pair(b));
    lemma_king_safety_mirror(p, q, Color::White);
    lemma_king_safety_mirror(p, q, Color::Black);
    lemma_kings_mirror(p, q);
    assert(p.king_sq@[0] < 64 && p.king_sq@[1] < 64);
    lemma_distances_mirror(p.king_sq@[0] as int, p.king_sq@[1] as int);
    lemma_distances_mirror(p.king_sq@[1] as int, p.king_sq@[0] as int);
    assert(endgame_term(q) == -endgame_term(p));
    // The tapered blend and the faded king safety change sign with the sums.
    let ph = game_phase(b);
    assert(game_phase(c) == ph);
    let mg = sum_to(64, mg_fn(b));
    let eg = sum_to(64, eg_fn(b));
    assert((-mg) * ph + (-eg) * (MAX_PHASE - ph) == -(mg * ph + eg * (MAX_PHASE - ph))) by (nonlinear_arith);
    lemma_tdiv_neg(mg * ph + eg * (MAX_PHASE - ph));
    let safety = king_safety_spec(p, Color::White) - king_safety_spec(p, Color::Black);
    assert((-safety) * ph == -(safety * ph)) by (nonlinear_arith);
    lemma_tdiv_neg(safety * ph);
    assert(white_score(q) == -white_score(p));
}

} // verus!
