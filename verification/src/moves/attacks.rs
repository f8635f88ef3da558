use vstd::prelude::*;

use crate::board::bitboard::{bit, Bitboard};

verus! {

// ── board geometry ──────────────────────────────────────────────────────────

pub open spec fn file_of(sq: int) -> int {
    sq % 8
}

pub open spec fn rank_of(sq: int) -> int {
    sq / 8
}

pub open spec fn on_board(f: int, r: int) -> bool {
    0 <= f < 8 && 0 <= r < 8
}

pub open spec fn square_at(f: int, r: int) -> int {
    r * 8 + f
}

pub open spec fn abs_diff(a: int, b: int) -> int {
    if a >= b {
        a - b
    } else {
        b - a
    }
}

/// `b` is a knight's move away from `a`.
pub open spec fn knight_step(a: int, b: int) -> bool {
    let df = abs_diff(file_of(a), file_of(b));
    let dr = abs_diff(rank_of(a), rank_of(b));
    &&& 0 <= a < 64
    &&& 0 <= b < 64
    &&& ((df == 1 && dr == 2) || (df == 2 && dr == 1))
}

/// `b` is next to `a` (a king's move away).
pub open spec fn king_step(a: int, b: int) -> bool {
    &&& 0 <= a < 64
    &&& 0 <= b < 64
    &&& a != b
    &&& abs_diff(file_of(a), file_of(b)) <= 1
    &&& abs_diff(rank_of(a), rank_of(b)) <= 1
}

/// Starting next to square (f, r) and walking in direction (df, dr), `t` is reached
/// before (or at) the first square that is in `blockers`, within `n` steps.
pub open spec fn ray_reaches(f: int, r: int, df: int, dr: int, blockers: u64, t: int, n: nat) -> bool
    decreases n,
{
    if n == 0 {
        false
    } else {
        let nf = f + df;
        let nr = r + dr;
        if !on_board(nf, nr) {
            false
        } else if t == square_at(nf, nr) {
            true
        } else if bit(blockers, square_at(nf, nr)) {
            false
        } else {
            ray_reaches(nf, nr, df, dr, blockers, t, (n - 1) as nat)
        }
    }
}

/// A ray from (f, r) only reaches squares strictly beyond it in its direction.
pub proof fn lemma_ray_moves_away(f: int, r: int, df: int, dr: int, blockers: u64, t: int, n: nat)
    requires
        ray_reaches(f, r, df, dr, blockers, t, n),
    ensures
        exists|tf: int, tr: int|
            on_board(tf, tr) && t == square_at(tf, tr) && (df > 0 ==> tf > f) && (df < 0 ==> tf < f)
                && (df == 0 ==> tf == f) && (dr > 0 ==> tr > r) && (dr < 0 ==> tr < r) && (dr == 0
                ==> tr == r),
    decreases n,
{
    let nf = f + df;
    let nr = r + dr;
    if t == square_at(nf, nr) {
        assert(on_board(nf, nr));
    } else {
        lemma_ray_moves_away(nf, nr, df, dr, blockers, t, (n - 1) as nat);
        let (tf, tr) = choose|tf: int, tr: int|
            on_board(tf, tr) && t == square_at(tf, tr) && (df > 0 ==> tf > nf) && (df < 0 ==> tf < nf)
                && (df == 0 ==> tf == nf) && (dr > 0 ==> tr > nr) && (dr < 0 ==> tr < nr) && (dr == 0
                ==> tr == nr);
        assert(on_board(tf, tr) && t == square_at(tf, tr));
    }
}

/// A slider never attacks its own square.
pub proof fn lemma_ray_not_origin(sq: int, df: int, dr: int, blockers: u64)
    requires
        0 <= sq < 64,
        df != 0 || dr != 0,
    ensures
        !ray_attack(sq, df, dr, blockers, sq),
{
    if ray_attack(sq, df, dr, blockers, sq) {
        lemma_ray_moves_away(file_of(sq), rank_of(sq), df, dr, blockers, sq, 8);
        let (tf, tr) = choose|tf: int, tr: int|
            on_board(tf, tr) && sq == square_at(tf, tr) && (df > 0 ==> tf > file_of(sq)) && (df < 0
                ==> tf < file_of(sq)) && (df == 0 ==> tf == file_of(sq)) && (dr > 0 ==> tr > rank_of(
                sq,
            )) && (dr < 0 ==> tr < rank_of(sq)) && (dr == 0 ==> tr == rank_of(sq));
        assert(tr * 8 + tf == sq);
        assert(tf == sq % 8 && tr == sq / 8);
    }
}

/// Squares a slider on `sq` attacks along direction (df, dr).
pub open spec fn ray_attack(sq: int, df: int, dr: int, blockers: u64, t: int) -> bool {
    ray_reaches(file_of(sq), rank_of(sq), df, dr, blockers, t, 8)
}

pub open spec fn bishop_attack(sq: int, blockers: u64, t: int) -> bool {
    ray_attack(sq, 1, 1, blockers, t) || ray_attack(sq, -1, 1, blockers, t) || ray_attack(
        sq,
        1,
        -1,
        blockers,
        t,
    ) || ray_attack(sq, -1, -1, blockers, t)
}

pub open spec fn rook_attack(sq: int, blockers: u64, t: int) -> bool {
    ray_attack(sq, 0, 1, blockers, t) || ray_attack(sq, 0, -1, blockers, t) || ray_attack(
        sq,
        1,
        0,
        blockers,
        t,
    ) || ray_attack(sq, -1, 0, blockers, t)
}

// ── leaper attacks ──────────────────────────────────────────────────────────

/// The eight knight jumps, written as square offsets with their edge guards.
proof fn lemma_knight_offsets(a: int, t: int)
    requires
        0 <= a < 64,
    ensures
        knight_step(a, t) <==> (
        (t == a + 17 && a % 8 != 7 && a < 48)
        || (t == a + 15 && a % 8 != 0 && a < 48)
        || (t == a - 15 && a % 8 != 7 && a >= 16)
        || (t == a - 17 && a % 8 != 0 && a >= 16)
        || (t == a + 10 && a % 8 < 6 && a < 56)
        || (t == a - 6 && a % 8 < 6 && a >= 8)
        || (t == a + 6 && a % 8 >= 2 && a < 56)
        || (t == a - 10 && a % 8 >= 2 && a >= 8)),
{
    if 0 <= t < 64 {
        assert(t == 8 * (t / 8) + t % 8);
        assert(a == 8 * (a / 8) + a % 8);
    }
}

pub open spec fn north(x: u64) -> u64 {
    x << 8u64
}

pub open spec fn south(x: u64) -> u64 {
    x >> 8u64
}

pub open spec fn east(x: u64) -> u64 {
    (x << 1u64) & !0x0101010101010101u64
}

pub open spec fn west(x: u64) -> u64 {
    (x >> 1u64) & !0x8080808080808080u64
}

pub open spec fn knight_bits(b: u64) -> u64 {
    let n1 = east(north(north(b))) | west(north(north(b)));
    let s1 = east(south(south(b))) | west(south(south(b)));
    let e1 = north(east(east(b))) | south(east(east(b)));
    let w1 = north(west(west(b))) | south(west(west(b)));
    ((n1 | s1) | e1) | w1
}

proof fn lemma_knight_bv(sq: u64, t: u64)
    by (bit_vector)
    requires
        sq < 64,
        t < 64,
    ensures
        (knight_bits(1u64 << sq) >> t) & 1u64 == 1u64 <==> ((t == sq + 17 && sq % 8 != 7 && sq
            < 48) || (t == sq + 15 && sq % 8 != 0 && sq < 48) || (t + 15 == sq && sq % 8 != 7 && sq
            >= 16) || (t + 17 == sq && sq % 8 != 0 && sq >= 16) || (t == sq + 10 && sq % 8 < 6
            && sq < 56) || (t + 6 == sq && sq % 8 < 6 && sq >= 8) || (t == sq + 6 && sq % 8 >= 2
            && sq < 56) || (t + 10 == sq && sq % 8 >= 2 && sq >= 8)),
{
}

pub fn knight_attacks(sq: u8) -> (r: Bitboard)
    requires
        sq < 64,
    ensures
        forall|t: int| #[trigger] r.has(t) <==> knight_step(sq as int, t),
{
    let b = Bitboard::from_square(sq);
    let n = b.shift_north();
    let s = b.shift_south();
    let e = b.shift_east();
    let w = b.shift_west();
    let nn = n.shift_north();
    let ss = s.shift_south();
    let ee = e.shift_east();
    let ww = w.shift_west();
    let n1 = nn.shift_east().0 | nn.shift_west().0;
    let s1 = ss.shift_east().0 | ss.shift_west().0;
    let e1 = ee.shift_north().0 | ee.shift_south().0;
    let w1 = ww.shift_north().0 | ww.shift_south().0;
    let r = Bitboard(((n1 | s1) | e1) | w1);
    assert(r.0 == knight_bits(1u64 << sq));
    proof {
        assert forall|t: int| #[trigger] r.has(t) <==> knight_step(sq as int, t) by {
            lemma_knight_offsets(sq as int, t);
            if 0 <= t < 64 {
                lemma_knight_bv(sq as u64, t as u64);
            }
        }
    }
    r
}

pub open spec fn king_bits(b: u64) -> u64 {
    let a = north(b) | south(b);
    let c = east(b) | west(b);
    let d = east(north(b)) | west(north(b));
    let e = east(south(b)) | west(south(b));
    ((a | c) | d) | e
}

proof fn lemma_king_bv(sq: u64, t: u64)
    by (bit_vector)
    requires
        sq < 64,
        t < 64,
    ensures
        (king_bits(1u64 << sq) >> t) & 1u64 == 1u64 <==> ((t == sq + 8 && sq < 56) || (t + 8
            == sq && sq >= 8) || (t == sq + 1 && sq % 8 != 7) || (t + 1 == sq && sq % 8 != 0) || (
        t == sq + 9 && sq % 8 != 7 && sq < 56) || (t == sq + 7 && sq % 8 != 0 && sq < 56) || (t
            + 7 == sq && sq % 8 != 7 && sq >= 8) || (t + 9 == sq && sq % 8 != 0 && sq >= 8)),
{
}

proof fn lemma_king_offsets(a: int, t: int)
    requires
        0 <= a < 64,
    ensures
        king_step(a, t) <==> ((t == a + 8 && a < 56) || (t + 8 == a && a >= 8) || (t == a + 1
            && a % 8 != 7) || (t + 1 == a && a % 8 != 0) || (t == a + 9 && a % 8 != 7 && a < 56)
            || (t == a + 7 && a % 8 != 0 && a < 56) || (t + 7 == a && a % 8 != 7 && a >= 8) || (t
            + 9 == a && a % 8 != 0 && a >= 8)),
{
    if 0 <= t < 64 {
        assert(t == 8 * (t / 8) + t % 8);
        assert(a == 8 * (a / 8) + a % 8);
    }
}

pub fn king_attacks(sq: u8) -> (r: Bitboard)
    requires
        sq < 64,
    ensures
        forall|t: int| #[trigger] r.has(t) <==> king_step(sq as int, t),
{
    let b = Bitboard::from_square(sq);
    let n = b.shift_north();
    let s = b.shift_south();
    let a = n.0 | s.0;
    let c = b.shift_east().0 | b.shift_west().0;
    let d = n.shift_east().0 | n.shift_west().0;
    let e = s.shift_east().0 | s.shift_west().0;
    let r = Bitboard(((a | c) | d) | e);
    assert(r.0 == king_bits(1u64 << sq));
    proof {
        assert forall|t: int| #[trigger] r.has(t) <==> king_step(sq as int, t) by {
            lemma_king_offsets(sq as int, t);
            if 0 <= t < 64 {
                lemma_king_bv(sq as u64, t as u64);
            }
        }
    }
    r
}

// ── slider attacks ──────────────────────────────────────────────────────────

/// Squares reached from (f, r) walking in direction (df, dr) up to and including
/// the first blocker, within `n` steps.
fn ray(f: i8, r: i8, df: i8, dr: i8, blockers: Bitboard, n: u8) -> (res: Bitboard)
    requires
        on_board(f as int, r as int),
        -1 <= df <= 1,
        -1 <= dr <= 1,
    ensures
        forall|t: int| #[trigger] res.has(t) <==> ray_reaches(
            f as int,
            r as int,
            df as int,
            dr as int,
            blockers.0,
            t,
            n as nat,
        ),
    decreases n,
{
    if n == 0 {
        proof {
            lemma_zero_has_nothing();
        }
        return Bitboard(0);
    }
    let nf = f + df;
    let nr = r + dr;
    if nf < 0 || nf >= 8 || nr < 0 || nr >= 8 {
        proof {
            lemma_zero_has_nothing();
        }
        return Bitboard(0);
    }
    let s = (nr * 8 + nf) as u8;
    let mut res = if blockers.contains(s) {
        proof {
            lemma_zero_has_nothing();
        }
        Bitboard(0)
    } else {
        ray(nf, nr, df, dr, blockers, n - 1)
    };
    res.set(s);
    res
}

proof fn lemma_zero_has_nothing()
    ensures
        forall|t: int| !#[trigger] bit(0u64, t),
{
    crate::board::bitboard::lemma_zero_iff_no_bits(0u64);
}

/// Attacks of a slider on `sq` along the single direction (df, dr).
fn sliding_attacks(sq: u8, df: i8, dr: i8, blockers: Bitboard) -> (res: Bitboard)
    requires
        sq < 64,
        -1 <= df <= 1,
        -1 <= dr <= 1,
    ensures
        forall|t: int| #[trigger] res.has(t) <==> ray_attack(
            sq as int,
            df as int,
            dr as int,
            blockers.0,
            t,
        ),
{
    ray((sq % 8) as i8, (sq / 8) as i8, df, dr, blockers, 8)
}

pub fn bishop_attacks(sq: u8, blockers: Bitboard) -> (res: Bitboard)
    requires
        sq < 64,
    ensures
        forall|t: int| #[trigger] res.has(t) <==> bishop_attack(sq as int, blockers.0, t),
{
    sliding_attacks(sq, 1, 1, blockers).bitor(sliding_attacks(sq, -1, 1, blockers)).bitor(
        sliding_attacks(sq, 1, -1, blockers),
    ).bitor(sliding_attacks(sq, -1, -1, blockers))
}

pub fn rook_attacks(sq: u8, blockers: Bitboard) -> (res: Bitboard)
    requires
        sq < 64,
    ensures
        forall|t: int| #[trigger] res.has(t) <==> rook_attack(sq as int, blockers.0, t),
{
    sliding_attacks(sq, 0, 1, blockers).bitor(sliding_attacks(sq, 0, -1, blockers)).bitor(
        sliding_attacks(sq, 1, 0, blockers),
    ).bitor(sliding_attacks(sq, -1, 0, blockers))
}

// ── ray symmetry ────────────────────────────────────────────────────────────

/// A ray that reaches an empty square `s` also reaches the square just past it.
proof fn lemma_ray_extend(
    f: int,
    r: int,
    df: int,
    dr: int,
    blk: u64,
    sf: int,
    sr: int,
    n: nat,
)
    requires
        on_board(f, r),
        -1 <= df <= 1,
        -1 <= dr <= 1,
        df != 0 || dr != 0,
        on_board(sf, sr),
        on_board(sf + df, sr + dr),
        ray_reaches(f, r, df, dr, blk, square_at(sf, sr), n),
        !bit(blk, square_at(sf, sr)),
    ensures
        ray_reaches(f, r, df, dr, blk, square_at(sf + df, sr + dr), n + 1),
    decreases n,
{
    let nf = f + df;
    let nr = r + dr;
    let o = square_at(sf + df, sr + dr);
    if square_at(sf, sr) == square_at(nf, nr) {
        assert(nf == sf && nr == sr);
        assert(ray_reaches(nf, nr, df, dr, blk, o, n));
    } else {
        lemma_ray_extend(nf, nr, df, dr, blk, sf, sr, (n - 1) as nat);
        assert(((n + 1) - 1) as nat == n);
    }
}

/// If a slider on (f, r) reaches `t` along (df, dr), a slider on `t` reaches
/// (f, r) along the opposite direction.
pub proof fn lemma_ray_symmetric(f: int, r: int, df: int, dr: int, blk: u64, t: int, n: nat)
    requires
        on_board(f, r),
        -1 <= df <= 1,
        -1 <= dr <= 1,
        df != 0 || dr != 0,
        ray_reaches(f, r, df, dr, blk, t, n),
    ensures
        0 <= t < 64,
        ray_reaches(file_of(t), rank_of(t), -df, -dr, blk, square_at(f, r), n),
    decreases n,
{
    let nf = f + df;
    let nr = r + dr;
    if t == square_at(nf, nr) {
        assert(file_of(t) == nf && rank_of(t) == nr);
        assert(ray_reaches(file_of(t), rank_of(t), -df, -dr, blk, square_at(f, r), n));
    } else {
        lemma_ray_symmetric(nf, nr, df, dr, blk, t, (n - 1) as nat);
        assert(file_of(t) + -df - -df == file_of(t));
        lemma_ray_extend(
            file_of(t),
            rank_of(t),
            -df,
            -dr,
            blk,
            nf,
            nr,
            (n - 1) as nat,
        );
        assert(nf + -df == f && nr + -dr == r);
    }
}

pub proof fn lemma_bishop_symmetric(a: int, blk: u64, b: int)
    requires
        0 <= a < 64,
        bishop_attack(a, blk, b),
    ensures
        bishop_attack(b, blk, a),
{
    let f = file_of(a);
    let r = rank_of(a);
    assert(square_at(f, r) == a);
    if ray_attack(a, 1, 1, blk, b) {
        lemma_ray_symmetric(f, r, 1, 1, blk, b, 8);
        assert(ray_attack(b, -1, -1, blk, a));
    } else if ray_attack(a, -1, 1, blk, b) {
        lemma_ray_symmetric(f, r, -1, 1, blk, b, 8);
        assert(ray_attack(b, 1, -1, blk, a));
    } else if ray_attack(a, 1, -1, blk, b) {
        lemma_ray_symmetric(f, r, 1, -1, blk, b, 8);
        assert(ray_attack(b, -1, 1, blk, a));
    } else {
        lemma_ray_symmetric(f, r, -1, -1, blk, b, 8);
        assert(ray_attack(b, 1, 1, blk, a));
    }
}

pub proof fn lemma_rook_symmetric(a: int, blk: u64, b: int)
    requires
        0 <= a < 64,
        rook_attack(a, blk, b),
    ensures
        rook_attack(b, blk, a),
{
    let f = file_of(a);
    let r = rank_of(a);
    assert(square_at(f, r) == a);
    if ray_attack(a, 0, 1, blk, b) {
        lemma_ray_symmetric(f, r, 0, 1, blk, b, 8);
        assert(ray_attack(b, 0, -1, blk, a));
    } else if ray_attack(a, 0, -1, blk, b) {
        lemma_ray_symmetric(f, r, 0, -1, blk, b, 8);
        assert(ray_attack(b, 0, 1, blk, a));
    } else if ray_attack(a, 1, 0, blk, b) {
        lemma_ray_symmetric(f, r, 1, 0, blk, b, 8);
        assert(ray_attack(b, -1, 0, blk, a));
    } else {
        lemma_ray_symmetric(f, r, -1, 0, blk, b, 8);
        assert(ray_attack(b, 1, 0, blk, a));
    }
}

} // verus!
