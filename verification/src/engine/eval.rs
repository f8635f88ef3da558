use vstd::prelude::*;

use crate::board::bitboard::{bit, bits_below, popcount, Bitboard};
use crate::board::position::{lemma_piece_index_roundtrip, piece_of_index, Color, Piece, PieceType, Position};
use crate::moves::attacks::{bishop_attacks, knight_attacks, rook_attacks};
use crate::moves::generator::{occ_bits, piece_attack};

verus! {

// PeSTO tapered evaluation: material and piece-square tables for the
// middlegame (mg) and the endgame (eg), blended by a game-phase weight.
// Tables are written rank-8-first (index 0 = a8) from White's point of view.

pub const MATE_SCORE: i32 = 100_000;
pub const DRAW_SCORE: i32 = 0;

/// Phase of a full board (knight/bishop = 1, rook = 2, queen = 4).
pub const MAX_PHASE: i32 = 24;

const MG_PAWN: [i32; 64] = [
    0, 0, 0, 0, 0, 0, 0, 0,
    98, 134, 61, 95, 68, 126, 34, -11,
    -6, 7, 26, 31, 65, 56, 25, -20,
    -14, 13, 6, 21, 23, 12, 17, -23,
    -27, -2, -5, 12, 17, 6, 10, -25,
    -26, -4, -4, -10, 3, 3, 33, -12,
    -35, -1, -20, -23, -15, 24, 38, -22,
    0, 0, 0, 0, 0, 0, 0, 0,
];

const EG_PAWN: [i32; 64] = [
    0, 0, 0, 0, 0, 0, 0, 0,
    178, 173, 158, 134, 147, 132, 165, 187,
    94, 100, 85, 67, 56, 53, 82, 84,
    32, 24, 13, 5, -2, 4, 17, 17,
    13, 9, -3, -7, -7, -8, 3, -1,
    4, 7, -6, 1, 0, -5, -1, -8,
    13, 8, 8, 10, 13, 0, 2, -7,
    0, 0, 0, 0, 0, 0, 0, 0,
];

const MG_KNIGHT: [i32; 64] = [
    -167, -89, -34, -49, 61, -97, -15, -107,
    -73, -41, 72, 36, 23, 62, 7, -17,
    -47, 60, 37, 65, 84, 129, 73, 44,
    -9, 17, 19, 53, 37, 69, 18, 22,
    -13, 4, 16, 13, 28, 19, 21, -8,
    -23, -9, 12, 10, 19, 17, 25, -16,
    -29, -53, -12, -3, -1, 18, -14, -19,
    -105, -21, -58, -33, -17, -28, -19, -23,
];

const EG_KNIGHT: [i32; 64] = [
    -58, -38, -13, -28, -31, -27, -63, -99,
    -25, -8, -25, -2, -9, -25, -24, -52,
    -24, -20, 10, 9, -1, -9, -19, -41,
    -17, 3, 22, 22, 22, 11, 8, -18,
    -18, -6, 16, 25, 16, 17, 4, -18,
    -23, -3, -1, 15, 10, -3, -20, -22,
    -42, -20, -10, -5, -2, -20, -23, -44,
    -29, -51, -23, -15, -22, -18, -50, -64,
];

const MG_BISHOP: [i32; 64] = [
    -29, 4, -82, -37, -25, -42, 7, -8,
    -26, 16, -18, -13, 30, 59, 18, -47,
    -16, 37, 43, 40, 35, 50, 37, -2,
    -4, 5, 19, 50, 37, 37, 7, -2,
    -6, 13, 13, 26, 34, 12, 10, 4,
    0, 15, 15, 15, 14, 27, 18, 10,
    4, 15, 16, 0, 7, 21, 33, 1,
    -33, -3, -14, -21, -13, -12, -39, -21,
];

const EG_BISHOP: [i32; 64] = [
    -14, -21, -11, -8, -7, -9, -17, -24,
    -8, -4, 7, -12, -3, -13, -4, -14,
    2, -8, 0, -1, -2, 6, 0, 4,
    -3, 9, 12, 9, 14, 10, 3, 2,
    -6, 3, 13, 19, 7, 10, -3, -9,
    -12, -3, 8, 10, 13, 3, -7, -15,
    -14, -18, -7, -1, 4, -9, -15, -27,
    -23, -9, -23, -5, -9, -16, -5, -17,
];

const MG_ROOK: [i32; 64] = [
    32, 42, 32, 51, 63, 9, 31, 43,
    27, 32, 58, 62, 80, 67, 26, 44,
    -5, 19, 26, 36, 17, 45, 61, 16,
    -24, -11, 7, 26, 24, 35, -8, -20,
    -36, -26, -12, -1, 9, -7, 6, -23,
    -45, -25, -16, -17, 3, 0, -5, -33,
    -44, -16, -20, -9, -1, 11, -6, -71,
    -19, -13, 1, 17, 16, 7, -37, -26,
];

const EG_ROOK: [i32; 64] = [
    13, 10, 18, 15, 12, 12, 8, 5,
    11, 13, 13, 11, -3, 3, 8, 3,
    7, 7, 7, 5, 4, -3, -5, -3,
    4, 3, 13, 1, 2, 1, -1, 2,
    3, 5, 8, 4, -5, -6, -8, -11,
    -4, 0, -5, -1, -7, -12, -8, -16,
    -6, -6, 0, 2, -9, -9, -11, -3,
    -9, 2, 3, -1, -5, -13, 4, -20,
];

const MG_QUEEN: [i32; 64] = [
    -28, 0, 29, 12, 59, 44, 43, 45,
    -24, -39, -5, 1, -16, 57, 28, 54,
    -13, -17, 7, 8, 29, 56, 47, 57,
    -27, -27, -16, -16, -1, 17, -2, 1,
    -9, -26, -9, -10, -2, -4, 3, -3,
    -14, 2, -11, -2, -5, 2, 14, 5,
    -35, -8, 11, 2, 8, 15, -3, 1,
    -1, -18, -9, 10, -15, -25, -31, -50,
];

const EG_QUEEN: [i32; 64] = [
    -9, 22, 22, 27, 27, 19, 10, 20,
    -17, 20, 32, 41, 58, 25, 30, 0,
    -20, 6, 9, 49, 47, 35, 19, 9,
    3, 22, 24, 45, 57, 40, 57, 36,
    -18, 28, 19, 47, 31, 34, 39, 23,
    -16, -27, 15, 6, 9, 17, 10, 5,
    -22, -23, -30, -16, -16, -23, -36, -32,
    -33, -28, -22, -43, -5, -32, -20, -41,
];

const MG_KING: [i32; 64] = [
    -65, 23, 16, -15, -56, -34, 2, 13,
    29, -1, -20, -7, -8, -4, -38, -29,
    -9, 24, 2, -16, -20, 6, 22, -22,
    -17, -20, -12, -27, -30, -25, -14, -36,
    -49, -1, -27, -39, -46, -44, -33, -51,
    -14, -14, -22, -46, -44, -30, -15, -27,
    1, 7, -8, -64, -43, -16, 9, 8,
    -15, 36, 12, -54, 8, -28, 24, 14,
];

const EG_KING: [i32; 64] = [
    -74, -35, -18, -18, -11, 15, 4, -17,
    -12, 17, 14, 17, 17, 38, 23, 11,
    10, 17, 23, 15, 20, 45, 44, 13,
    -8, 22, 24, 27, 26, 33, 26, 3,
    -18, -4, 21, 24, 27, 23, 9, -11,
    -19, -3, 11, 21, 23, 16, 7, -9,
    -27, -11, 4, 13, 14, 4, -5, -17,
    -53, -34, -21, -11, -28, -14, -24, -43,
];

/// Middlegame piece-square value of `kind` at table index `i`.
pub closed spec fn mg_pst(kind: PieceType, i: int) -> int {
    match kind {
        PieceType::Pawn => MG_PAWN[i] as int,
        PieceType::Knight => MG_KNIGHT[i] as int,
        PieceType::Bishop => MG_BISHOP[i] as int,
        PieceType::Rook => MG_ROOK[i] as int,
        PieceType::Queen => MG_QUEEN[i] as int,
        PieceType::King => MG_KING[i] as int,
    }
}

/// Endgame piece-square value of `kind` at table index `i`.
pub closed spec fn eg_pst(kind: PieceType, i: int) -> int {
    match kind {
        PieceType::Pawn => EG_PAWN[i] as int,
        PieceType::Knight => EG_KNIGHT[i] as int,
        PieceType::Bishop => EG_BISHOP[i] as int,
        PieceType::Rook => EG_ROOK[i] as int,
        PieceType::Queen => EG_QUEEN[i] as int,
        PieceType::King => EG_KING[i] as int,
    }
}

/// Middlegame table value of `kind` at index `i`.
fn mg_table(kind: PieceType, i: usize) -> (v: i32)
    requires
        i < 64,
    ensures
        v == mg_pst(kind, i as int),
        -200 <= v <= 200,
{
    match kind {
        PieceType::Pawn => MG_PAWN[i],
        PieceType::Knight => MG_KNIGHT[i],
        PieceType::Bishop => MG_BISHOP[i],
        PieceType::Rook => MG_ROOK[i],
        PieceType::Queen => MG_QUEEN[i],
        PieceType::King => MG_KING[i],
    }
}

/// Endgame table value of `kind` at index `i`.
fn eg_table(kind: PieceType, i: usize) -> (v: i32)
    requires
        i < 64,
    ensures
        v == eg_pst(kind, i as int),
        -200 <= v <= 200,
{
    match kind {
        PieceType::Pawn => EG_PAWN[i],
        PieceType::Knight => EG_KNIGHT[i],
        PieceType::Bishop => EG_BISHOP[i],
        PieceType::Rook => EG_ROOK[i],
        PieceType::Queen => EG_QUEEN[i],
        PieceType::King => EG_KING[i],
    }
}


// ── Counting and summing over squares ────────────────────────────────────────

/// Number of `i` in `0..n` for which `p(i)` holds.
pub open spec fn count_where(n: int, p: spec_fn(int) -> bool) -> nat
    decreases n,
{
    if n <= 0 {
        0
    } else {
        count_where(n - 1, p) + (if p(n - 1) { 1nat } else { 0nat })
    }
}

/// Sum of `f(i)` for `i` in `0..n`.
pub open spec fn sum_to(n: int, f: spec_fn(int) -> int) -> int
    decreases n,
{
    if n <= 0 {
        0
    } else {
        sum_to(n - 1, f) + f(n - 1)
    }
}

pub proof fn lemma_count_where_bound(n: int, p: spec_fn(int) -> bool)
    requires
        0 <= n,
    ensures
        count_where(n, p) <= n,
    decreases n,
{
    if n > 0 {
        lemma_count_where_bound(n - 1, p);
    }
}

/// The set bits of `x` below `n` are counted by any predicate that agrees with them.
pub proof fn lemma_bits_count(x: u64, n: int, p: spec_fn(int) -> bool)
    requires
        0 <= n <= 64,
        forall|t: int| 0 <= t < 64 ==> (bit(x, t) == #[trigger] p(t)),
    ensures
        bits_below(x, n) == count_where(n, p),
    decreases n,
{
    if n > 0 {
        lemma_bits_count(x, n - 1, p);
        assert(bit(x, n - 1) == p(n - 1));
    }
}

// ── Piece values and table lookup ────────────────────────────────────────────

/// Middlegame base value (P, N, B, R, Q, K).
pub open spec fn mg_value(kind: PieceType) -> int {
    match kind {
        PieceType::Pawn => 82,
        PieceType::Knight => 337,
        PieceType::Bishop => 365,
        PieceType::Rook => 477,
        PieceType::Queen => 1025,
        PieceType::King => 0,
    }
}

/// Endgame base value (P, N, B, R, Q, K).
pub open spec fn eg_value(kind: PieceType) -> int {
    match kind {
        PieceType::Pawn => 94,
        PieceType::Knight => 281,
        PieceType::Bishop => 297,
        PieceType::Rook => 512,
        PieceType::Queen => 936,
        PieceType::King => 0,
    }
}

/// Contribution of a piece to the game phase; a full board sums to `MAX_PHASE`.
pub open spec fn phase_weight(kind: PieceType) -> int {
    match kind {
        PieceType::Knight => 1,
        PieceType::Bishop => 1,
        PieceType::Rook => 2,
        PieceType::Queen => 4,
        _ => 0,
    }
}

fn mg_value_of(kind: PieceType) -> (v: i32)
    ensures
        v == mg_value(kind),
{
    match kind {
        PieceType::Pawn => 82,
        PieceType::Knight => 337,
        PieceType::Bishop => 365,
        PieceType::Rook => 477,
        PieceType::Queen => 1025,
        PieceType::King => 0,
    }
}

fn eg_value_of(kind: PieceType) -> (v: i32)
    ensures
        v == eg_value(kind),
{
    match kind {
        PieceType::Pawn => 94,
        PieceType::Knight => 281,
        PieceType::Bishop => 297,
        PieceType::Rook => 512,
        PieceType::Queen => 936,
        PieceType::King => 0,
    }
}

fn phase_weight_of(kind: PieceType) -> (v: i32)
    ensures
        v == phase_weight(kind),
{
    match kind {
        PieceType::Knight => 1,
        PieceType::Bishop => 1,
        PieceType::Rook => 2,
        PieceType::Queen => 4,
        _ => 0,
    }
}

/// Table index of a piece of `color` on `sq`: White reads the mirrored rank,
/// since the tables are written rank-8-first.
pub open spec fn pst_index_spec(sq: int, color: Color) -> int {
    if color == Color::White {
        (7 - sq / 8) * 8 + sq % 8
    } else {
        sq
    }
}

fn pst_index(sq: u8, color: Color) -> (i: usize)
    requires
        sq < 64,
    ensures
        i == pst_index_spec(sq as int, color),
        i < 64,
{
    let rank = sq / 8;
    let file = sq % 8;
    if color == Color::White {
        (7 - rank) as usize * 8 + file as usize
    } else {
        sq as usize
    }
}

// ── Distances ────────────────────────────────────────────────────────────────

pub open spec fn abs_int(x: int) -> int {
    if x < 0 {
        -x
    } else {
        x
    }
}

pub open spec fn max_int(a: int, b: int) -> int {
    if a >= b {
        a
    } else {
        b
    }
}

pub open spec fn min_int(a: int, b: int) -> int {
    if a <= b {
        a
    } else {
        b
    }
}

/// King-move distance between two squares.
pub open spec fn chebyshev_spec(a: int, b: int) -> int {
    max_int(abs_int(a % 8 - b % 8), abs_int(a / 8 - b / 8))
}

/// Distance from a square to the nearest edge of the board (0 on the edge).
pub open spec fn edge_dist_spec(sq: int) -> int {
    min_int(min_int(min_int(sq % 8, 7 - sq % 8), sq / 8), 7 - sq / 8)
}

/// Chebyshev (king-move) distance between two squares.
fn chebyshev(sq1: u8, sq2: u8) -> (d: i32)
    requires
        sq1 < 64,
        sq2 < 64,
    ensures
        d == chebyshev_spec(sq1 as int, sq2 as int),
        0 <= d <= 7,
{
    let f1 = (sq1 % 8) as i32;
    let f2 = (sq2 % 8) as i32;
    let r1 = (sq1 / 8) as i32;
    let r2 = (sq2 / 8) as i32;
    let df = if f1 >= f2 { f1 - f2 } else { f2 - f1 };
    let dr = if r1 >= r2 { r1 - r2 } else { r2 - r1 };
    if df >= dr { df } else { dr }
}

/// How far a square is from the nearest board edge (0 = on the edge).
fn edge_dist(sq: u8) -> (d: i32)
    requires
        sq < 64,
    ensures
        d == edge_dist_spec(sq as int),
        0 <= d <= 3,
{
    let f = (sq % 8) as i32;
    let r = (sq / 8) as i32;
    let mut d = if f <= 7 - f { f } else { 7 - f };
    if r < d {
        d = r;
    }
    if 7 - r < d {
        d = 7 - r;
    }
    d
}

/// Integer division rounding toward zero, as `/` does on `i32`.
pub open spec fn tdiv(a: int, b: int) -> int {
    if a >= 0 {
        a / b
    } else {
        -((-a) / b)
    }
}

fn div_phase(a: i32) -> (q: i32)
    requires
        -1_000_000_000 <= a <= 1_000_000_000,
    ensures
        q == tdiv(a as int, 24),
{
    a / 24
}


// ── Insufficient material ────────────────────────────────────────────────────

/// `b` holds a `kind` of `color` on `sq`.
pub open spec fn has_piece(b: Seq<Option<Piece>>, sq: int, kind: PieceType, color: Color) -> bool {
    0 <= sq < 64 && b[sq] == Some(Piece { kind, color })
}

pub open spec fn piece_at_fn(b: Seq<Option<Piece>>, kind: PieceType, color: Color) -> spec_fn(
    int,
) -> bool {
    |sq: int| has_piece(b, sq, kind, color)
}

/// Number of `kind`s of `color` on the board.
pub open spec fn piece_count(b: Seq<Option<Piece>>, kind: PieceType, color: Color) -> nat {
    count_where(64, piece_at_fn(b, kind, color))
}

/// "Light" squares: odd file + rank (only consistency matters).
pub open spec fn light_square(sq: int) -> bool {
    (sq % 8 + sq / 8) % 2 == 1
}

/// Square colour of the last bishop of `color` below square `n` (false if none).
pub open spec fn last_bishop_light(b: Seq<Option<Piece>>, color: Color, n: int) -> bool
    decreases n,
{
    if n <= 0 {
        false
    } else if has_piece(b, n - 1, PieceType::Bishop, color) {
        light_square(n - 1)
    } else {
        last_bishop_light(b, color, n - 1)
    }
}

/// A pawn, rook or queen stands on the board.
pub open spec fn has_major_or_pawn(b: Seq<Option<Piece>>) -> bool {
    exists|sq: int|
        0 <= sq < 64 && #[trigger] b[sq] is Some && (b[sq]->0.kind == PieceType::Pawn
            || b[sq]->0.kind == PieceType::Rook || b[sq]->0.kind == PieceType::Queen)
}

/// Neither side can force mate: bare kings, a single minor piece against a bare
/// king, or one bishop each on squares of the same colour.
pub open spec fn insufficient_material(b: Seq<Option<Piece>>) -> bool {
    let wn = piece_count(b, PieceType::Knight, Color::White);
    let bn = piece_count(b, PieceType::Knight, Color::Black);
    let wb = piece_count(b, PieceType::Bishop, Color::White);
    let bb = piece_count(b, PieceType::Bishop, Color::Black);
    &&& !has_major_or_pawn(b)
    &&& {
        ||| wn + wb + bn + bb == 0
        ||| wn + wb <= 1 && bn + bb == 0
        ||| bn + bb <= 1 && wn + wb == 0
        ||| wb == 1 && wn == 0 && bb == 1 && bn == 0 && last_bishop_light(b, Color::White, 64)
            == last_bishop_light(b, Color::Black, 64)
    }
}

/// Returns true if neither side can force checkmate with the material on board.
pub fn is_insufficient_material(pos: &Position) -> (r: bool)
    ensures
        r == insufficient_material(pos.board@),
{
    let ghost b = pos.board@;
    let mut wn: u8 = 0;
    let mut bn: u8 = 0;
    let mut wb: u8 = 0;
    let mut bb: u8 = 0;
    let mut w_bishop_light = false;
    let mut b_bishop_light = false;
    let mut sq: u8 = 0;
    while sq < 64
        invariant
            sq <= 64,
            b == pos.board@,
            wn == count_where(sq as int, piece_at_fn(b, PieceType::Knight, Color::White)),
            bn == count_where(sq as int, piece_at_fn(b, PieceType::Knight, Color::Black)),
            wb == count_where(sq as int, piece_at_fn(b, PieceType::Bishop, Color::White)),
            bb == count_where(sq as int, piece_at_fn(b, PieceType::Bishop, Color::Black)),
            wn + bn + wb + bb <= sq,
            w_bishop_light == last_bishop_light(b, Color::White, sq as int),
            b_bishop_light == last_bishop_light(b, Color::Black, sq as int),
            forall|t: int|
                0 <= t < sq && #[trigger] b[t] is Some ==> !(b[t]->0.kind == PieceType::Pawn
                    || b[t]->0.kind == PieceType::Rook || b[t]->0.kind == PieceType::Queen),
        decreases 64 - sq,
    {
        proof {
            lemma_count_where_bound(sq as int, piece_at_fn(b, PieceType::Knight, Color::White));
            lemma_count_where_bound(sq as int, piece_at_fn(b, PieceType::Knight, Color::Black));
            lemma_count_where_bound(sq as int, piece_at_fn(b, PieceType::Bishop, Color::White));
            lemma_count_where_bound(sq as int, piece_at_fn(b, PieceType::Bishop, Color::Black));
        }
        if let Some(p) = pos.board[sq as usize] {
            match p.kind {
                PieceType::King => {},
                PieceType::Knight => {
                    if p.color == Color::White {
                        wn += 1;
                    } else {
                        bn += 1;
                    }
                },
                PieceType::Bishop => {
                    let light = (sq % 8 + sq / 8) % 2 == 1;
                    if p.color == Color::White {
                        wb += 1;
                        w_bishop_light = light;
                    } else {
                        bb += 1;
                        b_bishop_light = light;
                    }
                },
                _ => {
                    assert(b[sq as int] is Some);
                    return false;
                },
            }
        }
        sq += 1;
    }
    proof {
        assert(!has_major_or_pawn(b));
    }
    if wn + wb + bn + bb == 0 {
        return true;
    }
    if wn + wb <= 1 && bn + bb == 0 {
        return true;
    }
    if bn + bb <= 1 && wn + wb == 0 {
        return true;
    }
    if wb == 1 && wn == 0 && bb == 1 && bn == 0 && w_bishop_light == b_bishop_light {
        return true;
    }
    false
}


// ── Pawn structure ───────────────────────────────────────────────────────────

/// A pawn of `color` stands on file `f`, rank `r`.
pub open spec fn pawn_on(b: Seq<Option<Piece>>, color: Color, f: int, r: int) -> bool {
    0 <= f < 8 && 0 <= r < 8 && b[8 * r + f] == Some(Piece { kind: PieceType::Pawn, color })
}

pub open spec fn pawn_rank_fn(b: Seq<Option<Piece>>, color: Color, f: int) -> spec_fn(int) -> bool {
    |r: int| pawn_on(b, color, f, r)
}

/// Number of pawns of `color` on file `f` (0 off the board).
pub open spec fn pawns_on_file(b: Seq<Option<Piece>>, color: Color, f: int) -> nat {
    count_where(8, pawn_rank_fn(b, color, f))
}

/// Rank `rr` lies in front of rank `r` for a pawn of `color`.
pub open spec fn ahead(color: Color, r: int, rr: int) -> bool {
    if color == Color::White {
        rr > r
    } else {
        rr < r
    }
}

/// No enemy pawn stands in front of a pawn of `color` on (`f`, `r`), on its own
/// file or the two next to it.
pub open spec fn passed_pawn(b: Seq<Option<Piece>>, color: Color, f: int, r: int) -> bool {
    forall|ff: int, rr: int|
        f - 1 <= ff <= f + 1 && ahead(color, r, rr) ==> !#[trigger] pawn_on(
            b,
            color.opposite(),
            ff,
            rr,
        )
}

/// How far a pawn of `color` on rank `r` has advanced.
pub open spec fn advancement(color: Color, r: int) -> int {
    if color == Color::White {
        r
    } else {
        7 - r
    }
}

/// Another pawn of `color` stands behind the pawn on (`f`, `r`), on its file:
/// the pawn is an extra one on a doubled file.
pub open spec fn pawn_behind(b: Seq<Option<Piece>>, color: Color, f: int, r: int) -> bool {
    exists|rr: int| ahead(color, rr, r) && #[trigger] pawn_on(b, color, f, rr)
}

/// Doubled (-15 for each extra pawn on a file), isolated (-20) and passed
/// (15 + 20 per rank beyond the second) pawn terms for a pawn of `color` on
/// (`f`, `r`).
pub open spec fn pawn_term(b: Seq<Option<Piece>>, color: Color, f: int, r: int) -> int {
    (if pawn_behind(b, color, f, r) { -15int } else { 0 }) + (if pawns_on_file(b, color, f - 1)
        == 0 && pawns_on_file(b, color, f + 1) == 0 {
        -20int
    } else {
        0
    }) + (if passed_pawn(b, color, f, r) {
        15 + max_int(advancement(color, r) - 1, 0) * 20
    } else {
        0
    })
}

/// Open (20) or half-open (10) file bonus for a rook of `color` on file `f`.
pub open spec fn rook_term(b: Seq<Option<Piece>>, color: Color, f: int) -> int {
    if pawns_on_file(b, color, f) == 0 {
        if pawns_on_file(b, color.opposite(), f) == 0 {
            20
        } else {
            10
        }
    } else {
        0
    }
}

fn is_pawn_of(sq: Option<Piece>, color: Color) -> (r: bool)
    ensures
        r == (sq == Some(Piece { kind: PieceType::Pawn, color })),
{
    match sq {
        Some(p) => p.kind == PieceType::Pawn && p.color == color,
        None => false,
    }
}

/// Number of pawns of `color` on file `f`.
fn file_pawn_count(pos: &Position, color: Color, f: u8) -> (n: u8)
    requires
        f < 8,
    ensures
        n == pawns_on_file(pos.board@, color, f as int),
        n <= 8,
{
    let ghost b = pos.board@;
    let mut n: u8 = 0;
    let mut r: u8 = 0;
    while r < 8
        invariant
            r <= 8,
            f < 8,
            b == pos.board@,
            n == count_where(r as int, pawn_rank_fn(b, color, f as int)),
            n <= r,
        decreases 8 - r,
    {
        if is_pawn_of(pos.board[(r * 8 + f) as usize], color) {
            n += 1;
        }
        r += 1;
    }
    n
}

/// Whether a pawn of `color` on (`f`, `r`) is passed.
fn is_passed(pos: &Position, color: Color, f: u8, r: u8) -> (res: bool)
    requires
        f < 8,
        r < 8,
    ensures
        res == passed_pawn(pos.board@, color, f as int, r as int),
{
    let ghost b = pos.board@;
    let opp = color.flip();
    let mut ff: u8 = 0;
    while ff < 8
        invariant
            ff <= 8,
            f < 8,
            r < 8,
            b == pos.board@,
            opp == color.opposite(),
            forall|x: int, rr: int|
                x < ff && f - 1 <= x <= f + 1 && ahead(color, r as int, rr) ==> !#[trigger] pawn_on(
                    b,
                    opp,
                    x,
                    rr,
                ),
        decreases 8 - ff,
    {
        if ff + 1 >= f && ff <= f + 1 {
            let mut rr: u8 = 0;
            while rr < 8
                invariant
                    rr <= 8,
                    ff < 8,
                    ff + 1 >= f,
                    ff <= f + 1,
                    f < 8,
                    r < 8,
                    b == pos.board@,
                    opp == color.opposite(),
                    forall|x: int, y: int|
                        x < ff && f - 1 <= x <= f + 1 && ahead(color, r as int, y) ==> !#[trigger] pawn_on(
                            b,
                            opp,
                            x,
                            y,
                        ),
                    forall|y: int|
                        y < rr && ahead(color, r as int, y) ==> !#[trigger] pawn_on(b, opp, ff as int, y),
                decreases 8 - rr,
            {
                let is_ahead = if color == Color::White {
                    rr > r
                } else {
                    rr < r
                };
                if is_ahead && is_pawn_of(pos.board[(rr * 8 + ff) as usize], opp) {
                    assert(ahead(color, r as int, rr as int));
                    assert(pawn_on(b, color.opposite(), ff as int, rr as int));
                    assert(!passed_pawn(b, color, f as int, r as int));
                    return false;
                }
                rr += 1;
            }
            proof {
                assert forall|x: int, y: int|
                    x < ff + 1 && f - 1 <= x <= f + 1 && ahead(color, r as int, y) implies !#[trigger] pawn_on(
                    b,
                    opp,
                    x,
                    y,
                ) by {
                    if x == ff && 0 <= y < 8 {
                        assert(!pawn_on(b, opp, ff as int, y));
                    }
                }
            }
        }
        ff += 1;
    }
    true
}

/// Whether another pawn of `color` stands behind (`f`, `r`) on its file.
fn has_pawn_behind(pos: &Position, color: Color, f: u8, r: u8) -> (res: bool)
    requires
        f < 8,
        r < 8,
    ensures
        res == pawn_behind(pos.board@, color, f as int, r as int),
{
    let ghost b = pos.board@;
    let mut rr: u8 = 0;
    while rr < 8
        invariant
            rr <= 8,
            f < 8,
            r < 8,
            b == pos.board@,
            forall|y: int| y < rr && ahead(color, y, r as int) ==> !#[trigger] pawn_on(b, color, f as int, y),
        decreases 8 - rr,
    {
        let behind = if color == Color::White {
            r > rr
        } else {
            r < rr
        };
        if behind && is_pawn_of(pos.board[(rr * 8 + f) as usize], color) {
            assert(ahead(color, rr as int, r as int));
            assert(pawn_on(b, color, f as int, rr as int));
            return true;
        }
        rr += 1;
    }
    proof {
        assert forall|y: int| ahead(color, y, r as int) implies !#[trigger] pawn_on(b, color, f as int, y) by {
            if 0 <= y < 8 {
                assert(y < rr);
            }
        }
    }
    false
}

/// Structure terms of a pawn of `color` on `sq`.
fn pawn_structure(pos: &Position, color: Color, sq: u8) -> (s: i32)
    requires
        sq < 64,
    ensures
        s == pawn_term(pos.board@, color, sq as int % 8, sq as int / 8),
        -35 <= s <= 135,
{
    let f = sq % 8;
    let r = sq / 8;
    let mut s: i32 = 0;
    if has_pawn_behind(pos, color, f, r) {
        s -= 15;
    }
    let left = if f > 0 {
        file_pawn_count(pos, color, f - 1)
    } else {
        0
    };
    let right = if f < 7 {
        file_pawn_count(pos, color, f + 1)
    } else {
        0
    };
    proof {
        if f == 0 {
            assert(pawns_on_file(pos.board@, color, -1) == 0) by {
                reveal_with_fuel(count_where, 9);
            }
        }
        if f == 7 {
            assert(pawns_on_file(pos.board@, color, 8) == 0) by {
                reveal_with_fuel(count_where, 9);
            }
        }
    }
    if left == 0 && right == 0 {
        s -= 20;
    }
    if is_passed(pos, color, f, r) {
        let adv: i32 = if color == Color::White {
            r as i32
        } else {
            7 - r as i32
        };
        let steps: i32 = if adv - 1 > 0 {
            adv - 1
        } else {
            0
        };
        s += 15 + steps * 20;
    }
    s
}

/// Open / half-open file bonus for a rook of `color` on file `f`.
fn rook_file_bonus(pos: &Position, color: Color, f: u8) -> (s: i32)
    requires
        f < 8,
    ensures
        s == rook_term(pos.board@, color, f as int),
        0 <= s <= 20,
{
    if file_pawn_count(pos, color, f) == 0 {
        if file_pawn_count(pos, color.flip(), f) == 0 {
            20
        } else {
            10
        }
    } else {
        0
    }
}

// ── Mobility ─────────────────────────────────────────────────────────────────

pub open spec fn mob_target_fn(kind: PieceType, sq: int, occ: u64, own: u64) -> spec_fn(
    int,
) -> bool {
    |t: int| piece_attack(kind, sq, t, occ) && !bit(own, t)
}

/// Squares a piece of `kind` on `sq` reaches (captures included), not counting
/// squares held by its own side.
pub open spec fn mobility(kind: PieceType, sq: int, occ: u64, own: u64) -> nat {
    count_where(64, mob_target_fn(kind, sq, occ, own))
}

/// Mobility weighted by piece type and centred on a typical count; none for
/// pawns and kings.
pub open spec fn mob_bonus(kind: PieceType, m: int) -> int {
    match kind {
        PieceType::Knight => (m - 4) * 4,
        PieceType::Bishop => (m - 6) * 4,
        PieceType::Rook => (m - 7) * 3,
        PieceType::Queen => (m - 13) * 2,
        _ => 0,
    }
}

fn count_targets(reach: Bitboard, own: Bitboard, Ghost(p): Ghost<spec_fn(int) -> bool>) -> (n: i32)
    requires
        forall|t: int| 0 <= t < 64 ==> (reach.has(t) && !own.has(t)) == #[trigger] p(t),
    ensures
        n == count_where(64, p),
        0 <= n <= 64,
{
    let free = own.not();
    let x = reach.bitand(free);
    let n = x.count();
    proof {
        assert forall|t: int| 0 <= t < 64 implies (bit(x.0, t) == #[trigger] p(t)) by {
            assert(x.has(t) == (reach.has(t) && free.has(t)));
        }
        lemma_bits_count(x.0, 64, p);
    }
    n as i32
}

/// Mobility bonus of a `kind` on `sq`, with all pieces `all` and own pieces `own`.
fn mobility_bonus(kind: PieceType, sq: u8, all: Bitboard, own: Bitboard) -> (v: i32)
    requires
        sq < 64,
    ensures
        v == mob_bonus(kind, mobility(kind, sq as int, all.0, own.0) as int),
        -26 <= v <= 240,
        kind == PieceType::Pawn ==> v == 0,
        kind == PieceType::Rook ==> v <= 171,
{
    let ghost p = mob_target_fn(kind, sq as int, all.0, own.0);
    match kind {
        PieceType::Knight => {
            let m = count_targets(knight_attacks(sq), own, Ghost(p));
            (m - 4) * 4
        },
        PieceType::Bishop => {
            let m = count_targets(bishop_attacks(sq, all), own, Ghost(p));
            (m - 6) * 4
        },
        PieceType::Rook => {
            let m = count_targets(rook_attacks(sq, all), own, Ghost(p));
            (m - 7) * 3
        },
        PieceType::Queen => {
            let m = count_targets(bishop_attacks(sq, all).bitor(rook_attacks(sq, all)), own, Ghost(p));
            (m - 13) * 2
        },
        _ => 0,
    }
}

// ── King safety ──────────────────────────────────────────────────────────────

/// Pawn-shield term of one file next to the king: +8 with a friendly pawn on
/// one of the two ranks in front, -12 without; nothing off the board.
pub open spec fn shield_file(b: Seq<Option<Piece>>, color: Color, f: int, r1: int, r2: int) -> int {
    if 0 <= f <= 7 {
        if pawn_on(b, color, f, r1) || pawn_on(b, color, f, r2) {
            8
        } else {
            -12
        }
    } else {
        0
    }
}

/// Pawn shield in front of the king of `color` (higher = safer).
pub open spec fn king_safety_spec(p: Position, color: Color) -> int {
    let ksq = p.king_sq@[color.idx()] as int;
    let kf = ksq % 8;
    let kr = ksq / 8;
    let r1 = if color == Color::White { kr + 1 } else { kr - 1 };
    let r2 = if color == Color::White { kr + 2 } else { kr - 2 };
    shield_file(p.board@, color, kf - 1, r1, r2) + shield_file(p.board@, color, kf, r1, r2)
        + shield_file(p.board@, color, kf + 1, r1, r2)
}

/// King-safety score for `color`: a pawn shield in front of the king.
fn king_safety(pos: &Position, color: Color) -> (s: i32)
    requires
        pos.consistent(),
        pos.king_sq@[0] < 64,
        pos.king_sq@[1] < 64,
    ensures
        s == king_safety_spec(*pos, color),
        -36 <= s <= 24,
{
    let ghost b = pos.board@;
    let c = color.index();
    let ksq = pos.king_sq[c];
    let kf = (ksq % 8) as i32;
    let kr = (ksq / 8) as i32;
    let pawn = Piece::new(PieceType::Pawn, color);
    let own_pawns = pos.pieces[pawn.bb_index()];
    proof {
        lemma_piece_index_roundtrip(pawn);
        assert(0 <= c < 2);
    }
    let r1 = if color == Color::White {
        kr + 1
    } else {
        kr - 1
    };
    let r2 = if color == Color::White {
        kr + 2
    } else {
        kr - 2
    };
    let mut shield: i32 = 0;
    let mut df: i32 = -1;
    while df <= 1
        invariant
            -1 <= df <= 2,
            0 <= kf < 8,
            b == pos.board@,
            pos.consistent(),
            own_pawns == pos.pieces@[pawn.idx()],
            piece_of_index(pawn.idx()) == pawn,
            0 <= pawn.idx() < 12,
            pawn == (Piece { kind: PieceType::Pawn, color }),
            shield == (if df > -1 { shield_file(b, color, kf - 1, r1 as int, r2 as int) } else { 0 })
                + (if df > 0 { shield_file(b, color, kf as int, r1 as int, r2 as int) } else { 0 })
                + (if df > 1 { shield_file(b, color, kf + 1, r1 as int, r2 as int) } else { 0 }),
            -12 * (df + 1) <= shield <= 8 * (df + 1),
        decreases 2 - df,
    {
        let f = kf + df;
        if 0 <= f && f <= 7 {
            let mut has_pawn = false;
            if 0 <= r1 && r1 <= 7 && own_pawns.contains((r1 * 8 + f) as u8) {
                has_pawn = true;
            } else if 0 <= r2 && r2 <= 7 && own_pawns.contains((r2 * 8 + f) as u8) {
                has_pawn = true;
            }
            proof {
                if 0 <= r1 <= 7 {
                    assert(own_pawns.has(r1 * 8 + f) == pawn_on(b, color, f as int, r1 as int));
                }
                if 0 <= r2 <= 7 {
                    assert(own_pawns.has(r2 * 8 + f) == pawn_on(b, color, f as int, r2 as int));
                }
            }
            if has_pawn {
                shield += 8;
            } else {
                shield -= 12;
            }
        }
        df += 1;
    }
    shield
}

// ── Material ─────────────────────────────────────────────────────────────────

/// Material (kings excluded) of `color` on `sq`.
pub open spec fn material_on(b: Seq<Option<Piece>>, color: Color, sq: int) -> int {
    if 0 <= sq < 64 && b[sq] is Some && b[sq]->0.color == color && b[sq]->0.kind
        != PieceType::King {
        b[sq]->0.kind.value()
    } else {
        0
    }
}

pub open spec fn material_fn(b: Seq<Option<Piece>>, color: Color) -> spec_fn(int) -> int {
    |sq: int| material_on(b, color, sq)
}

/// Material (kings excluded) of either side on `sq`.
pub open spec fn non_king_on(b: Seq<Option<Piece>>, sq: int) -> int {
    if 0 <= sq < 64 && b[sq] is Some && b[sq]->0.kind != PieceType::King {
        b[sq]->0.kind.value()
    } else {
        0
    }
}

pub open spec fn non_king_fn(b: Seq<Option<Piece>>) -> spec_fn(int) -> int {
    |sq: int| non_king_on(b, sq)
}

/// Total material on the board, kings excluded.
fn non_king_material(pos: &Position) -> (v: i32)
    ensures
        v == sum_to(64, non_king_fn(pos.board@)),
        0 <= v <= 64 * 900,
{
    let ghost b = pos.board@;
    let mut v: i32 = 0;
    let mut sq: usize = 0;
    while sq < 64
        invariant
            sq <= 64,
            b == pos.board@,
            v == sum_to(sq as int, non_king_fn(b)),
            0 <= v <= 900 * sq,
        decreases 64 - sq,
    {
        if let Some(p) = pos.board[sq] {
            if p.kind != PieceType::King {
                v += p.kind.material_value();
            }
        }
        sq += 1;
    }
    v
}


// ── The evaluation ───────────────────────────────────────────────────────────

/// Largest magnitude `evaluate` can return.
pub const EVAL_LIMIT: i32 = 95_000;

/// `v` as seen from White's side, for a term that favours `c`.
pub open spec fn signed(c: Color, v: int) -> int {
    if c == Color::White {
        v
    } else {
        -v
    }
}

/// Middlegame material + table value of the piece on `sq`, from White's side.
pub open spec fn mg_on(b: Seq<Option<Piece>>, sq: int) -> int {
    if 0 <= sq < 64 && b[sq] is Some {
        let pc = b[sq]->0;
        signed(pc.color, mg_value(pc.kind) + mg_pst(pc.kind, pst_index_spec(sq, pc.color)))
    } else {
        0
    }
}

/// Endgame material + table value of the piece on `sq`, from White's side.
pub open spec fn eg_on(b: Seq<Option<Piece>>, sq: int) -> int {
    if 0 <= sq < 64 && b[sq] is Some {
        let pc = b[sq]->0;
        signed(pc.color, eg_value(pc.kind) + eg_pst(pc.kind, pst_index_spec(sq, pc.color)))
    } else {
        0
    }
}

pub open spec fn phase_on(b: Seq<Option<Piece>>, sq: int) -> int {
    if 0 <= sq < 64 && b[sq] is Some {
        phase_weight(b[sq]->0.kind)
    } else {
        0
    }
}

/// Mobility and pawn / rook-file terms of the piece on `sq`, from White's side.
pub open spec fn structure_on(p: Position, sq: int) -> int {
    let b = p.board@;
    if 0 <= sq < 64 && b[sq] is Some {
        let pc = b[sq]->0;
        let own = p.occupancy@[pc.color.idx()].0;
        let mob = mob_bonus(pc.kind, mobility(pc.kind, sq, occ_bits(p), own) as int);
        let extra = if pc.kind == PieceType::Pawn {
            pawn_term(b, pc.color, sq % 8, sq / 8)
        } else if pc.kind == PieceType::Rook {
            rook_term(b, pc.color, sq % 8)
        } else {
            0
        };
        signed(pc.color, mob + extra)
    } else {
        0
    }
}

pub open spec fn mg_fn(b: Seq<Option<Piece>>) -> spec_fn(int) -> int {
    |sq: int| mg_on(b, sq)
}

pub open spec fn eg_fn(b: Seq<Option<Piece>>) -> spec_fn(int) -> int {
    |sq: int| eg_on(b, sq)
}

pub open spec fn phase_fn(b: Seq<Option<Piece>>) -> spec_fn(int) -> int {
    |sq: int| phase_on(b, sq)
}

pub open spec fn structure_fn(p: Position) -> spec_fn(int) -> int {
    |sq: int| structure_on(p, sq)
}

/// Game phase: 24 with all minor and major pieces on the board, 0 with none.
pub open spec fn game_phase(b: Seq<Option<Piece>>) -> int {
    min_int(sum_to(64, phase_fn(b)), MAX_PHASE as int)
}

/// +30 for the side holding two or more bishops, from White's side.
pub open spec fn bishop_pair(b: Seq<Option<Piece>>) -> int {
    (if piece_count(b, PieceType::Bishop, Color::White) >= 2 { 30int } else { 0 }) - (if piece_count(
        b,
        PieceType::Bishop,
        Color::Black,
    ) >= 2 {
        30int
    } else {
        0
    })
}

/// With little material left (at most 2000, kings excluded) and one side ahead,
/// that side gains for bringing its king close to the other king and for that
/// king standing near an edge. From White's side.
pub open spec fn endgame_term(p: Position) -> int {
    let b = p.board@;
    let wm = sum_to(64, material_fn(b, Color::White));
    let bm = sum_to(64, material_fn(b, Color::Black));
    if sum_to(64, non_king_fn(b)) <= 2000 && wm != bm {
        let wk = p.king_sq@[0] as int;
        let bk = p.king_sq@[1] as int;
        let attacker = if wm > bm { wk } else { bk };
        let defender = if wm > bm { bk } else { wk };
        let bonus = (7 - chebyshev_spec(attacker, defender)) * 10 + (3 - min_int(
            edge_dist_spec(defender),
            3,
        )) * 20;
        if wm > bm {
            bonus
        } else {
            -bonus
        }
    } else {
        0
    }
}

/// The evaluation from White's side: material and tables tapered by the game
/// phase, structure, king safety faded with the phase, and the endgame term.
pub open spec fn white_score(p: Position) -> int {
    let b = p.board@;
    let ph = game_phase(b);
    let tapered = tdiv(sum_to(64, mg_fn(b)) * ph + sum_to(64, eg_fn(b)) * (MAX_PHASE - ph), MAX_PHASE as int);
    let safety = king_safety_spec(p, Color::White) - king_safety_spec(p, Color::Black);
    tapered + sum_to(64, structure_fn(p)) + bishop_pair(b) + tdiv(safety * ph, MAX_PHASE as int)
        + endgame_term(p)
}

/// Static evaluation from the side to move's point of view; a draw by
/// insufficient material scores `DRAW_SCORE`.
pub open spec fn eval_spec(p: Position) -> int {
    if insufficient_material(p.board@) {
        DRAW_SCORE as int
    } else if p.side == Color::White {
        white_score(p)
    } else {
        -white_score(p)
    }
}

proof fn lemma_taper_bound(mg: int, eg: int, ph: int)
    requires
        -78400 <= mg <= 78400,
        -78400 <= eg <= 78400,
        0 <= ph <= 24,
    ensures
        -78400 * 24 <= mg * ph <= 78400 * 24,
        -78400 * 24 <= eg * (24 - ph) <= 78400 * 24,
        -78400 * 24 <= mg * ph + eg * (24 - ph) <= 78400 * 24,
        -78400 <= tdiv(mg * ph + eg * (24 - ph), 24) <= 78400,
{
    assert(-78400 * ph <= mg * ph <= 78400 * ph) by (nonlinear_arith)
        requires
            -78400 <= mg <= 78400,
            0 <= ph,
    ;
    assert(-78400 * (24 - ph) <= eg * (24 - ph) <= 78400 * (24 - ph)) by (nonlinear_arith)
        requires
            -78400 <= eg <= 78400,
            ph <= 24,
    ;
}

proof fn lemma_safety_bound(ks: int, ph: int)
    requires
        -60 <= ks <= 60,
        0 <= ph <= 24,
    ensures
        -60 * 24 <= ks * ph <= 60 * 24,
        -60 <= tdiv(ks * ph, 24) <= 60,
{
    assert(-60 * ph <= ks * ph <= 60 * ph) by (nonlinear_arith)
        requires
            -60 <= ks <= 60,
            0 <= ph,
    ;
}

/// The middlegame, endgame, phase and structure terms of the piece on `sq`
/// (zero for an empty square), signed from White's side.
fn square_terms(pos: &Position, sq: u8, all: Bitboard) -> (r: (i32, i32, i32, i32))
    requires
        sq < 64,
        all.0 == occ_bits(*pos),
    ensures
        r.0 == mg_on(pos.board@, sq as int),
        r.1 == eg_on(pos.board@, sq as int),
        r.2 == phase_on(pos.board@, sq as int),
        r.3 == structure_on(*pos, sq as int),
        -1225 <= r.0 <= 1225,
        -1136 <= r.1 <= 1136,
        0 <= r.2 <= 4,
        -240 <= r.3 <= 240,
{
    match pos.board[sq as usize] {
        None => (0, 0, 0, 0),
        Some(piece) => {
            let kind = piece.kind;
            let color = piece.color;
            let idx = pst_index(sq, color);
            let piece_mg = mg_value_of(kind) + mg_table(kind, idx);
            let piece_eg = eg_value_of(kind) + eg_table(kind, idx);
            let ph = phase_weight_of(kind);
            let own = pos.occupancy[color.index()];
            let mut s = mobility_bonus(kind, sq, all, own);
            if kind == PieceType::Pawn {
                s += pawn_structure(pos, color, sq);
            } else if kind == PieceType::Rook {
                s += rook_file_bonus(pos, color, sq % 8);
            }
            if color == Color::White {
                (piece_mg, piece_eg, ph, s)
            } else {
                (-piece_mg, -piece_eg, ph, -s)
            }
        },
    }
}

/// Per-board sums gathered in one pass over the squares.
struct Totals {
    mg: i32,
    eg: i32,
    phase: i32,
    structural: i32,
    white_bishops: u8,
    black_bishops: u8,
    white_mat: i32,
    black_mat: i32,
}

fn board_totals(pos: &Position) -> (t: Totals)
    ensures
        t.mg == sum_to(64, mg_fn(pos.board@)),
        t.eg == sum_to(64, eg_fn(pos.board@)),
        t.phase == sum_to(64, phase_fn(pos.board@)),
        t.structural == sum_to(64, structure_fn(*pos)),
        t.white_bishops == piece_count(pos.board@, PieceType::Bishop, Color::White),
        t.black_bishops == piece_count(pos.board@, PieceType::Bishop, Color::Black),
        t.white_mat == sum_to(64, material_fn(pos.board@, Color::White)),
        t.black_mat == sum_to(64, material_fn(pos.board@, Color::Black)),
        -78400 <= t.mg <= 78400,
        -78400 <= t.eg <= 78400,
        0 <= t.phase,
        -15360 <= t.structural <= 15360,
{
    let ghost b = pos.board@;
    let all = pos.all_occupancy();
    let mut mg: i32 = 0;
    let mut eg: i32 = 0;
    let mut phase: i32 = 0;
    let mut structural: i32 = 0;
    let mut white_bishops: u8 = 0;
    let mut black_bishops: u8 = 0;
    let mut white_mat: i32 = 0;
    let mut black_mat: i32 = 0;
    let mut sq: u8 = 0;
    while sq < 64
        invariant
            sq <= 64,
            b == pos.board@,
            all.0 == occ_bits(*pos),
            mg == sum_to(sq as int, mg_fn(b)),
            -1225 * sq <= mg <= 1225 * sq,
            eg == sum_to(sq as int, eg_fn(b)),
            -1136 * sq <= eg <= 1136 * sq,
            phase == sum_to(sq as int, phase_fn(b)),
            0 <= phase <= 4 * sq,
            structural == sum_to(sq as int, structure_fn(*pos)),
            -240 * sq <= structural <= 240 * sq,
            white_bishops == count_where(sq as int, piece_at_fn(b, PieceType::Bishop, Color::White)),
            black_bishops == count_where(sq as int, piece_at_fn(b, PieceType::Bishop, Color::Black)),
            white_bishops + black_bishops <= sq,
            white_mat == sum_to(sq as int, material_fn(b, Color::White)),
            0 <= white_mat <= 900 * sq,
            black_mat == sum_to(sq as int, material_fn(b, Color::Black)),
            0 <= black_mat <= 900 * sq,
        decreases 64 - sq,
    {
        let (m, e, ph, st) = square_terms(pos, sq, all);
        mg += m;
        eg += e;
        phase += ph;
        structural += st;
        if let Some(piece) = pos.board[sq as usize] {
            if piece.kind == PieceType::Bishop {
                if piece.color == Color::White {
                    white_bishops += 1;
                } else {
                    black_bishops += 1;
                }
            }
            if piece.kind != PieceType::King {
                if piece.color == Color::White {
                    white_mat += piece.kind.material_value();
                } else {
                    black_mat += piece.kind.material_value();
                }
            }
        }
        sq += 1;
    }
    Totals { mg, eg, phase, structural, white_bishops, black_bishops, white_mat, black_mat }
}

/// The endgame king-coordination term, from White's side.
fn endgame_bonus(pos: &Position, white_mat: i32, black_mat: i32) -> (v: i32)
    requires
        pos.king_sq@[0] < 64,
        pos.king_sq@[1] < 64,
        white_mat == sum_to(64, material_fn(pos.board@, Color::White)),
        black_mat == sum_to(64, material_fn(pos.board@, Color::Black)),
    ensures
        v == endgame_term(*pos),
        -130 <= v <= 130,
{
    let total_mat = non_king_material(pos);
    if total_mat <= 2000 && white_mat != black_mat {
        let wk = pos.king_sq[0];
        let bk = pos.king_sq[1];
        proof {
            assert(pos.king_sq@[0] < 64 && pos.king_sq@[1] < 64);
        }
        let attacker = if white_mat > black_mat { wk } else { bk };
        let defender = if white_mat > black_mat { bk } else { wk };
        let dist = chebyshev(attacker, defender);
        let dedge = edge_dist(defender);
        let bonus = (7 - dist) * 10 + (3 - dedge) * 20;
        if white_mat > black_mat {
            bonus
        } else {
            -bonus
        }
    } else {
        0
    }
}

/// Static evaluation from the perspective of the side to move.
/// Positive = good for side to move.
pub fn evaluate(pos: &Position) -> (v: i32)
    requires
        pos.consistent(),
        pos.king_sq@[0] < 64,
        pos.king_sq@[1] < 64,
    ensures
        v == eval_spec(*pos),
        -EVAL_LIMIT <= v <= EVAL_LIMIT,
{
    if is_insufficient_material(pos) {
        return DRAW_SCORE;
    }
    let t = board_totals(pos);
    let mut structural = t.structural;
    if t.white_bishops >= 2 {
        structural += 30;
    }
    if t.black_bishops >= 2 {
        structural -= 30;
    }
    let phase = if t.phase < MAX_PHASE {
        t.phase
    } else {
        MAX_PHASE
    };
    proof {
        lemma_taper_bound(t.mg as int, t.eg as int, phase as int);
    }
    let mut score = div_phase(t.mg * phase + t.eg * (MAX_PHASE - phase));
    score += structural;
    let safety = king_safety(pos, Color::White) - king_safety(pos, Color::Black);
    proof {
        lemma_safety_bound(safety as int, phase as int);
    }
    score += div_phase(safety * phase);
    score += endgame_bonus(pos, t.white_mat, t.black_mat);
    if pos.side == Color::White {
        score
    } else {
        -score
    }
}


/// The evaluation is from the side to move: the same pieces with the other
/// side to move score the negation.
pub proof fn lemma_eval_side_symmetry(p: Position, q: Position)
    requires
        q.board@ == p.board@,
        q.pieces@ == p.pieces@,
        q.occupancy@ == p.occupancy@,
        q.king_sq@ == p.king_sq@,
        q.side == p.side.opposite(),
    ensures
        eval_spec(q) == -eval_spec(p),
{
    assert(structure_fn(q) =~= structure_fn(p)) by {
        assert forall|sq: int| #[trigger] structure_fn(q)(sq) == structure_fn(p)(sq) by {
            assert(occ_bits(q) == occ_bits(p));
        }
    }
    assert(king_safety_spec(q, Color::White) == king_safety_spec(p, Color::White));
    assert(king_safety_spec(q, Color::Black) == king_safety_spec(p, Color::Black));
    assert(endgame_term(q) == endgame_term(p));
    assert(white_score(q) == white_score(p));
}

proof fn lemma_count_some(n: int, f: spec_fn(int) -> bool, s: int)
    requires
        0 <= s < n,
        f(s),
    ensures
        count_where(n, f) >= 1,
    decreases n,
{
    if n - 1 > s {
        lemma_count_some(n - 1, f, s);
    }
}

proof fn lemma_count_witness(n: int, f: spec_fn(int) -> bool)
    requires
        count_where(n, f) >= 1,
    ensures
        exists|s: int| 0 <= s < n && #[trigger] f(s),
    decreases n,
{
    if n > 0 && !f(n - 1) {
        lemma_count_witness(n - 1, f);
    }
}

/// With a single bishop of `color` on the board, the square colour found for
/// it is that of its square.
proof fn lemma_lone_bishop_light(b: Seq<Option<Piece>>, color: Color, n: int, s: int)
    requires
        0 <= s < n <= 64,
        has_piece(b, s, PieceType::Bishop, color),
        count_where(n, piece_at_fn(b, PieceType::Bishop, color)) == 1,
    ensures
        last_bishop_light(b, color, n) == light_square(s),
    decreases n,
{
    if n - 1 != s {
        lemma_count_some(n - 1, piece_at_fn(b, PieceType::Bishop, color), s);
        lemma_lone_bishop_light(b, color, n - 1, s);
    }
}

/// Insufficient material means no pawn, rook or queen and at most one minor
/// piece a side, and when both sides keep one, two bishops on squares of the
/// same colour. Conversely bare kings, a lone minor piece, and one bishop each
/// on squares of the same colour are insufficient.
pub proof fn lemma_insufficient_material_cases(b: Seq<Option<Piece>>)
    ensures
        insufficient_material(b) ==> !has_major_or_pawn(b),
        insufficient_material(b) ==> piece_count(b, PieceType::Knight, Color::White) + piece_count(
            b,
            PieceType::Bishop,
            Color::White,
        ) <= 1 && piece_count(b, PieceType::Knight, Color::Black) + piece_count(
            b,
            PieceType::Bishop,
            Color::Black,
        ) <= 1,
        insufficient_material(b) && piece_count(b, PieceType::Knight, Color::White) + piece_count(
            b,
            PieceType::Bishop,
            Color::White,
        ) == 1 && piece_count(b, PieceType::Knight, Color::Black) + piece_count(
            b,
            PieceType::Bishop,
            Color::Black,
        ) == 1 ==> {
            &&& piece_count(b, PieceType::Bishop, Color::White) == 1
            &&& piece_count(b, PieceType::Bishop, Color::Black) == 1
            &&& forall|x: int, y: int|
                has_piece(b, x, PieceType::Bishop, Color::White) && has_piece(
                    b,
                    y,
                    PieceType::Bishop,
                    Color::Black,
                ) ==> light_square(x) == light_square(y)
        },
        !has_major_or_pawn(b) && piece_count(b, PieceType::Knight, Color::White) + piece_count(
            b,
            PieceType::Bishop,
            Color::White,
        ) + piece_count(b, PieceType::Knight, Color::Black) + piece_count(
            b,
            PieceType::Bishop,
            Color::Black,
        ) <= 1 ==> insufficient_material(b),
        !has_major_or_pawn(b) && piece_count(b, PieceType::Knight, Color::White) == 0 && piece_count(
            b,
            PieceType::Knight,
            Color::Black,
        ) == 0 && piece_count(b, PieceType::Bishop, Color::White) == 1 && piece_count(
            b,
            PieceType::Bishop,
            Color::Black,
        ) == 1 && (forall|x: int, y: int|
            has_piece(b, x, PieceType::Bishop, Color::White) && has_piece(b, y, PieceType::Bishop, Color::Black)
                ==> light_square(x) == light_square(y)) ==> insufficient_material(b),
{
    let fw = piece_at_fn(b, PieceType::Bishop, Color::White);
    let fb = piece_at_fn(b, PieceType::Bishop, Color::Black);
    if piece_count(b, PieceType::Bishop, Color::White) == 1 && piece_count(b, PieceType::Bishop, Color::Black)
        == 1 {
        lemma_count_witness(64, fw);
        lemma_count_witness(64, fb);
        let x0 = choose|s: int| 0 <= s < 64 && #[trigger] fw(s);
        let y0 = choose|s: int| 0 <= s < 64 && #[trigger] fb(s);
        lemma_lone_bishop_light(b, Color::White, 64, x0);
        lemma_lone_bishop_light(b, Color::Black, 64, y0);
        assert forall|x: int, y: int|
            has_piece(b, x, PieceType::Bishop, Color::White) && has_piece(b, y, PieceType::Bishop, Color::Black)
                implies light_square(x) == light_square(y) <==> last_bishop_light(b, Color::White, 64)
                == last_bishop_light(b, Color::Black, 64) by {
            lemma_lone_bishop_light(b, Color::White, 64, x);
            lemma_lone_bishop_light(b, Color::Black, 64, y);
        }
        assert(has_piece(b, x0, PieceType::Bishop, Color::White));
        assert(has_piece(b, y0, PieceType::Bishop, Color::Black));
    }
}

/// The king of the side with more material, or White's when equal.
pub open spec fn stronger_king(p: Position) -> int {
    if sum_to(64, material_fn(p.board@, Color::White)) > sum_to(64, material_fn(p.board@, Color::Black)) {
        p.king_sq@[0] as int
    } else {
        p.king_sq@[1] as int
    }
}

/// The king of the side with less material, or Black's when equal.
pub open spec fn weaker_king(p: Position) -> int {
    if sum_to(64, material_fn(p.board@, Color::White)) > sum_to(64, material_fn(p.board@, Color::Black)) {
        p.king_sq@[1] as int
    } else {
        p.king_sq@[0] as int
    }
}

/// The endgame king term drives the weaker king to the edge: on one board it
/// depends on the stronger king only through its distance to the weaker king;
/// it grows, for the stronger side, as that distance shrinks, and, with the
/// distance kept, as the weaker king comes nearer an edge (until it is within
/// three squares of one); it is zero with equal material or more than 2000 of
/// non-king material.
pub proof fn lemma_endgame_term_targets_weaker_king(p: Position, q: Position)
    requires
        p.board@ == q.board@,
    ensures
        ({
            let b = p.board@;
            let wm = sum_to(64, material_fn(b, Color::White));
            let bm = sum_to(64, material_fn(b, Color::Black));
            &&& (wm == bm || sum_to(64, non_king_fn(b)) > 2000) ==> endgame_term(p) == 0
            &&& weaker_king(p) == weaker_king(q) && chebyshev_spec(stronger_king(p), weaker_king(p))
                == chebyshev_spec(stronger_king(q), weaker_king(q)) ==> endgame_term(p) == endgame_term(q)
            &&& wm != bm && sum_to(64, non_king_fn(b)) <= 2000 && stronger_king(p) == stronger_king(q)
                && chebyshev_spec(stronger_king(p), weaker_king(p)) == chebyshev_spec(
                stronger_king(q),
                weaker_king(q),
            ) && edge_dist_spec(weaker_king(q)) < edge_dist_spec(weaker_king(p)) && edge_dist_spec(
                weaker_king(q),
            ) < 3 ==> (if wm > bm {
                endgame_term(q) > endgame_term(p)
            } else {
                endgame_term(q) < endgame_term(p)
            })
            &&& wm != bm && sum_to(64, non_king_fn(b)) <= 2000 && weaker_king(p) == weaker_king(q)
                && chebyshev_spec(stronger_king(q), weaker_king(q)) < chebyshev_spec(
                stronger_king(p),
                weaker_king(p),
            ) ==> (if wm > bm {
                endgame_term(q) > endgame_term(p)
            } else {
                endgame_term(q) < endgame_term(p)
            })
            // Each king step closer is worth 10, each step of the weaker king
            // towards the edge (within three of it) 20, and kings at the
            // greatest distance with the weaker one three or more squares from
            // every edge earn nothing.
            &&& wm != bm && sum_to(64, non_king_fn(b)) <= 2000 && weaker_king(p) == weaker_king(q)
                ==> (if wm > bm { endgame_term(q) - endgame_term(p) } else { endgame_term(p) - endgame_term(q) }) == 10 * (
            chebyshev_spec(stronger_king(p), weaker_king(p)) - chebyshev_spec(stronger_king(q), weaker_king(q)))
            &&& wm != bm && sum_to(64, non_king_fn(b)) <= 2000 && chebyshev_spec(stronger_king(p), weaker_king(p))
                == chebyshev_spec(stronger_king(q), weaker_king(q)) ==> (if wm > bm {
                endgame_term(q) - endgame_term(p)
            } else {
                endgame_term(p) - endgame_term(q)
            }) == 20 * (min_int(edge_dist_spec(weaker_king(p)), 3) - min_int(
                edge_dist_spec(weaker_king(q)),
                3,
            ))
            &&& chebyshev_spec(stronger_king(p), weaker_king(p)) == 7 && edge_dist_spec(weaker_king(p)) >= 3
                ==> endgame_term(p) == 0
        }),
{
}

/// A position where neither side can mate evaluates as a dead draw, 0,
/// whichever side is to move.
pub proof fn lemma_evaluation_of_dead_draws(p: Position)
    ensures
        insufficient_material(p.board@) ==> eval_spec(p) == 0,
{
}

} // verus!
