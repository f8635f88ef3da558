use vstd::prelude::*;

use std::sync::atomic::AtomicBool;
use std::sync::Arc;
use std::time::{Duration, Instant};

use crate::board::bitboard::{bit, lemma_or_bits, lemma_zero_iff_no_bits};
use crate::board::position::{
    color_of_index, lemma_piece_index_roundtrip, piece_of_index, Color, Move, Piece, PieceType,
    Position,
};
use crate::engine::eval::{count_where, eval_spec, evaluate, DRAW_SCORE, EVAL_LIMIT, MATE_SCORE};
use crate::engine::tt::{
    empty_entry, key_of, probe_answer, slot_count, stored_entry, TranspositionTable, TtEntry, TtFlag, MAX_PLY,
};
use crate::moves::generator::{
    attacked, king_safe_after, legal_line, legal_move, legal_position, has_legal_move,
    lemma_legal_position_fits, lemma_made_unique, pseudo_legal, pseudo_capture, MoveGen,
};
use crate::moves::make_move::{
    lemma_unmake_fits_after_make, lemma_unmake_restores, made, make_move, make_null_move,
    move_fits, undo_of, unmake_move, unmake_null_move, Undo,
};

verus! {

#[verifier::external_type_specification]
#[verifier::external_body]
pub struct ExInstant(Instant);

/// Reads the clock with `Instant::now`; nothing is known of the reading.
#[verifier::external_body]
fn clock_now() -> Instant {
    Instant::now()
}

/// `Duration::from_millis`: a span of `ms` milliseconds.
#[verifier::external_body]
fn millis(ms: u64) -> Duration {
    Duration::from_millis(ms)
}

/// `Instant::checked_add`: the instant `d` after `t`, or `None` where the
/// platform cannot represent it. Nothing more is stated.
#[verifier::external_body]
fn instant_after(t: Instant, d: Duration) -> Option<Instant> {
    t.checked_add(d)
}

/// `now >= deadline` by `Instant`'s order; which way it goes depends on the clock.
#[verifier::external_body]
fn reached(now: &Instant, deadline: &Instant) -> bool {
    *now >= *deadline
}

/// Whether a stop has been requested (another thread may set the flag).
fn stop_requested(flag: &Arc<AtomicBool>) -> bool {
    flag.load(std::sync::atomic::Ordering::Relaxed)
}

fn set_stop(flag: &Arc<AtomicBool>, value: bool) {
    flag.store(value, std::sync::atomic::Ordering::Relaxed);
}

/// Where a search learns that it should stop: a stop request on the engine's
/// flag, or the clock.
pub trait Interrupts {
    /// This source never reports a stop request.
    spec fn calm(&self) -> bool;

    /// This source never reports that the time is up.
    spec fn timeless(&self) -> bool;

    /// Whether a stop has been requested on `flag`.
    fn stop_seen(&mut self, flag: &Arc<AtomicBool>) -> (r: bool)
        ensures
            old(self).calm() ==> !r,
            final(self).calm() == old(self).calm(),
            final(self).timeless() == old(self).timeless(),
    ;

    /// Whether the time for the search is up.
    fn time_up(&mut self) -> (r: bool)
        ensures
            old(self).timeless() ==> !r,
            final(self).calm() == old(self).calm(),
            final(self).timeless() == old(self).timeless(),
    ;
}

/// The engine's stop flag, read as it stands (another thread may raise it),
/// and a deadline on the clock, if any.
pub struct Clocked {
    deadline: Option<Instant>,
}

impl Clocked {
    /// A source with the given deadline.
    pub fn new(deadline: Option<Instant>) -> (c: Self)
        ensures
            c.timeless() == (deadline is None),
    {
        Clocked { deadline }
    }
}

impl Interrupts for Clocked {
    /// A stop may be requested at any time.
    closed spec fn calm(&self) -> bool {
        false
    }

    closed spec fn timeless(&self) -> bool {
        self.deadline is None
    }

    fn stop_seen(&mut self, flag: &Arc<AtomicBool>) -> (r: bool) {
        stop_requested(flag)
    }

    fn time_up(&mut self) -> (r: bool) {
        match self.deadline {
            Some(dl) => {
                let now = clock_now();
                reached(&now, &dl)
            },
            None => false,
        }
    }
}

/// No stop requests and no clock: a search runs all its iterations.
pub struct Uninterrupted;

impl Interrupts for Uninterrupted {
    open spec fn calm(&self) -> bool {
        true
    }

    open spec fn timeless(&self) -> bool {
        true
    }

    fn stop_seen(&mut self, flag: &Arc<AtomicBool>) -> (r: bool) {
        false
    }

    fn time_up(&mut self) -> (r: bool) {
        false
    }
}

/// Plays `mv` when it is legal and returns its undo record; otherwise leaves the
/// position as it was.
pub(crate) fn make_if_legal(pos: &mut Position, mv: Move) -> (r: Option<Undo>)
    requires
        legal_position(*old(pos)),
        pseudo_legal(*old(pos), mv),
        old(pos).halfmove_clock < u32::MAX,
        old(pos).fullmove < u32::MAX,
    ensures
        r is None ==> *final(pos) == *old(pos) && !legal_move(*old(pos), mv),
        r is Some ==> {
            &&& made(*old(pos), mv, *final(pos))
            &&& legal_position(*final(pos))
            &&& legal_move(*old(pos), mv)
            &&& move_fits(*old(pos), mv)
            &&& r->0 == undo_of(*old(pos), mv)
        },
{
    let ghost p = *pos;
    proof {
        lemma_legal_position_fits(p, mv);
    }
    let undo = make_move(pos, mv);
    let ghost q = *pos;
    let us = pos.side.index();
    let them = 1 - us;
    proof {
        assert(q.king_sq@[them as int] < 64);
        assert(color_of_index(us as int) == q.side);
    }
    if MoveGen::is_attacked(pos, pos.king_sq[them], us) {
        proof {
            lemma_unmake_fits_after_make(p, mv, q);
        }
        unmake_move(pos, mv, undo);
        proof {
            lemma_unmake_restores(p, mv, q, *pos);
            assert(made(p, mv, q) && !king_safe_after(q));
        }
        None
    } else {
        proof {
            assert forall|q2: Position| #[trigger] made(p, mv, q2) implies king_safe_after(q2) by {
                lemma_made_unique(p, mv, q, q2);
            }
        }
        Some(undo)
    }
}

/// Takes back `mv`, made from `p` with record `undo`.
fn take_back(pos: &mut Position, mv: Move, undo: Undo, Ghost(p): Ghost<Position>)
    requires
        p.wf(),
        move_fits(p, mv),
        made(p, mv, *old(pos)),
        undo == undo_of(p, mv),
    ensures
        *final(pos) == p,
{
    proof {
        lemma_unmake_fits_after_make(p, mv, *pos);
    }
    let ghost q = *pos;
    unmake_move(pos, mv, undo);
    proof {
        lemma_unmake_restores(p, mv, q, *pos);
    }
}


/// Score given to a repeated position: slightly below a draw, so the engine
/// prefers to keep playing for a win.
pub const CONTEMPT: i32 = -25;

/// Score of a repetition at `ply`, for the side to move there: a draw with
/// the contempt counted against the side to move at the root.
pub open spec fn contempt_at(ply: int) -> int {
    if ply % 2 == 0 {
        CONTEMPT as int
    } else {
        -CONTEMPT
    }
}

/// Gap between the tiers of move ordering, above any history value.
pub const TIER: i64 = 0x1_0000_0000;

/// Largest magnitude of a score the search returns below the root.
pub const SCORE_LIMIT: i32 = 100_256;

pub struct SearchResult {
    pub best_move: Move,
    pub score: i32,
    pub depth: u32,
    pub nodes: u64,
    pub pv: Vec<Move>,
}

pub struct Engine {
    /// Raised (by another thread, or by the search itself when time runs out)
    /// to end the current search.
    pub stop: Arc<AtomicBool>,
    nodes: u64,
    /// Two killer moves for each of the first 64 plies (ply * 2 + slot).
    killers: [Move; 128],
    /// Cutoff history of quiet moves, indexed from * 64 + to.
    history: [i32; 4096],
    /// Hashes of the positions of the game so far, for repetition detection.
    pub game_history: Vec<u64>,
    pub tt: TranspositionTable,
    /// A stop was seen (requested, or the deadline passed) since the search began.
    aborted: bool,
    /// The moves the last node searched, each with the score its search
    /// returned (the null move, `Move(0)`, for a null-move cutoff).
    children: Ghost<Seq<(Move, i32)>>,
}

impl Engine {
    /// Hashes of the positions played so far in the game.
    pub closed spec fn game_hashes(&self) -> Seq<u64> {
        self.game_history@
    }

    /// The current search was cut short by a stop request or the clock.
    pub closed spec fn aborted(&self) -> bool {
        self.aborted
    }

    /// History counter `i` (from * 64 + to) of quiet moves.
    pub closed spec fn history_at(&self, i: int) -> int {
        self.history@[i] as int
    }

    /// Killer slot `i` (ply * 2 + slot).
    pub closed spec fn killer_at(&self, i: int) -> Move {
        self.killers@[i]
    }

    /// The entries of the transposition table.
    pub closed spec fn table(&self) -> Seq<TtEntry> {
        self.tt@
    }

    /// The moves the last node searched, each with the score its search
    /// returned; after a search, the root moves of its last iteration.
    pub closed spec fn root_moves(&self) -> Seq<(Move, i32)> {
        self.children@
    }

    /// The slot of the transposition table a hash goes to.
    pub closed spec fn table_slot(&self, hash: u64) -> int {
        self.tt.slot(hash)
    }

    /// The transposition table is well formed and holds only scores the search
    /// stores.
    pub closed spec fn wf(&self) -> bool {
        self.tt.wf() && self.tt.scores_bounded()
    }

    pub fn new() -> (e: Self)
        ensures
            e.wf(),
            e.game_hashes().len() == 0,
            e.table().len() == slot_count(16, vstd::layout::size_of::<TtEntry>() as int),
            forall|i: int| 0 <= i < e.table().len() ==> #[trigger] e.table()[i] == empty_entry(),
            forall|i: int| 0 <= i < 4096 ==> #[trigger] e.history_at(i) == 0,
            forall|i: int| 0 <= i < 128 ==> #[trigger] e.killer_at(i) == Move(0),
            !e.aborted(),
    {
        Self {
            stop: Arc::new(AtomicBool::new(false)),
            nodes: 0,
            killers: [Move(0); 128],
            history: [0; 4096],
            game_history: Vec::new(),
            tt: TranspositionTable::new(16),
            aborted: false,
            children: Ghost(Seq::empty()),
        }
    }
}

/// Number of positions of `v` equal to `h`.
fn count_occurrences(v: &Vec<u64>, h: u64) -> (n: usize)
    ensures
        n == count_where(v@.len() as int, |i: int| v@[i] == h),
{
    let ghost p = |i: int| v@[i] == h;
    let mut n: usize = 0;
    let mut k: usize = 0;
    while k < v.len()
        invariant
            k <= v@.len(),
            p == (|i: int| v@[i] == h),
            n == count_where(k as int, p),
            n <= k,
        decreases v@.len() - k,
    {
        if v[k] == h {
            n += 1;
        }
        k += 1;
    }
    n
}

/// `side` has a knight, bishop, rook or queen.
pub open spec fn has_piece_beyond_pawns(p: Position, side: Color) -> bool {
    exists|sq: int|
        0 <= sq < 64 && #[trigger] p.board@[sq] is Some && p.board@[sq]->0.color == side && (
        p.board@[sq]->0.kind == PieceType::Knight || p.board@[sq]->0.kind == PieceType::Bishop
            || p.board@[sq]->0.kind == PieceType::Rook || p.board@[sq]->0.kind == PieceType::Queen)
}

/// True if `side` has at least one knight, bishop, rook, or queen. Used to
/// disable null-move pruning in likely-zugzwang king-and-pawn positions.
fn has_non_pawn_material(pos: &Position, side: Color) -> (r: bool)
    requires
        pos.consistent(),
    ensures
        r == has_piece_beyond_pawns(*pos, side),
{
    let c = side.index();
    let x = pos.pieces[2 + c].0 | pos.pieces[4 + c].0 | pos.pieces[6 + c].0 | pos.pieces[8 + c].0;
    proof {
        let n = pos.pieces@[2 + c].0;
        let b = pos.pieces@[4 + c].0;
        let r = pos.pieces@[6 + c].0;
        let q = pos.pieces@[8 + c].0;
        lemma_or_bits(n, b);
        lemma_or_bits(n | b, r);
        lemma_or_bits(n | b | r, q);
        lemma_zero_iff_no_bits(x);
        assert forall|sq: int| 0 <= sq < 64 implies (bit(x, sq) <==> (#[trigger] pos.board@[sq] is Some
            && pos.board@[sq]->0.color == side && (pos.board@[sq]->0.kind == PieceType::Knight
            || pos.board@[sq]->0.kind == PieceType::Bishop || pos.board@[sq]->0.kind
            == PieceType::Rook || pos.board@[sq]->0.kind == PieceType::Queen))) by {
            assert(pos.pieces@[2 + c].has(sq) <==> pos.board@[sq] == Some(piece_of_index(2 + c)));
            assert(pos.pieces@[4 + c].has(sq) <==> pos.board@[sq] == Some(piece_of_index(4 + c)));
            assert(pos.pieces@[6 + c].has(sq) <==> pos.board@[sq] == Some(piece_of_index(6 + c)));
            assert(pos.pieces@[8 + c].has(sq) <==> pos.board@[sq] == Some(piece_of_index(8 + c)));
        }
        if x != 0 {
            let sq = choose|sq: int| bit(x, sq);
            assert(0 <= sq < 64);
            assert(pos.board@[sq] is Some);
        }
    }
    x != 0
}

/// Material value of the piece on `sq` (0 for an empty square).
pub open spec fn value_on(p: Position, sq: int) -> int {
    if p.board@[sq] is Some {
        p.board@[sq]->0.kind.value()
    } else {
        0
    }
}

/// Most valuable victim, least valuable attacker.
pub open spec fn mvv_lva_spec(p: Position, m: Move) -> int {
    value_on(p, m.to_spec()) * 10 - value_on(p, m.from_spec())
}

proof fn lemma_mvv_lva_range(p: Position, m: Move)
    ensures
        -20000 <= mvv_lva_spec(p, m) <= 200000,
{
    crate::board::position::lemma_move_ranges(m);
}

fn value_at(pos: &Position, sq: u8) -> (v: i32)
    requires
        sq < 64,
    ensures
        v == value_on(*pos, sq as int),
        0 <= v <= 20000,
{
    match pos.board[sq as usize] {
        Some(p) => p.kind.material_value(),
        None => 0,
    }
}

fn mvv_lva(pos: &Position, mv: Move) -> (v: i32)
    ensures
        v == mvv_lva_spec(*pos, mv),
        -20000 <= v <= 200000,
{
    proof {
        crate::board::position::lemma_move_ranges(mv);
    }
    let attacker = value_at(pos, mv.from_sq());
    let victim = value_at(pos, mv.to_sq());
    victim * 10 - attacker
}

/// Some `j` has move `m` with key `k`.
pub open spec fn pair_in(ms: Seq<Move>, ks: Seq<i64>, m: Move, k: i64) -> bool {
    exists|j: int| 0 <= j < ms.len() && ms[j] == m && ks[j] == k
}

proof fn lemma_swap_pairs(ms: Seq<Move>, ks: Seq<i64>, a: int, b: int)
    requires
        ms.len() == ks.len(),
        0 <= a < ms.len(),
        0 <= b < ms.len(),
    ensures
        forall|m: Move, k: i64|
            pair_in(ms, ks, m, k) <==> #[trigger] pair_in(
                ms.update(a, ms[b]).update(b, ms[a]),
                ks.update(a, ks[b]).update(b, ks[a]),
                m,
                k,
            ),
{
    let ms2 = ms.update(a, ms[b]).update(b, ms[a]);
    let ks2 = ks.update(a, ks[b]).update(b, ks[a]);
    assert forall|m: Move, k: i64| pair_in(ms, ks, m, k) implies #[trigger] pair_in(ms2, ks2, m, k) by {
        let j = choose|j: int| 0 <= j < ms.len() && ms[j] == m && ks[j] == k;
        let j2 = if j == a { b } else if j == b { a } else { j };
        assert(ms2[j2] == m && ks2[j2] == k);
    }
    assert forall|m: Move, k: i64| #[trigger] pair_in(ms2, ks2, m, k) implies pair_in(ms, ks, m, k) by {
        let j = choose|j: int| 0 <= j < ms2.len() && ms2[j] == m && ks2[j] == k;
        let j2 = if j == a { b } else if j == b { a } else { j };
        assert(ms[j2] == m && ks[j2] == k);
    }
}

/// `mv2`/`ks2` are `mv`/`ks` reordered by the permutation `pm` (entry `x`
/// comes from entry `pm[x]`), with entries of equal keys left in their order.
pub open spec fn stable_perm(mv: Seq<Move>, ks: Seq<i64>, mv2: Seq<Move>, ks2: Seq<i64>, pm: Seq<int>) -> bool {
    &&& pm.len() == mv2.len()
    &&& mv2.len() == ks2.len()
    &&& forall|x: int| 0 <= x < pm.len() ==> 0 <= #[trigger] pm[x] < mv.len() && mv2[x] == mv[pm[x]] && ks2[x]
        == ks[pm[x]]
    &&& forall|a: int, b: int| 0 <= a < b < pm.len() ==> #[trigger] pm[a] != #[trigger] pm[b]
    &&& forall|a: int, b: int|
        0 <= a < b < pm.len() && ks2[a] == ks2[b] ==> #[trigger] pm[a] < #[trigger] pm[b]
}

/// Stable insertion sort of `moves` by `keys`, largest key first; each move
/// keeps its key.
fn sort_by_key_desc(moves: &mut Vec<Move>, keys: &mut Vec<i64>) -> (perm: Ghost<Seq<int>>)
    requires
        old(moves)@.len() == old(keys)@.len(),
    ensures
        final(moves)@.len() == old(moves)@.len(),
        final(keys)@.len() == old(keys)@.len(),
        forall|i: int|
            0 <= i < final(moves)@.len() ==> #[trigger] pair_in(
                old(moves)@,
                old(keys)@,
                final(moves)@[i],
                final(keys)@[i],
            ),
        forall|j: int|
            0 <= j < old(moves)@.len() ==> #[trigger] pair_in(
                final(moves)@,
                final(keys)@,
                old(moves)@[j],
                old(keys)@[j],
            ),
        forall|i: int, j: int|
            0 <= i < j < final(keys)@.len() ==> final(keys)@[i] >= final(keys)@[j],
        stable_perm(old(moves)@, old(keys)@, final(moves)@, final(keys)@, perm@),
{
    let ghost om = moves@;
    let ghost ok = keys@;
    let n = moves.len();
    proof {
        assert forall|i: int| 0 <= i < n implies #[trigger] pair_in(om, ok, moves@[i], keys@[i]) by {
            assert(om[i] == moves@[i] && ok[i] == keys@[i]);
        }
        assert forall|j: int| 0 <= j < n implies #[trigger] pair_in(moves@, keys@, om[j], ok[j]) by {
            assert(moves@[j] == om[j] && keys@[j] == ok[j]);
        }
    }
    let ghost mut pm: Seq<int> = Seq::new(n as nat, |x: int| x);
    let mut i: usize = 1;
    while i < n
        invariant
            stable_perm(om, ok, moves@, keys@, pm),
            n == moves@.len(),
            n == keys@.len(),
            n == om.len(),
            n == ok.len(),
            1 <= i || n == 0,
            i <= n || n == 0,
            forall|x: int| 0 <= x < n ==> #[trigger] pair_in(om, ok, moves@[x], keys@[x]),
            forall|y: int| 0 <= y < n ==> #[trigger] pair_in(moves@, keys@, om[y], ok[y]),
            forall|a: int, b: int| 0 <= a < b < i && b < n ==> keys@[a] >= keys@[b],
        decreases n - i,
    {
        let mut j: usize = i;
        while j > 0 && keys[j - 1] < keys[j]
            invariant
                n == moves@.len(),
                n == keys@.len(),
                n == om.len(),
                n == ok.len(),
                1 <= i < n,
                j <= i,
                forall|x: int| 0 <= x < n ==> #[trigger] pair_in(om, ok, moves@[x], keys@[x]),
                forall|y: int| 0 <= y < n ==> #[trigger] pair_in(moves@, keys@, om[y], ok[y]),
                forall|a: int, b: int| 0 <= a < b < j ==> keys@[a] >= keys@[b],
                forall|a: int, b: int| j < a < b <= i ==> keys@[a] >= keys@[b],
                forall|a: int, b: int| 0 <= a < j && j < b <= i ==> keys@[a] >= keys@[b],
                forall|b: int| j < b <= i ==> keys@[j as int] > keys@[b],
                stable_perm(om, ok, moves@, keys@, pm),
            decreases j,
        {
            let ghost ms = moves@;
            let ghost ks = keys@;
            let km = keys[j - 1];
            let kj = keys[j];
            let mm = moves[j - 1];
            let mj = moves[j];
            moves.set(j - 1, mj);
            moves.set(j, mm);
            keys.set(j - 1, kj);
            keys.set(j, km);
            proof {
                let pm0 = pm;
                pm = pm0.update(j - 1, pm0[j as int]).update(j as int, pm0[j - 1]);
                assert forall|a: int, b: int|
                    0 <= a < b < n && keys@[a] == keys@[b] implies #[trigger] pm[a] < #[trigger] pm[b] by {
                    let a2 = if a == j - 1 { j as int } else if a == j { j - 1 } else { a };
                    let b2 = if b == j - 1 { j as int } else if b == j { j - 1 } else { b };
                    assert(keys@[a] == ks[a2] && keys@[b] == ks[b2]);
                    assert(pm[a] == pm0[a2] && pm[b] == pm0[b2]);
                    if a2 > b2 {
                        assert(a == j - 1 && b == j);
                        assert(ks[j - 1] < ks[j as int]);
                    }
                }
                assert forall|a: int, b: int| 0 <= a < b < n implies #[trigger] pm[a] != #[trigger] pm[b] by {
                    let a2 = if a == j - 1 { j as int } else if a == j { j - 1 } else { a };
                    let b2 = if b == j - 1 { j as int } else if b == j { j - 1 } else { b };
                    assert(pm[a] == pm0[a2] && pm[b] == pm0[b2]);
                    assert(a2 != b2);
                    if a2 < b2 {
                        assert(pm0[a2] != pm0[b2]);
                    } else {
                        assert(pm0[b2] != pm0[a2]);
                    }
                }
                assert forall|x: int| 0 <= x < n implies 0 <= #[trigger] pm[x] < n && moves@[x] == om[pm[x]]
                    && keys@[x] == ok[pm[x]] by {
                    let x2 = if x == j - 1 { j as int } else if x == j { j - 1 } else { x };
                    assert(pm[x] == pm0[x2]);
                    assert(moves@[x] == ms[x2] && keys@[x] == ks[x2]);
                }
                lemma_swap_pairs(ms, ks, j - 1, j as int);
                assert(moves@ == ms.update(j - 1, ms[j as int]).update(j as int, ms[j - 1]));
                assert(keys@ == ks.update(j - 1, ks[j as int]).update(j as int, ks[j - 1]));
                assert forall|x: int| 0 <= x < n implies #[trigger] pair_in(om, ok, moves@[x], keys@[x]) by {
                    let x2 = if x == j - 1 { j as int } else if x == j { j - 1 } else { x };
                    assert(moves@[x] == ms[x2] && keys@[x] == ks[x2]);
                    assert(pair_in(om, ok, ms[x2], ks[x2]));
                }
                assert forall|y: int| 0 <= y < n implies #[trigger] pair_in(moves@, keys@, om[y], ok[y]) by {
                    assert(pair_in(ms, ks, om[y], ok[y]));
                }
            }
            j -= 1;
        }
        i += 1;
    }
    Ghost(pm)
}


// ── Pieces on the board ──────────────────────────────────────────────────────

pub open spec fn occupied_fn(b: Seq<Option<Piece>>) -> spec_fn(int) -> bool {
    |sq: int| 0 <= sq < 64 && b[sq] is Some
}

/// Number of pieces on the board.
pub open spec fn piece_total(b: Seq<Option<Piece>>) -> nat {
    count_where(64, occupied_fn(b))
}

proof fn lemma_count_same(n: int, p: spec_fn(int) -> bool, q: spec_fn(int) -> bool)
    requires
        forall|i: int| 0 <= i < n ==> #[trigger] p(i) == q(i),
    ensures
        count_where(n, p) == count_where(n, q),
    decreases n,
{
    if n > 0 {
        lemma_count_same(n - 1, p, q);
    }
}

proof fn lemma_count_change(n: int, p: spec_fn(int) -> bool, q: spec_fn(int) -> bool, k: int)
    requires
        0 <= k < n,
        forall|i: int| 0 <= i < n && i != k ==> #[trigger] p(i) == q(i),
    ensures
        count_where(n, q) + (if p(k) { 1int } else { 0 }) == count_where(n, p) + (if q(k) {
            1int
        } else {
            0
        }),
    decreases n,
{
    if n - 1 == k {
        lemma_count_same(n - 1, p, q);
    } else {
        lemma_count_change(n - 1, p, q, k);
    }
}

proof fn lemma_update_total(b: Seq<Option<Piece>>, k: int, v: Option<Piece>)
    requires
        b.len() == 64,
        0 <= k < 64,
    ensures
        piece_total(b.update(k, v)) + (if b[k] is Some { 1int } else { 0 }) == piece_total(b) + (
        if v is Some {
            1int
        } else {
            0
        }),
{
    let b2 = b.update(k, v);
    assert forall|i: int| 0 <= i < 64 && i != k implies #[trigger] occupied_fn(b)(i) == occupied_fn(b2)(i) by {
        assert(b2[i] == b[i]);
    }
    lemma_count_change(64, occupied_fn(b), occupied_fn(b2), k);
}

proof fn lemma_total_bound(b: Seq<Option<Piece>>)
    ensures
        piece_total(b) <= 64,
{
    crate::engine::eval::lemma_count_where_bound(64, occupied_fn(b));
}

/// A capture leaves one piece fewer on the board.
proof fn lemma_capture_removes_piece(p: Position, m: Move, q: Position)
    requires
        p.wf(),
        move_fits(p, m),
        made(p, m, q),
        m.capture_spec(),
    ensures
        piece_total(q.board@) + 1 == piece_total(p.board@),
{
    crate::board::position::lemma_move_ranges(m);
    let b = p.board@;
    let f = m.from_spec();
    let t = m.to_spec();
    let land = crate::moves::make_move::landing_piece(p, m);
    let b0 = b.update(f, None);
    let b1 = b0.update(t, Some(land));
    lemma_update_total(b, f, None);
    lemma_update_total(b0, t, Some(land));
    if m.ep_spec() {
        let v = crate::board::position::behind(p.side, t);
        assert(b1[v] == b[v]);
        lemma_update_total(b1, v, None);
        assert(q.board@ == b1.update(v, None));
    } else {
        assert(b0[t] == b[t]);
        assert(q.board@ == b1);
    }
}

impl Engine {
    /// Asks `intr` whether a stop was requested, noting one as the search being
    /// cut short.
    fn stopped<I: Interrupts>(&mut self, intr: &mut I) -> (r: bool)
        ensures
            final(self).aborted == (old(self).aborted || r),
            final(self).children == old(self).children,
            old(intr).calm() ==> !r,
            final(intr).calm() == old(intr).calm(),
            final(intr).timeless() == old(intr).timeless(),
            final(self).tt == old(self).tt,
            final(self).game_history == old(self).game_history,
            final(self).stop == old(self).stop,
    {
        let r = intr.stop_seen(&self.stop);
        if r {
            self.aborted = true;
        }
        r
    }

    fn count_node(&mut self)
        ensures
            final(self).tt == old(self).tt,
            final(self).game_history == old(self).game_history,
            final(self).aborted == old(self).aborted,
            final(self).stop == old(self).stop,
    {
        if self.nodes < u64::MAX {
            self.nodes = self.nodes + 1;
        }
    }

    /// Captures-only search below the main search's leaves, with stand-pat and
    /// delta pruning. Fails hard: the result lies in `[alpha, beta]`, at least
    /// the static evaluation (stand pat) and `beta` when that already reaches
    /// `beta`, unless a stop cut the search short (then 0).
    fn quiescence<I: Interrupts>(&mut self, pos: &mut Position, alpha: i32, beta: i32, intr: &mut I) -> (r: i32)
        requires
            old(self).wf(),
            legal_position(*old(pos)),
            old(pos).halfmove_clock < u32::MAX,
            old(pos).fullmove + piece_total(old(pos).board@) < u32::MAX,
            -MATE_SCORE <= alpha < beta <= MATE_SCORE,
        ensures
            final(self).wf(),
            final(self).game_history == old(self).game_history,
            *final(pos) == *old(pos),
            old(self).aborted ==> final(self).aborted,
            final(intr).calm() == old(intr).calm(),
            final(intr).timeless() == old(intr).timeless(),
            old(intr).calm() && old(intr).timeless() && !old(self).aborted ==> !final(self).aborted,
            r == 0 || alpha <= r <= beta,
            !final(self).aborted ==> {
                &&& alpha <= r <= beta
                &&& eval_spec(*old(pos)) >= beta ==> r == beta
                &&& r >= (if eval_spec(*old(pos)) > alpha { eval_spec(*old(pos)) } else { alpha as int })
                    || r == beta
            },
            // The result is the stand pat or the best capture, clipped to the window.
            !final(self).aborted ==> quiesced(*old(pos), final(self).children@, alpha, beta, r),
            // Without captures the stand pat is the answer, within the window.
            !final(self).aborted && (forall|m: Move| !pseudo_capture(*old(pos), m)) ==> r == (if eval_spec(
                *old(pos),
            ) >= beta {
                beta as int
            } else if eval_spec(*old(pos)) > alpha {
                eval_spec(*old(pos))
            } else {
                alpha as int
            }),
        decreases piece_total(old(pos).board@),
    {
        if self.stopped(intr) {
            return 0;
        }
        self.count_node();
        let ghost p = *pos;
        let stand_pat = evaluate(pos);
        if stand_pat >= beta {
            return beta;
        }
        let ghost mut trace: Seq<(Move, i32)> = Seq::empty();
        let mut floor = alpha;
        if stand_pat > floor {
            floor = stand_pat;
        }
        let ghost floor0 = floor;
        let mut captures = MoveGen::generate_captures(pos);
        let mut keys: Vec<i64> = Vec::new();
        let mut k: usize = 0;
        while k < captures.len()
            invariant
                k <= captures@.len(),
                keys@.len() == k,
                forall|x: int| 0 <= x < k ==> keys@[x] == mvv_lva_spec(*pos, #[trigger] captures@[x]),
            decreases captures@.len() - k,
        {
            keys.push(mvv_lva(pos, captures[k]) as i64);
            k += 1;
        }
        let ghost unsorted = captures@;
        let ghost unsorted_keys = keys@;
        sort_by_key_desc(&mut captures, &mut keys);
        proof {
            assert forall|x: int| 0 <= x < captures@.len() implies pseudo_capture(p, #[trigger] captures@[x]) by {
                assert(pair_in(unsorted, unsorted_keys, captures@[x], keys@[x]));
                let j = choose|j: int| 0 <= j < unsorted.len() && unsorted[j] == captures@[x]
                    && unsorted_keys[j] == keys@[x];
                assert(pseudo_capture(p, unsorted[j]));
            }
        }
        proof {
            assert forall|m: Move| pseudo_capture(p, m) implies #[trigger] captures@.contains(m) by {
                assert(unsorted.contains(m));
                let x = choose|x: int| 0 <= x < unsorted.len() && unsorted[x] == m;
                assert(pair_in(captures@, keys@, unsorted[x], unsorted_keys[x]));
            }
            if forall|m: Move| !pseudo_capture(p, m) {
                if captures@.len() > 0 {
                    assert(pseudo_capture(p, captures@[0]));
                }
            }
        }
        let mut i: usize = 0;
        while i < captures.len()
            invariant
                i <= captures@.len(),
                self.game_history == old(self).game_history,
                *pos == p,
                p == *old(pos),
                self.wf(),
                legal_position(p),
                p.halfmove_clock < u32::MAX,
                p.fullmove + piece_total(p.board@) < u32::MAX,
                -MATE_SCORE <= alpha <= floor < beta <= MATE_SCORE,
                -EVAL_LIMIT <= stand_pat <= EVAL_LIMIT,
                stand_pat == eval_spec(p),
                stand_pat <= floor,
                i == 0 ==> floor == floor0,
                old(self).aborted ==> self.aborted,
                intr.calm() == old(intr).calm(),
                intr.timeless() == old(intr).timeless(),
                old(intr).calm() && old(intr).timeless() && !old(self).aborted ==> !self.aborted,
                forall|x: int| 0 <= x < captures@.len() ==> pseudo_capture(p, #[trigger] captures@[x]),
                forall|m: Move| pseudo_capture(p, m) ==> #[trigger] captures@.contains(m),
                floor0 == (if stand_pat > alpha { stand_pat } else { alpha }),
                forall|k: int|
                    0 <= k < trace.len() ==> legal_move(p, (#[trigger] trace[k]).0) && pseudo_capture(p, trace[k].0)
                        && trace[k].1 <= floor,
                floor == floor0 || exists|k: int| 0 <= k < trace.len() && (#[trigger] trace[k]).1 == floor,
                forall|x: int|
                    0 <= x < i && legal_move(p, #[trigger] captures@[x]) ==> delta_pruned(p, captures@[x], floor as int)
                        || exists|k: int| 0 <= k < trace.len() && (#[trigger] trace[k]).0 == captures@[x],
            decreases captures@.len() - i,
        {
            let mv = captures[i];
            let mut skip = false;
            if !mv.is_promotion() && !mv.is_ep() {
                proof {
                    crate::board::position::lemma_move_ranges(mv);
                }
                let victim = value_at(pos, mv.to_sq());
                if stand_pat + victim + 150 < floor {
                    skip = true;
                }
            }
            if !skip {
                proof {
                    lemma_total_bound(p.board@);
                }
                match make_if_legal(pos, mv) {
                    None => {},
                    Some(undo) => {
                        proof {
                            lemma_legal_position_fits(p, mv);
                            lemma_capture_removes_piece(p, mv, *pos);
                        }
                        let score = -self.quiescence(pos, -beta, -floor, intr);
                        take_back(pos, mv, undo, Ghost(p));
                        let ghost before_trace = trace;
                        proof {
                            trace = trace.push((mv, score));
                            assert forall|x: int|
                                0 <= x < i + 1 && legal_move(p, #[trigger] captures@[x]) implies delta_pruned(
                                    p,
                                    captures@[x],
                                    floor as int,
                                ) || exists|k: int| 0 <= k < trace.len() && (#[trigger] trace[k]).0 == captures@[x] by {
                                if x < i {
                                    if !delta_pruned(p, captures@[x], floor as int) {
                                        let k = choose|k: int|
                                            0 <= k < before_trace.len() && (#[trigger] before_trace[k]).0 == captures@[x];
                                        assert(trace[k] == before_trace[k]);
                                    }
                                } else {
                                    assert(trace[trace.len() - 1].0 == captures@[x]);
                                }
                            }
                            if floor != floor0 {
                                let k = choose|k: int| 0 <= k < before_trace.len() && (#[trigger] before_trace[k]).1 == floor;
                                assert(trace[k] == before_trace[k]);
                            }
                        }
                        if score >= beta {
                            self.children = Ghost(trace);
                            proof {
                                assert forall|k: int| 0 <= k < trace.len() - 1 implies (#[trigger] trace[k]).1 < beta by {
                                    assert(trace[k] == before_trace[k]);
                                }
                            }
                            return beta;
                        }
                        if score > floor {
                            floor = score;
                            proof {
                                assert(trace[trace.len() - 1].1 == floor);
                            }
                        }
                    },
                }
            }
            i += 1;
        }
        self.children = Ghost(trace);
        proof {
            assert forall|m: Move| legal_move(p, m) && pseudo_capture(p, m) implies delta_pruned(p, m, floor as int)
                || exists|k: int| 0 <= k < trace.len() && (#[trigger] trace[k]).0 == m by {
                assert(captures@.contains(m));
                let j = choose|j: int| 0 <= j < captures@.len() && captures@[j] == m;
                assert(legal_move(p, captures@[j]));
            }
        }
        floor
    }
}


impl Engine {
    /// Ordering score of `m`, in tiers: the hash move first, then captures by
    /// MVV-LVA, then the killer moves of this ply, then quiet moves by their
    /// history.
    pub closed spec fn order_score(&self, p: Position, m: Move, ply: int, tt_move: Move) -> int {
        if tt_move.0 != 0 && m == tt_move {
            3 * TIER
        } else if m.capture_spec() {
            2 * TIER + mvv_lva_spec(p, m)
        } else if ply < 64 && (self.killers@[2 * ply] == m || self.killers@[2 * ply + 1] == m) {
            TIER as int
        } else {
            self.history@[m.from_spec() * 64 + m.to_spec()] as int
        }
    }

    /// The hash move comes first, then every capture, then the killers, then
    /// the other quiet moves.
    pub proof fn lemma_order_tiers(&self, p: Position, m1: Move, m2: Move, ply: int, tt_move: Move)
        requires
            m1 != m2,
        ensures
            tt_move.0 != 0 && m1 == tt_move ==> self.order_score(p, m1, ply, tt_move) > self.order_score(
                p,
                m2,
                ply,
                tt_move,
            ),
            !(tt_move.0 != 0 && m2 == tt_move) && m1.capture_spec() && !m2.capture_spec()
                ==> self.order_score(p, m1, ply, tt_move) > self.order_score(p, m2, ply, tt_move),
            !(tt_move.0 != 0 && (m1 == tt_move || m2 == tt_move)) && !m1.capture_spec()
                && !m2.capture_spec() && self.is_killer(m1, ply) && !self.is_killer(m2, ply)
                ==> self.order_score(p, m1, ply, tt_move) > self.order_score(p, m2, ply, tt_move),
    {
        lemma_mvv_lva_range(p, m1);
        lemma_mvv_lva_range(p, m2);
    }

    /// `m` is one of the two killer moves of `ply`.
    pub closed spec fn is_killer(&self, m: Move, ply: int) -> bool {
        0 <= ply < 64 && (self.killers@[2 * ply] == m || self.killers@[2 * ply + 1] == m)
    }

    fn move_score(&self, pos: &Position, mv: Move, ply: usize, tt_move: Move) -> (v: i64)
        ensures
            v == self.order_score(*pos, mv, ply as int, tt_move),
    {
        proof {
            crate::board::position::lemma_move_ranges(mv);
        }
        if tt_move.0 != 0 && mv == tt_move {
            3 * TIER
        } else if mv.is_capture() {
            2 * TIER + mvv_lva(pos, mv) as i64
        } else if ply < 64 && (self.killers[2 * ply] == mv || self.killers[2 * ply + 1] == mv) {
            TIER
        } else {
            self.history[mv.from_sq() as usize * 64 + mv.to_sq() as usize] as i64
        }
    }

    /// Sorts `moves` best-first by `order_score`, keeping equal moves in order.
    fn order_moves(&self, pos: &Position, moves: &mut Vec<Move>, ply: usize, tt_move: Move)
        ensures
            final(moves)@.len() == old(moves)@.len(),
            forall|i: int|
                0 <= i < final(moves)@.len() ==> old(moves)@.contains(#[trigger] final(moves)@[i]),
            forall|j: int|
                0 <= j < old(moves)@.len() ==> final(moves)@.contains(#[trigger] old(moves)@[j]),
            forall|i: int, j: int|
                0 <= i < j < final(moves)@.len() ==> self.order_score(*pos, final(moves)@[i], ply as int, tt_move)
                    >= self.order_score(*pos, final(moves)@[j], ply as int, tt_move),
            // Moves of equal score keep their order: entry `x` comes from entry
            // `pm[x]`.
            exists|pm: Seq<int>|
                #![trigger pm.len()]
                pm.len() == final(moves)@.len() && (forall|x: int|
                    0 <= x < pm.len() ==> 0 <= #[trigger] pm[x] < old(moves)@.len() && final(moves)@[x]
                        == old(moves)@[pm[x]]) && (forall|a: int, b: int|
                    0 <= a < b < pm.len() ==> #[trigger] pm[a] != #[trigger] pm[b]) && (forall|a: int, b: int|
                    0 <= a < b < pm.len() && self.order_score(*pos, final(moves)@[a], ply as int, tt_move)
                        == self.order_score(*pos, final(moves)@[b], ply as int, tt_move) ==> #[trigger] pm[a]
                        < #[trigger] pm[b]),
    {
        let ghost om = moves@;
        let mut keys: Vec<i64> = Vec::new();
        let mut k: usize = 0;
        while k < moves.len()
            invariant
                k <= moves@.len(),
                keys@.len() == k,
                moves@ == om,
                forall|x: int|
                    0 <= x < k ==> keys@[x] == self.order_score(*pos, #[trigger] moves@[x], ply as int, tt_move),
            decreases moves@.len() - k,
        {
            keys.push(self.move_score(pos, moves[k], ply, tt_move));
            k += 1;
        }
        let ghost ok = keys@;
        let perm = sort_by_key_desc(moves, &mut keys);
        proof {
            assert forall|i: int| 0 <= i < moves@.len() implies keys@[i] == self.order_score(
                *pos,
                #[trigger] moves@[i],
                ply as int,
                tt_move,
            ) && om.contains(moves@[i]) by {
                assert(pair_in(om, ok, moves@[i], keys@[i]));
                let j = choose|j: int| 0 <= j < om.len() && om[j] == moves@[i] && ok[j] == keys@[i];
                assert(om[j] == moves@[i]);
            }
            assert forall|j: int| 0 <= j < om.len() implies moves@.contains(#[trigger] om[j]) by {
                assert(pair_in(moves@, keys@, om[j], ok[j]));
                let i = choose|i: int| 0 <= i < moves@.len() && moves@[i] == om[j] && keys@[i] == ok[j];
                assert(moves@[i] == om[j]);
            }
            assert forall|i: int, j: int| 0 <= i < j < moves@.len() implies self.order_score(
                *pos,
                moves@[i],
                ply as int,
                tt_move,
            ) >= self.order_score(*pos, moves@[j], ply as int, tt_move) by {
                assert(keys@[i] == self.order_score(*pos, moves@[i], ply as int, tt_move));
                assert(keys@[j] == self.order_score(*pos, moves@[j], ply as int, tt_move));
            }
            let pm = perm@;
            assert forall|a: int, b: int|
                0 <= a < b < pm.len() && self.order_score(*pos, moves@[a], ply as int, tt_move)
                    == self.order_score(*pos, moves@[b], ply as int, tt_move) implies #[trigger] pm[a]
                < #[trigger] pm[b] by {
                assert(keys@[a] == self.order_score(*pos, moves@[a], ply as int, tt_move));
                assert(keys@[b] == self.order_score(*pos, moves@[b], ply as int, tt_move));
            }
            assert(pm.len() == moves@.len());
        }
    }

    /// Remembers a quiet move that caused a cutoff (killer slots) and raises its
    /// history by depth squared.
    fn note_cutoff(&mut self, mv: Move, depth: u32, ply: usize)
        ensures
            final(self).tt == old(self).tt,
            final(self).game_history == old(self).game_history,
            final(self).aborted == old(self).aborted,
    {
        proof {
            crate::board::position::lemma_move_ranges(mv);
        }
        if !mv.is_capture() && ply < 64 {
            if self.killers[2 * ply] != mv {
                self.killers[2 * ply + 1] = self.killers[2 * ply];
                self.killers[2 * ply] = mv;
            }
        }
        let bonus: i32 = if depth <= 46340 {
            assert(depth * depth <= 46340 * 46340) by (nonlinear_arith)
                requires
                    depth <= 46340,
            ;
            (depth * depth) as i32
        } else {
            i32::MAX
        };
        assert(bonus >= 0);
        let idx = mv.from_sq() as usize * 64 + mv.to_sq() as usize;
        let h = self.history[idx];
        self.history[idx] = if h > i32::MAX - bonus {
            i32::MAX
        } else {
            h + bonus
        };
    }
}


/// The side to move is in check.
pub open spec fn checked(p: Position) -> bool {
    attacked(p, p.king_sq@[p.side.idx()] as int, p.side.opposite())
}

/// Below the root, the position already occurs twice on the search stack.
pub open spec fn repeated_below_root(stack: Seq<u64>, p: Position, ply: int) -> bool {
    ply > 0 && count_where(stack.len() as int, |i: int| stack[i] == p.hash) >= 2
}

/// Slot `slot` of table `v` holds the exact entry a node for `p` searched
/// `depth` deep at `ply` stores for score `score` and best move `m`, unless that
/// slot kept an entry for the same position searched deeper.
pub open spec fn table_records(
    v: Seq<TtEntry>,
    slot: int,
    p: Position,
    depth: int,
    score: i32,
    m: Move,
    ply: int,
) -> bool {
    let e = v[slot];
    ||| e == stored_entry(p.hash, depth as u32, score, TtFlag::Exact, m, ply)
    ||| e.key == key_of(p.hash) && (e.depth as int) > depth
}

/// A capture that delta pruning skips once the score to beat is `floor`: even
/// winning the captured piece with a margin of 150 leaves the stand pat short.
pub open spec fn delta_pruned(p: Position, m: Move, floor: int) -> bool {
    &&& !m.promo_spec()
    &&& !m.ep_spec()
    &&& eval_spec(p) + value_on(p, m.to_spec()) + 150 < floor
}

/// What quiescence returns, given the captures it searched with their scores
/// (`t`, in search order): `beta` when the stand pat or the last capture searched
/// reaches `beta`; otherwise the largest of `alpha`, the stand pat and the
/// scores, with every legal capture searched or skipped by delta pruning.
pub open spec fn quiesced(p: Position, t: Seq<(Move, i32)>, alpha: i32, beta: i32, r: i32) -> bool {
    let e = eval_spec(p);
    if e >= beta {
        r == beta
    } else if r == beta {
        &&& t.len() > 0
        &&& t.last().1 >= beta
        &&& forall|k: int| 0 <= k < t.len() - 1 ==> (#[trigger] t[k]).1 < beta
        &&& forall|k: int| 0 <= k < t.len() ==> legal_move(p, (#[trigger] t[k]).0) && pseudo_capture(p, t[k].0)
    } else {
        &&& alpha <= r < beta
        &&& e <= r
        &&& forall|k: int|
            0 <= k < t.len() ==> legal_move(p, (#[trigger] t[k]).0) && pseudo_capture(p, t[k].0) && t[k].1 <= r
        &&& r == alpha || r == e || exists|k: int| 0 <= k < t.len() && (#[trigger] t[k]).1 == r
        &&& forall|m: Move|
            legal_move(p, m) && pseudo_capture(p, m) ==> delta_pruned(p, m, r as int) || exists|k: int|
                0 <= k < t.len() && (#[trigger] t[k]).0 == m
    }
}

/// What a searched node with legal moves returns, given the moves it searched
/// with their scores (`t`, in search order): `beta` when the last move searched
/// (or the null move) scored at least `beta`, and otherwise, with every legal
/// move searched and none at `beta` or above, the largest of `alpha` and the
/// scores, the best move leading the variation `pv`.
pub open spec fn searched_children(
    p: Position,
    t: Seq<(Move, i32)>,
    alpha: i32,
    beta: i32,
    r: i32,
    pv: Seq<Move>,
) -> bool {
    if r == beta {
        &&& t.len() > 0
        &&& t.last().1 >= beta
        &&& forall|k: int| 0 <= k < t.len() - 1 ==> (#[trigger] t[k]).1 < beta
        &&& forall|k: int| 0 <= k < t.len() ==> legal_move(p, (#[trigger] t[k]).0) || (t.len() == 1 && t[k].0 == Move(0))
    } else {
        &&& alpha <= r < beta
        &&& forall|k: int| 0 <= k < t.len() ==> legal_move(p, (#[trigger] t[k]).0) && t[k].1 <= r
        &&& forall|m: Move| legal_move(p, m) ==> exists|k: int| 0 <= k < t.len() && (#[trigger] t[k]).0 == m
        &&& r > alpha ==> pv.len() > 0 && exists|k: int| 0 <= k < t.len() && (#[trigger] t[k]).1 == r && t[k].0 == pv[0]
    }
}

/// Depth of a node after the check extension.
pub open spec fn extended_depth(p: Position, depth: int, ply: int) -> int {
    if checked(p) && ply > 0 {
        depth + 1
    } else {
        depth
    }
}

/// The node neither ends early (repetition, fifty-move rule, ply limit), nor
/// drops into quiescence, nor is cut off by the transposition table, so its
/// moves are searched.
pub closed spec fn searched_node(
    e: Engine,
    p: Position,
    stack: Seq<u64>,
    depth: int,
    ply: int,
    alpha: i32,
    beta: i32,
) -> bool {
    let d = extended_depth(p, depth, ply);
    &&& !repeated_below_root(stack, p, ply)
    &&& p.halfmove_clock < 100
    &&& ply < MAX_PLY
    &&& d > 0
    &&& !(ply > 0 && probe_answer(e.tt@[e.tt.slot(p.hash)], p.hash, d as u32, alpha, beta, ply).0 is Some)
}

/// What every search node may assume: a legal position with room on the move
/// counters for the rest of the search below it.
pub open spec fn node_ok(p: Position, ply: int) -> bool {
    &&& legal_position(p)
    &&& p.halfmove_clock < u32::MAX
    &&& p.fullmove + (MAX_PLY - ply) + 64 < u32::MAX
    &&& 0 <= ply <= MAX_PLY
}

impl Engine {
    /// Searches the position after a move (already made) for the node at `ply`:
    /// the first move with the full window, later ones with a zero window
    /// (reduced by `reduction`) and re-searches when they beat `alpha`.
    /// The score is from the parent's side.
    fn search_child<I: Interrupts>(
        &mut self,
        pos: &mut Position,
        new_depth: u32,
        ply: usize,
        alpha: i32,
        beta: i32,
        first: bool,
        reduction: u32,
        child_pv: &mut Vec<Move>,
        intr: &mut I,
        search_stack: &mut Vec<u64>,
    ) -> (score: i32)
        requires
            old(self).wf(),
            node_ok(*old(pos), ply + 1),
            ply < MAX_PLY,
            new_depth < u32::MAX,
            reduction <= new_depth,
            -MATE_SCORE <= alpha < beta <= MATE_SCORE,
            old(child_pv)@.len() == 0,
        ensures
            final(self).wf(),
            final(self).game_history == old(self).game_history,
            *final(pos) == *old(pos),
            final(search_stack)@ == old(search_stack)@,
            -SCORE_LIMIT <= score <= SCORE_LIMIT,
            legal_line(*old(pos), final(child_pv)@),
            old(self).aborted ==> final(self).aborted,
            final(intr).calm() == old(intr).calm(),
            final(intr).timeless() == old(intr).timeless(),
            old(intr).calm() && old(intr).timeless() && !old(self).aborted ==> !final(self).aborted,
        decreases MAX_PLY - ply, 0int,
    {
        if first {
            return -self.negamax(pos, new_depth, ply + 1, -beta, -alpha, child_pv, intr, search_stack, true);
        }
        let mut s = -self.negamax(
            pos,
            new_depth - reduction,
            ply + 1,
            -alpha - 1,
            -alpha,
            child_pv,
            intr,
            search_stack,
            true,
        );
        if reduction > 0 && s > alpha {
            child_pv.clear();
            s = -self.negamax(pos, new_depth, ply + 1, -alpha - 1, -alpha, child_pv, intr, search_stack, true);
        }
        if s > alpha && s < beta {
            child_pv.clear();
            s = -self.negamax(pos, new_depth, ply + 1, -beta, -alpha, child_pv, intr, search_stack, true);
        }
        s
    }

    /// Null-move pruning: passes the move and searches shallower with a zero
    /// window at `beta`; true when the position still holds `beta`.
    fn null_move_holds<I: Interrupts>(
        &mut self,
        pos: &mut Position,
        depth: u32,
        ply: usize,
        beta: i32,
        intr: &mut I,
        search_stack: &mut Vec<u64>,
    ) -> (holds: bool)
        requires
            old(self).wf(),
            node_ok(*old(pos), ply as int),
            !attacked(*old(pos), old(pos).king_sq@[old(pos).side.idx()] as int, old(pos).side.opposite()),
            ply < MAX_PLY,
            depth < u32::MAX,
            -MATE_SCORE < beta <= MATE_SCORE,
        ensures
            final(self).wf(),
            final(self).game_history == old(self).game_history,
            *final(pos) == *old(pos),
            final(search_stack)@ == old(search_stack)@,
            old(self).aborted ==> final(self).aborted,
            final(intr).calm() == old(intr).calm(),
            final(intr).timeless() == old(intr).timeless(),
            old(intr).calm() && old(intr).timeless() && !old(self).aborted ==> !final(self).aborted,
            holds ==> final(self).children@.len() == 1 && final(self).children@[0].0 == Move(0)
                && final(self).children@[0].1 >= beta,
        decreases MAX_PLY - ply, 0int,
    {
        let ghost p = *pos;
        let current_hash = pos.hash;
        let undo = make_null_move(pos);
        let ghost q = *pos;
        proof {
            assert(q.king_sq@[q.side.opposite().idx()] == p.king_sq@[p.side.idx()]);
            assert forall|t: int, sq: int, by: Color|
                #[trigger] crate::moves::generator::attacker_at(q, t, sq, by)
                    == crate::moves::generator::attacker_at(p, t, sq, by) by {}
            assert(king_safe_after(q));
        }
        let r = 2 + depth / 4;
        let reduced = if depth > 1 + r {
            depth - 1 - r
        } else {
            0
        };
        search_stack.push(current_hash);
        let mut null_pv: Vec<Move> = Vec::new();
        let score = -self.negamax(
            pos,
            reduced,
            ply + 1,
            -beta,
            -beta + 1,
            &mut null_pv,
            intr,
            search_stack,
            false,
        );
        let _ = search_stack.pop();
        proof {
            assert(search_stack@ =~= old(search_stack)@);
        }
        unmake_null_move(pos, undo);
        proof {
            crate::moves::make_move::lemma_unmake_null_restores(p, q, *pos);
        }
        if self.stopped(intr) {
            return false;
        }
        self.children = Ghost(Seq::empty().push((Move(0), score)));
        score >= beta
    }

    /// Alpha-beta search of `depth` plies below the node at `ply`, with check
    /// extensions, transposition-table cutoffs, null-move pruning, principal
    /// variation search and late-move reductions, then quiescence at the leaves.
    /// The position, the search stack and the table's validity are kept; `pv`
    /// receives a line of legal moves.
    fn negamax<I: Interrupts>(
        &mut self,
        pos: &mut Position,
        depth: u32,
        ply: usize,
        alpha: i32,
        beta: i32,
        pv: &mut Vec<Move>,
        intr: &mut I,
        search_stack: &mut Vec<u64>,
        can_null: bool,
    ) -> (r: i32)
        requires
            old(self).wf(),
            node_ok(*old(pos), ply as int),
            ply > 0 ==> depth < u32::MAX,
            -MATE_SCORE <= alpha < beta <= MATE_SCORE,
            old(pv)@.len() == 0,
        ensures
            final(self).wf(),
            final(self).game_history == old(self).game_history,
            *final(pos) == *old(pos),
            final(search_stack)@ == old(search_stack)@,
            -SCORE_LIMIT <= r <= SCORE_LIMIT,
            ply == 0 ==> -MATE_SCORE <= r <= MATE_SCORE,
            legal_line(*old(pos), final(pv)@),
            // At the root, a side without legal moves scores a draw (stalemate)
            // or a mate against it (checkmate), unless the search was cut short.
            ply == 0 && depth > 0 && !has_legal_move(*old(pos)) ==> r == DRAW_SCORE || (r
                == -MATE_SCORE && checked(*old(pos))),
            old(self).aborted ==> final(self).aborted,
            final(intr).calm() == old(intr).calm(),
            final(intr).timeless() == old(intr).timeless(),
            old(intr).calm() && old(intr).timeless() && !old(self).aborted ==> !final(self).aborted,
            // A repetition below the root is a draw with contempt.
            repeated_below_root(old(search_stack)@, *old(pos), ply as int) ==> r == contempt_at(ply as int),
            // The fifty-move rule.
            !repeated_below_root(old(search_stack)@, *old(pos), ply as int) && old(pos).halfmove_clock >= 100
                ==> r == DRAW_SCORE,
            // Without legal moves, a searched node is mated or stalemated.
            searched_node(*old(self), *old(pos), old(search_stack)@, depth as int, ply as int, alpha, beta)
                && !has_legal_move(*old(pos)) && !final(self).aborted ==> (if checked(*old(pos)) {
                r == -(MATE_SCORE - ply)
            } else {
                r == DRAW_SCORE || (ply > 0 && beta - alpha <= 1 && r == beta)
            }),
            // A searched node with legal moves fails hard within the window, and
            // a score strictly inside it comes with a principal variation.
            searched_node(*old(self), *old(pos), old(search_stack)@, depth as int, ply as int, alpha, beta)
                && has_legal_move(*old(pos)) && !final(self).aborted ==> alpha <= r <= beta && (alpha < r
                < beta ==> final(pv)@.len() > 0),
            // The result is the fail-hard maximum of the scores of the moves
            // searched: a cutoff comes from a move (or the null move) scoring
            // at least beta; otherwise every legal move was searched, none beat
            // the result, and a result above alpha is the score of the move
            // that starts the variation.
            searched_node(*old(self), *old(pos), old(search_stack)@, depth as int, ply as int, alpha, beta)
                && has_legal_move(*old(pos)) && !final(self).aborted ==> searched_children(
                *old(pos),
                final(self).children@,
                alpha,
                beta,
                r,
                final(pv)@,
            ),
            // ... and the table records such a score as exact, with the first
            // move of the variation as the best move.
            searched_node(*old(self), *old(pos), old(search_stack)@, depth as int, ply as int, alpha, beta)
                && has_legal_move(*old(pos)) && !final(self).aborted && alpha < r < beta ==> table_records(
                final(self).tt@,
                final(self).tt.slot(old(pos).hash),
                *old(pos),
                extended_depth(*old(pos), depth as int, ply as int),
                r,
                final(pv)@[0],
                ply as int,
            ),
        decreases MAX_PLY - ply, 1int,
    {
        let ghost p = *pos;
        let current_hash = pos.hash;
        // A PV node has a full (non-null) window; zero-window searches don't.
        let is_pv = beta - alpha > 1;

        // Repetition: skipped at the root so a move is always returned.
        if ply > 0 {
            let reps = count_occurrences(search_stack, current_hash);
            proof {
                let ghost st = search_stack@;
                assert((|i: int| st[i] == current_hash) =~= (|i: int| search_stack@[i] == p.hash));
            }
            if reps >= 2 {
                proof {
                    assert(repeated_below_root(old(search_stack)@, p, ply as int));
                }
                return if ply % 2 == 0 {
                    CONTEMPT
                } else {
                    -CONTEMPT
                };
            }
        }
        // Fifty-move rule.
        if pos.halfmove_clock >= 100 {
            return DRAW_SCORE;
        }
        if ply >= MAX_PLY {
            return evaluate(pos);
        }
        // Check extension: in check, search one ply deeper and never drop into
        // quiescence (which cannot resolve checks).
        let in_check = MoveGen::in_check(pos);
        let ghost depth0 = depth as int;
        let mut depth = depth;
        if in_check && ply > 0 {
            depth = depth + 1;
        }
        if depth == 0 {
            proof {
                lemma_total_bound(p.board@);
            }
            return self.quiescence(pos, alpha, beta, intr);
        }
        let (tt_score, tt_move) = self.tt.probe(current_hash, depth, alpha, beta, ply);
        if let Some(score) = tt_score {
            // No cutoff at the root: a best move is needed there.
            if ply > 0 {
                return score;
            }
        }
        // Time check every 4096 nodes.
        if self.nodes & 0xFFF == 0 {
            if self.stopped(intr) {
                return 0;
            }
            if intr.time_up() {
                set_stop(&self.stop, true);
                self.aborted = true;
                return 0;
            }
        }
        self.count_node();

        if !is_pv && can_null && !in_check && depth >= 3 && ply > 0 && -(MATE_SCORE - 1000) < beta
            && beta < MATE_SCORE - 1000 && has_non_pawn_material(pos, pos.side) {
            if self.null_move_holds(pos, depth, ply, beta, intr, search_stack) {
                proof {
                    assert(searched_children(p, self.children@, alpha, beta, beta, pv@));
                }
                return beta;
            }
            if self.stopped(intr) {
                return 0;
            }
        }

        let mut moves = MoveGen::generate(pos);
        let ghost generated = moves@;
        self.order_moves(pos, &mut moves, ply, tt_move);
        proof {
            assert forall|x: int| 0 <= x < moves@.len() implies pseudo_legal(p, #[trigger] moves@[x]) by {
                assert(generated.contains(moves@[x]));
                let j = choose|j: int| 0 <= j < generated.len() && generated[j] == moves@[x];
                assert(pseudo_legal(p, generated[j]));
            }
            assert forall|m: Move| pseudo_legal(p, m) implies #[trigger] moves@.contains(m) by {
                assert(generated.contains(m));
                let j = choose|j: int| 0 <= j < generated.len() && generated[j] == m;
                assert(moves@.contains(generated[j]));
            }
        }
        let mut a = alpha;
        let mut legal: usize = 0;
        let mut best_pv: Vec<Move> = Vec::new();
        let mut best_move = Move(0);
        let ghost mut trace: Seq<(Move, i32)> = Seq::empty();
        let mut i: usize = 0;
        while i < moves.len()
            invariant
                i <= moves@.len(),
                legal <= i,
                forall|k: int| 0 <= k < trace.len() ==> legal_move(p, (#[trigger] trace[k]).0) && trace[k].1 <= a,
                forall|x: int|
                    0 <= x < i && legal_move(p, #[trigger] moves@[x]) ==> exists|k: int|
                        0 <= k < trace.len() && (#[trigger] trace[k]).0 == moves@[x],
                a > alpha ==> exists|k: int| 0 <= k < trace.len() && (#[trigger] trace[k]).1 == a && trace[k].0 == best_move,
                self.game_history == old(self).game_history,
                *pos == p,
                p == *old(pos),
                self.wf(),
                search_stack@ == old(search_stack)@,
                node_ok(p, ply as int),
                p.halfmove_clock < 100,
                ply < MAX_PLY,
                1 <= depth,
                depth == extended_depth(p, depth0, ply as int),
                -MATE_SCORE <= alpha <= a < beta <= MATE_SCORE,
                legal_line(p, best_pv@),
                pv@.len() == 0,
                !has_legal_move(p) ==> legal == 0,
                old(self).aborted ==> self.aborted,
                intr.calm() == old(intr).calm(),
                intr.timeless() == old(intr).timeless(),
                old(intr).calm() && old(intr).timeless() && !old(self).aborted ==> !self.aborted,
                !repeated_below_root(old(search_stack)@, p, ply as int),
                forall|x: int| 0 <= x < moves@.len() ==> pseudo_legal(p, #[trigger] moves@[x]),
                forall|m: Move| pseudo_legal(p, m) ==> #[trigger] moves@.contains(m),
                legal == 0 ==> forall|k: int| 0 <= k < i ==> !legal_move(p, #[trigger] moves@[k]),
                a > alpha ==> best_pv@.len() > 0 && best_pv@[0] == best_move,
            decreases moves@.len() - i,
        {
            let mv = moves[i];
            match make_if_legal(pos, mv) {
                None => {},
                Some(undo) => {
                    let ghost q = *pos;
                    assert(has_legal_move(p));
                    legal = legal + 1;
                    search_stack.push(current_hash);
                    let mut child_pv: Vec<Move> = Vec::new();
                    let new_depth = depth - 1;
                    // Late move reduction for quiet moves ordered late.
                    let mut reduction: u32 = 0;
                    if legal > 1 && depth >= 3 && legal > 3 && !mv.is_capture() && !mv.is_promotion()
                        && !in_check {
                        reduction = 1;
                        if legal > 6 {
                            reduction = reduction + 1;
                        }
                        if !is_pv {
                            reduction = reduction + 1;
                        }
                        if reduction > new_depth {
                            reduction = new_depth;
                        }
                    }
                    let score = self.search_child(
                        pos,
                        new_depth,
                        ply,
                        a,
                        beta,
                        legal == 1,
                        reduction,
                        &mut child_pv,
                        intr,
                        search_stack,
                    );
                    let _ = search_stack.pop();
                    proof {
                        assert(search_stack@ =~= old(search_stack)@);
                    }
                    take_back(pos, mv, undo, Ghost(p));
                    if self.stopped(intr) {
                        return 0;
                    }
                    let ghost before_trace = trace;
                    proof {
                        trace = trace.push((mv, score));
                        assert forall|x: int|
                            0 <= x < i + 1 && legal_move(p, #[trigger] moves@[x]) implies exists|k: int|
                                0 <= k < trace.len() && (#[trigger] trace[k]).0 == moves@[x] by {
                            if x < i {
                                let k = choose|k: int| 0 <= k < before_trace.len() && (#[trigger] before_trace[k]).0 == moves@[x];
                                assert(trace[k] == before_trace[k]);
                            } else {
                                assert(trace[trace.len() - 1].0 == moves@[x]);
                            }
                        }
                        if a > alpha {
                            let k = choose|k: int| 0 <= k < before_trace.len() && (#[trigger] before_trace[k]).1 == a && before_trace[k].0 == best_move;
                            assert(trace[k] == before_trace[k]);
                        }
                    }
                    if score >= beta {
                        self.note_cutoff(mv, depth, ply);
                        self.tt.store(current_hash, depth, beta, TtFlag::Lower, mv, ply);
                        self.children = Ghost(trace);
                        proof {
                            assert forall|k: int| 0 <= k < trace.len() - 1 implies (#[trigger] trace[k]).1 < beta by {
                                assert(trace[k] == before_trace[k]);
                            }
                            assert(searched_children(p, self.children@, alpha, beta, beta, pv@));
                        }
                        return beta;
                    }
                    if score > a {
                        a = score;
                        best_move = mv;
                        proof {
                            assert(trace[trace.len() - 1].1 == a && trace[trace.len() - 1].0 == best_move);
                        }
                        let ghost child = child_pv@;
                        let mut line: Vec<Move> = Vec::new();
                        line.push(mv);
                        line.append(&mut child_pv);
                        proof {
                            assert(line@[0] == mv);
                            assert(line@.drop_first() =~= child);
                            assert forall|q2: Position| #[trigger] made(p, line@[0], q2) implies legal_line(
                                q2,
                                line@.drop_first(),
                            ) by {
                                lemma_made_unique(p, mv, q, q2);
                            }
                        }
                        best_pv = line;
                    }
                },
            }
            i += 1;
        }
        proof {
            if legal == 0 && has_legal_move(p) {
                let m = choose|m: Move| legal_move(p, m);
                assert(moves@.contains(m));
                let k = choose|k: int| 0 <= k < moves@.len() && moves@[k] == m;
                assert(!legal_move(p, moves@[k]));
            }
        }
        if legal == 0 {
            return if in_check {
                -(MATE_SCORE - ply as i32)
            } else {
                DRAW_SCORE
            };
        }
        let flag = if a > alpha {
            TtFlag::Exact
        } else {
            TtFlag::Upper
        };
        let ghost before = self.tt;
        self.tt.store(current_hash, depth, a, flag, best_move, ply);
        self.children = Ghost(trace);
        proof {
            assert forall|m: Move| legal_move(p, m) implies exists|k: int|
                0 <= k < trace.len() && (#[trigger] trace[k]).0 == m by {
                assert(moves@.contains(m));
                let x = choose|x: int| 0 <= x < moves@.len() && moves@[x] == m;
                assert(legal_move(p, moves@[x]));
            }
        }
        proof {
            before.lemma_slot_in_range(current_hash);
            assert(self.tt.slot(p.hash) == before.slot(p.hash));
        }
        *pv = best_pv;
        a
    }
}


/// Milliseconds to search out of a budget of `ms`: 5% is held back as a safety
/// margin, at least 10 and at most 60 ms, and never more than the budget.
pub open spec fn search_time(ms: int) -> int {
    let m = ms / 20;
    let safety = if m < 10 { 10 } else if m > 60 { 60 } else { m };
    ms - (if safety < ms { safety } else { ms })
}

fn time_budget(ms: u64) -> (t: u64)
    ensures
        t == search_time(ms as int),
{
    let m = ms / 20;
    let clamped = if m < 10 {
        10
    } else if m > 60 {
        60
    } else {
        m
    };
    let safety = if clamped < ms {
        clamped
    } else {
        ms
    };
    ms - safety
}

impl Engine {
    /// Iterative deepening from depth 1 to `max_depth` (or until the time
    /// budget or a stop request ends it), with aspiration windows from depth 5.
    /// Returns a legal move whenever the side to move has one, and the null move
    /// otherwise; the principal variation is a line of legal moves.
    pub fn search(&mut self, pos: &mut Position, max_depth: u32, time_ms: Option<u64>) -> (res: SearchResult)
        requires
            old(self).wf(),
            legal_position(*old(pos)),
            old(pos).halfmove_clock < u32::MAX,
            old(pos).fullmove + MAX_PLY + 64 < u32::MAX,
        ensures
            final(self).wf(),
            *final(pos) == *old(pos),
            final(self).game_hashes() == old(self).game_hashes(),
            res.depth == max_depth,
            -MATE_SCORE <= res.score <= MATE_SCORE,
            has_legal_move(*old(pos)) ==> legal_move(*old(pos), res.best_move),
            !has_legal_move(*old(pos)) ==> res.best_move == Move(0),
            !has_legal_move(*old(pos)) ==> res.score == DRAW_SCORE || res.score == -MATE_SCORE,
            legal_line(*old(pos), res.pv@),
            res.pv@.len() > 0 ==> res.pv@[0] == res.best_move,
            // Searched to the end without a stop, a score short of mate is the
            // largest score of the root moves of the last iteration, all of them
            // searched, and the move returned is one that scored it.
            !final(self).aborted() && time_ms is None && max_depth >= 1 && has_legal_move(*old(pos))
                && old(pos).halfmove_clock < 100 && -MATE_SCORE < res.score < MATE_SCORE ==> searched_children(
                *old(pos),
                final(self).root_moves(),
                (-MATE_SCORE) as i32,
                MATE_SCORE,
                res.score,
                res.pv@,
            ),
            // Searched to the end without a stop, a score short of mate comes
            // from the last iteration's principal variation, whose first move is
            // the one returned.
            !final(self).aborted() && time_ms is None && max_depth >= 1 && has_legal_move(*old(pos))
                && old(pos).halfmove_clock < 100 && -MATE_SCORE < res.score < MATE_SCORE ==> res.pv@.len()
                > 0 && res.pv@[0] == res.best_move,
            // ... and the table's entry for the position records that score as
            // exact, with the move returned, at the full depth.
            !final(self).aborted() && time_ms is None && max_depth >= 1 && has_legal_move(*old(pos))
                && old(pos).halfmove_clock < 100 && -MATE_SCORE < res.score < MATE_SCORE ==> table_records(
                final(self).table(),
                final(self).table_slot(old(pos).hash),
                *old(pos),
                max_depth as int,
                res.score,
                res.best_move,
                0,
            ),
            // Searched to the end without a stop: a side without legal moves is
            // mated (in check) or stalemated.
            !final(self).aborted() && time_ms is None && max_depth >= 1 && !has_legal_move(*old(pos))
                && old(pos).halfmove_clock < 100 ==> res.score == (if checked(*old(pos)) {
                -MATE_SCORE as int
            } else {
                DRAW_SCORE as int
            }),
    {
        // Keep a safety margin so the move is always returned before the deadline.
        let deadline: Option<Instant> = match time_ms {
            Some(ms) => {
                let start = clock_now();
                instant_after(start, millis(time_budget(ms)))
            },
            None => None,
        };
        let mut clock = Clocked::new(deadline);
        self.search_with(pos, max_depth, &mut clock)
    }

    /// The iterative deepening of `search`, told of stop requests and the clock
    /// by `intr`. With a source that reports neither, every iteration runs and
    /// the result is the last one's: its root score, and the first move of its
    /// principal variation, a move whose search gave that score.
    pub fn search_with<I: Interrupts>(&mut self, pos: &mut Position, max_depth: u32, intr: &mut I) -> (res: SearchResult)
        requires
            old(self).wf(),
            legal_position(*old(pos)),
            old(pos).halfmove_clock < u32::MAX,
            old(pos).fullmove + MAX_PLY + 64 < u32::MAX,
        ensures
            final(self).wf(),
            *final(pos) == *old(pos),
            final(self).game_hashes() == old(self).game_hashes(),
            res.depth == max_depth,
            -MATE_SCORE <= res.score <= MATE_SCORE,
            has_legal_move(*old(pos)) ==> legal_move(*old(pos), res.best_move),
            !has_legal_move(*old(pos)) ==> res.best_move == Move(0),
            !has_legal_move(*old(pos)) ==> res.score == DRAW_SCORE || res.score == -MATE_SCORE,
            legal_line(*old(pos), res.pv@),
            res.pv@.len() > 0 ==> res.pv@[0] == res.best_move,
            final(intr).calm() == old(intr).calm(),
            final(intr).timeless() == old(intr).timeless(),
            // Told of no stop and no clock, the search is never cut short.
            old(intr).calm() && old(intr).timeless() ==> !final(self).aborted(),
            // Searched to the end without a stop, a score short of mate is the
            // largest score of the root moves of the last iteration, all of them
            // searched, and the move returned is one that scored it.
            !final(self).aborted() && old(intr).timeless() && max_depth >= 1 && has_legal_move(*old(pos))
                && old(pos).halfmove_clock < 100 && -MATE_SCORE < res.score < MATE_SCORE ==> searched_children(
                *old(pos),
                final(self).root_moves(),
                (-MATE_SCORE) as i32,
                MATE_SCORE,
                res.score,
                res.pv@,
            ),
            // Searched to the end without a stop, a score short of mate comes
            // from the last iteration's principal variation, whose first move is
            // the one returned.
            !final(self).aborted() && old(intr).timeless() && max_depth >= 1 && has_legal_move(*old(pos))
                && old(pos).halfmove_clock < 100 && -MATE_SCORE < res.score < MATE_SCORE ==> res.pv@.len()
                > 0 && res.pv@[0] == res.best_move,
            // ... and the table's entry for the position records that score as
            // exact, with the move returned, at the full depth.
            !final(self).aborted() && old(intr).timeless() && max_depth >= 1 && has_legal_move(*old(pos))
                && old(pos).halfmove_clock < 100 && -MATE_SCORE < res.score < MATE_SCORE ==> table_records(
                final(self).table(),
                final(self).table_slot(old(pos).hash),
                *old(pos),
                max_depth as int,
                res.score,
                res.best_move,
                0,
            ),
            // Searched to the end without a stop: a side without legal moves is
            // mated (in check) or stalemated.
            !final(self).aborted() && old(intr).timeless() && max_depth >= 1 && !has_legal_move(*old(pos))
                && old(pos).halfmove_clock < 100 ==> res.score == (if checked(*old(pos)) {
                -MATE_SCORE as int
            } else {
                DRAW_SCORE as int
            }),
    {
        let ghost p = *pos;
        let ghost expected: int = if checked(p) {
            -MATE_SCORE as int
        } else {
            DRAW_SCORE as int
        };
        let ghost mut done_one = false;
        let ghost mut rec_depth: int = 0;
        set_stop(&self.stop, false);
        self.aborted = false;
        self.nodes = 0;
        self.killers = [Move(0); 128];
        self.history = [0; 4096];


        let mut best = Move(0);
        let mut best_score: i32 = -MATE_SCORE;
        let mut pv: Vec<Move> = Vec::new();
        let mut search_stack = self.game_history.clone();
        let ghost hashes = self.game_history@;

        let mut depth: u32 = 1;
        while depth <= max_depth
            invariant_except_break
                !self.aborted && done_one ==> rec_depth == depth - 1,
            invariant
                max_depth >= 1 ==> depth <= max_depth,
                *pos == p,
                p == *old(pos),
                self.wf(),
                self.game_history@ == hashes,
                hashes == old(self).game_history@,
                node_ok(p, 0),
                1 <= depth,
                -MATE_SCORE <= best_score <= MATE_SCORE,
                legal_line(p, pv@),
                best == Move(0) || legal_move(p, best),
                pv@.len() > 0 ==> pv@[0] == best,
                intr.calm() == old(intr).calm(),
                intr.timeless() == old(intr).timeless(),
                old(intr).calm() && old(intr).timeless() ==> !self.aborted,
                !self.aborted && done_one && has_legal_move(p) && p.halfmove_clock < 100 && -MATE_SCORE
                    < best_score < MATE_SCORE ==> searched_children(
                    p,
                    self.children@,
                    (-MATE_SCORE) as i32,
                    MATE_SCORE,
                    best_score,
                    pv@,
                ),
                expected == (if checked(p) { -MATE_SCORE as int } else { DRAW_SCORE as int }),
                depth > 1 ==> done_one,
                !self.aborted && done_one && !has_legal_move(p) && p.halfmove_clock < 100 ==> best_score
                    == expected,
                !self.aborted && done_one && has_legal_move(p) && p.halfmove_clock < 100 && -MATE_SCORE
                    < best_score < MATE_SCORE ==> pv@.len() > 0,
                !self.aborted && done_one && has_legal_move(p) && p.halfmove_clock < 100 && -MATE_SCORE
                    < best_score < MATE_SCORE ==> table_records(
                    self.tt@,
                    self.tt.slot(p.hash),
                    p,
                    rec_depth,
                    best_score,
                    best,
                    0,
                ),
                !has_legal_move(p) ==> best_score == DRAW_SCORE || best_score == -MATE_SCORE,
        ensures
            old(intr).timeless() && max_depth >= 1 ==> self.aborted || done_one,
            old(intr).timeless() && max_depth >= 1 && !self.aborted ==> rec_depth == max_depth,
            decreases max_depth - depth,
        {
            if self.stopped(intr) {
                break;
            }
            if intr.time_up() {
                break;
            }
            let mut current_pv: Vec<Move> = Vec::new();
            let mut score: i32 = best_score;
            if depth <= 4 {
                // Shallow depths are cheap: search the full window.
                proof {
                    assert(!repeated_below_root(search_stack@, p, 0));
                    assert(p.halfmove_clock < 100 ==> searched_node(*self, p, search_stack@, depth as int, 0, (-MATE_SCORE) as i32, MATE_SCORE));
                }
                score = self.negamax(
                    pos,
                    depth,
                    0,
                    -MATE_SCORE,
                    MATE_SCORE,
                    &mut current_pv,
                    intr,
                    &mut search_stack,
                    true,
                );
                proof {
                    if !self.aborted && !has_legal_move(p) && p.halfmove_clock < 100 {
                        assert(checked(p) ==> score == -MATE_SCORE);
                        assert(!checked(p) ==> score == DRAW_SCORE);
                    }
                }
            } else {
                // Aspiration window around the previous score, widened on a
                // fail-high or fail-low; once it spans everything, any score is
                // accepted, so the loop ends.
                let mut delta: i32 = 30;
                let mut alpha = if best_score - delta > -MATE_SCORE {
                    best_score - delta
                } else {
                    -MATE_SCORE
                };
                let mut beta = if best_score + delta < MATE_SCORE {
                    best_score + delta
                } else {
                    MATE_SCORE
                };
                loop
                    invariant
                        *pos == p,
                        self.wf(),
                        self.game_history@ == hashes,
                        node_ok(p, 0),
                        1 <= depth,
                        -MATE_SCORE <= alpha < beta <= MATE_SCORE,
                        30 <= delta <= 2000,
                        -MATE_SCORE <= score <= MATE_SCORE,
                        !has_legal_move(p) ==> score == DRAW_SCORE || score == -MATE_SCORE,
                        !self.aborted && !has_legal_move(p) && p.halfmove_clock < 100 ==> score == expected,
                        expected == (if checked(p) { -MATE_SCORE as int } else { DRAW_SCORE as int }),
                        depth > 1 ==> done_one,
                        legal_line(p, current_pv@),
                        intr.calm() == old(intr).calm(),
                        intr.timeless() == old(intr).timeless(),
                        old(intr).calm() && old(intr).timeless() ==> !self.aborted,
                    ensures
                        !self.aborted && has_legal_move(p) && p.halfmove_clock < 100 && -MATE_SCORE < score
                            < MATE_SCORE ==> current_pv@.len() > 0 && searched_children(
                            p,
                            self.children@,
                            (-MATE_SCORE) as i32,
                            MATE_SCORE,
                            score,
                            current_pv@,
                        ) && table_records(
                            self.tt@,
                            self.tt.slot(p.hash),
                            p,
                            depth as int,
                            score,
                            current_pv@[0],
                            0,
                        ),
                    decreases (if alpha == -MATE_SCORE && beta == MATE_SCORE { 0 } else { 4001 - delta }),
                {
                    current_pv.clear();
                    let s = self.negamax(
                        pos,
                        depth,
                        0,
                        alpha,
                        beta,
                        &mut current_pv,
                        intr,
                        &mut search_stack,
                        true,
                    );
                    if self.stopped(intr) {
                        score = s;
                        break;
                    }
                    if s <= alpha && alpha > -MATE_SCORE {
                        // Fail low: relax alpha, pull beta toward it.
                        beta = (alpha + beta) / 2;
                        alpha = if s - delta > -MATE_SCORE {
                            s - delta
                        } else {
                            -MATE_SCORE
                        };
                    } else if s >= beta && beta < MATE_SCORE {
                        // Fail high: relax beta.
                        beta = if s + delta < MATE_SCORE {
                            s + delta
                        } else {
                            MATE_SCORE
                        };
                    } else {
                        score = s;
                        break;
                    }
                    delta = delta * 2;
                    if delta > 2000 {
                        alpha = -MATE_SCORE;
                        beta = MATE_SCORE;
                        delta = 2000;
                    }
                }
            }
            if !self.stopped(intr) || depth == 1 {
                best_score = score;
                proof {
                    done_one = true;
                    rec_depth = depth as int;
                }
                if current_pv.len() > 0 {
                    best = current_pv[0];
                    pv = current_pv;
                }
            }
            if depth == max_depth {
                break;
            }
            depth = depth + 1;
        }

        proof {
            if pv@.len() > 0 {
                crate::moves::generator::lemma_pseudo_legal_moves(p, pv@[0]);
            }
        }
        // Fallback: if no iteration produced a move (stopped before the first
        // one finished), take the first legal move so a move is always returned.
        if best.is_null() {
            let moves = MoveGen::generate(pos);
            let mut i: usize = 0;
            while i < moves.len()
                invariant_except_break
                    best == Move(0),
                invariant
                    i <= moves@.len(),
                    *pos == p,
                    pv@.len() == 0,
                    node_ok(p, 0),
                    forall|x: int| 0 <= x < moves@.len() ==> pseudo_legal(p, #[trigger] moves@[x]),
                    forall|k: int| 0 <= k < i ==> !legal_move(p, #[trigger] moves@[k]),
                ensures
                    *pos == p,
                    pv@.len() == 0,
                    (best == Move(0) && forall|k: int| 0 <= k < moves@.len() ==> !legal_move(p, #[trigger] moves@[k]))
                        || legal_move(p, best),
                decreases moves@.len() - i,
            {
                let mv = moves[i];
                match make_if_legal(pos, mv) {
                    None => {},
                    Some(undo) => {
                        take_back(pos, mv, undo, Ghost(p));
                        best = mv;
                        break;
                    },
                }
                i += 1;
            }
            proof {
                if best == Move(0) && has_legal_move(p) && !legal_move(p, best) {
                    let m = choose|m: Move| legal_move(p, m);
                    assert(moves@.contains(m));
                    let k = choose|k: int| 0 <= k < moves@.len() && moves@[k] == m;
                    assert(!legal_move(p, moves@[k]));
                }
            }
        }
        proof {
            if !has_legal_move(p) && best != Move(0) {
                assert(legal_move(p, best));
            }
        }
        SearchResult { best_move: best, score: best_score, depth: max_depth, nodes: self.nodes, pv }
    }
}


/// Whether `Engine::search` may be given the position: well formed, the side
/// not to move not left in check, and room on the move counters.
pub fn search_ready(pos: &Position) -> (r: bool)
    ensures
        r == (legal_position(*pos) && pos.halfmove_clock < u32::MAX && pos.fullmove + MAX_PLY + 64
            < u32::MAX),
{
    if !pos.is_valid() {
        return false;
    }
    let us = pos.side.index();
    let them = 1 - us;
    proof {
        assert(pos.king_sq@[them as int] < 64);
        assert(color_of_index(us as int) == pos.side);
    }
    if MoveGen::is_attacked(pos, pos.king_sq[them], us) {
        return false;
    }
    pos.halfmove_clock < u32::MAX && pos.fullmove < u32::MAX - 192
}

} // verus!
