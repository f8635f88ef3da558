use vstd::prelude::*;

use crate::board::position::Move;

verus! {

/// Deepest ply the search goes to.
pub const MAX_PLY: usize = 128;

/// Largest score magnitude the search passes to `store`.
pub const STORE_LIMIT: i32 = 100_000;

#[derive(Clone, Copy, PartialEq, Eq, Structural, Debug)]
pub enum TtFlag {
    /// The score is exact.
    Exact,
    /// The score is a lower bound (beta cutoff node).
    Lower,
    /// The score is an upper bound (all-node, failed low).
    Upper,
}

#[derive(Clone, Copy)]
pub struct TtEntry {
    /// Upper 32 bits of the Zobrist hash, for collision detection.
    pub key: u32,
    pub score: i32,
    pub best_move: Move,
    pub depth: u8,
    pub flag: TtFlag,
}

pub open spec fn empty_entry() -> TtEntry {
    TtEntry { key: 0, score: 0, best_move: Move(0), depth: 0, flag: TtFlag::Exact }
}

pub open spec fn is_pow2(n: int) -> bool
    decreases n,
{
    if n <= 0 {
        false
    } else if n == 1 {
        true
    } else {
        n % 2 == 0 && is_pow2(n / 2)
    }
}

/// The key stored for a hash: its upper 32 bits.
pub open spec fn key_of(hash: u64) -> u32 {
    (hash >> 32u64) as u32
}

/// Mate scores are stored relative to the node, so they stay right when found
/// again at another ply.
pub open spec fn to_tt(score: int, ply: int) -> int {
    if score > 90_000 {
        score + ply
    } else if score < -90_000 {
        score - ply
    } else {
        score
    }
}

pub open spec fn from_tt(score: int, ply: int) -> int {
    if score > 90_000 {
        score - ply
    } else if score < -90_000 {
        score + ply
    } else {
        score
    }
}

/// What a probe of entry `e` answers for `hash` at the given depth, window and ply.
pub open spec fn probe_answer(e: TtEntry, hash: u64, depth: u32, alpha: i32, beta: i32, ply: int) -> (
    Option<i32>,
    Move,
) {
    if e.key != key_of(hash) {
        (None, Move(0))
    } else if (e.depth as u32) < depth {
        (None, e.best_move)
    } else {
        let s = from_tt(e.score as int, ply);
        let cutoff = match e.flag {
            TtFlag::Exact => true,
            TtFlag::Lower => s >= beta,
            TtFlag::Upper => s <= alpha,
        };
        (
            if cutoff {
                Some(s as i32)
            } else {
                None
            },
            e.best_move,
        )
    }
}

/// The entry `store` writes.
pub open spec fn stored_entry(hash: u64, depth: u32, score: i32, flag: TtFlag, best_move: Move, ply: int) -> TtEntry {
    TtEntry {
        key: key_of(hash),
        score: to_tt(score as int, ply) as i32,
        best_move,
        depth: if depth > 255 { 255u8 } else { depth as u8 },
        flag,
    }
}

pub struct TranspositionTable {
    entries: Vec<TtEntry>,
    mask: usize,
}

impl TranspositionTable {
    pub closed spec fn view(&self) -> Seq<TtEntry> {
        self.entries@
    }

    /// Slot of a hash: its low bits.
    pub closed spec fn slot(&self, hash: u64) -> int {
        (hash as usize & self.mask) as int
    }

    /// The table size is a power of two and the mask selects a slot.
    pub closed spec fn wf(&self) -> bool {
        &&& self.entries@.len() == self.mask + 1
        &&& is_pow2(self.mask + 1)
    }

    /// Every stored score is within what the search stores: a score of at most
    /// `STORE_LIMIT` in magnitude, shifted by at most `MAX_PLY`.
    pub open spec fn scores_bounded(&self) -> bool {
        forall|i: int|
            0 <= i < self@.len() ==> -(STORE_LIMIT + MAX_PLY as int) <= #[trigger] self@[i].score
                <= STORE_LIMIT + MAX_PLY as int
    }
}

/// A score `store` accepts at `ply`: converting it to its stored form does not
/// overflow.
pub open spec fn storable(score: int, ply: int) -> bool {
    &&& 0 <= ply <= i32::MAX
    &&& i32::MIN <= to_tt(score, ply) <= i32::MAX
}

/// The table after a `store` into `slot`: an entry for the same position
/// searched deeper is kept, anything else is replaced.
pub open spec fn store_result(
    v: Seq<TtEntry>,
    slot: int,
    hash: u64,
    depth: u32,
    score: i32,
    flag: TtFlag,
    best_move: Move,
    ply: int,
) -> Seq<TtEntry> {
    let e = v[slot];
    if e.key == key_of(hash) && (e.depth as u32) > depth {
        v
    } else {
        v.update(slot, stored_entry(hash, depth, score, flag, best_move, ply))
    }
}

/// The score a probe at `ply2` reads back for `score` stored at `ply`: mate
/// scores move by the difference of the plies, others are unchanged.
pub open spec fn read_back(score: int, ply: int, ply2: int) -> int {
    if score > 90_000 {
        score + ply - ply2
    } else if score < -90_000 {
        score - ply + ply2
    } else {
        score
    }
}

/// Whether an entry with `flag` and score `s` settles a node with window
/// `(alpha, beta)`.
pub open spec fn settles(flag: TtFlag, s: int, alpha: i32, beta: i32) -> bool {
    match flag {
        TtFlag::Exact => true,
        TtFlag::Lower => s >= beta,
        TtFlag::Upper => s <= alpha,
    }
}

/// Smallest power of two that is at least `n` (1 for 0).
pub open spec fn next_pow2(n: int) -> int
    decreases n,
{
    if n <= 1 {
        1
    } else {
        2 * next_pow2((n + 1) / 2)
    }
}

/// Number of slots a table of `size_mb` megabytes gets, for entries of
/// `entry_size` bytes: the largest power of two whose entries fit (at least one).
pub open spec fn slot_count(size_mb: int, entry_size: int) -> int {
    let fit = if entry_size == 0 {
        0
    } else {
        (size_mb * 1024 * 1024) / entry_size
    };
    let c = if next_pow2(fit) == fit {
        fit
    } else {
        next_pow2(fit) / 2
    };
    if c < 1 {
        1
    } else {
        c
    }
}

proof fn lemma_next_pow2(n: int)
    requires
        n >= 0,
    ensures
        is_pow2(next_pow2(n)),
        next_pow2(n) >= n,
        next_pow2(n) >= 1,
        n >= 1 ==> next_pow2(n) < 2 * n,
    decreases n,
{
    if n > 1 {
        lemma_next_pow2((n + 1) / 2);
        assert(next_pow2(n) / 2 == next_pow2((n + 1) / 2));
    }
}

proof fn lemma_shr1(x: usize)
    by (bit_vector)
    ensures
        x >> 1usize == x / 2,
{
}

proof fn lemma_half_pow2(n: int)
    requires
        is_pow2(n),
        n >= 2,
    ensures
        is_pow2(n / 2),
{
}

/// Computes `next_pow2(n)` for `n` up to `usize::MAX / 2`.
fn next_power_of_two(n: usize) -> (r: usize)
    requires
        n <= usize::MAX / 2,
    ensures
        r == next_pow2(n as int),
    decreases n,
{
    if n <= 1 {
        return 1;
    }
    proof {
        lemma_next_pow2(n as int);
    }
    2 * next_power_of_two((n + 1) / 2)
}

impl TranspositionTable {
    pub fn new(size_mb: usize) -> (tt: Self)
        requires
            size_mb <= usize::MAX / 2097152,
        ensures
            tt.wf(),
            tt.scores_bounded(),
            tt@.len() == slot_count(size_mb as int, vstd::layout::size_of::<TtEntry>() as int),
            forall|i: int| 0 <= i < tt@.len() ==> #[trigger] tt@[i] == empty_entry(),
    {
        let sz = std::mem::size_of::<TtEntry>();
        let fit = if sz == 0 {
            0
        } else {
            (size_mb * 1024 * 1024) / sz
        };
        proof {
            lemma_next_pow2(fit as int);
        }
        let np = next_power_of_two(fit);
        let mut count = if np == fit { np } else { np >> 1 };
        proof {
            lemma_shr1(np);
        }
        if count < 1 {
            count = 1;
        }
        proof {
            if next_pow2(fit as int) >= 2 {
                lemma_half_pow2(next_pow2(fit as int));
            }
        }
        let mut entries: Vec<TtEntry> = Vec::new();
        let mut i: usize = 0;
        while i < count
            invariant
                i <= count,
                entries@.len() == i,
                forall|j: int| 0 <= j < i ==> #[trigger] entries@[j] == empty_entry(),
            decreases count - i,
        {
            entries.push(TtEntry { key: 0, score: 0, best_move: Move(0), depth: 0, flag: TtFlag::Exact });
            i = i + 1;
        }
        let tt = Self { entries, mask: count - 1 };
        proof {
            assert(is_pow2(count as int));
            assert(tt@ == entries@);
        }
        tt
    }
}

impl TranspositionTable {
    /// Every hash has its slot in the table.
    pub proof fn lemma_slot_in_range(&self, hash: u64)
        requires
            self.wf(),
        ensures
            0 <= self.slot(hash) < self@.len(),
    {
        lemma_and_le(hash as usize, self.mask);
    }

    /// Probing a hash right after `store` wrote an entry for it reads that
    /// entry back: its move always, and its score, moved to the probing ply,
    /// when it was searched at least as deep as asked and its flag settles the
    /// window.
    pub proof fn lemma_store_then_probe(
        before: Self,
        after: Self,
        hash: u64,
        depth: u32,
        score: i32,
        flag: TtFlag,
        best_move: Move,
        ply: int,
        probe_depth: u32,
        alpha: i32,
        beta: i32,
        ply2: int,
    )
        requires
            before.wf(),
            forall|h: u64| #[trigger] after.slot(h) == before.slot(h),
            after@ == store_result(before@, before.slot(hash), hash, depth, score, flag, best_move, ply),
            !(before@[before.slot(hash)].key == key_of(hash) && (before@[before.slot(hash)].depth as u32)
                > depth),
            storable(score as int, ply),
            0 <= ply2 <= i32::MAX,
        ensures
            ({
                let s2 = read_back(score as int, ply, ply2);
                let stored_depth: u32 = if depth > 255 { 255 } else { depth };
                probe_answer(after@[after.slot(hash)], hash, probe_depth, alpha, beta, ply2) == (
                    if probe_depth <= stored_depth && settles(flag, s2, alpha, beta) {
                        Some(s2 as i32)
                    } else {
                        None
                    },
                    best_move,
                )
            }),
    {
        before.lemma_slot_in_range(hash);
        lemma_read_after_write(hash, depth, score, flag, best_move, ply, probe_depth, alpha, beta, ply2);
    }

    pub fn clear(&mut self)
        requires
            old(self).wf(),
        ensures
            final(self).wf(),
            final(self).scores_bounded(),
            final(self)@.len() == old(self)@.len(),
            forall|h: u64| #[trigger] final(self).slot(h) == old(self).slot(h),
            forall|i: int| 0 <= i < final(self)@.len() ==> #[trigger] final(self)@[i] == empty_entry(),
    {
        let n = self.entries.len();
        let mut i: usize = 0;
        while i < n
            invariant
                n == self.entries@.len(),
                self.mask == old(self).mask,
                self.entries@.len() == old(self).entries@.len(),
                i <= n,
                old(self).wf(),
                forall|j: int| 0 <= j < i ==> #[trigger] self.entries@[j] == empty_entry(),
                forall|j: int|
                    i <= j < n ==> #[trigger] self.entries@[j] == old(self).entries@[j],
            decreases n - i,
        {
            self.entries.set(i, TtEntry { key: 0, score: 0, best_move: Move(0), depth: 0, flag: TtFlag::Exact });
            i = i + 1;
        }
    }

    fn index_of(&self, hash: u64) -> (i: usize)
        requires
            self.wf(),
        ensures
            i == self.slot(hash),
            i < self@.len(),
    {
        let i = hash as usize & self.mask;
        proof {
            lemma_and_le(hash as usize, self.mask);
        }
        i
    }

    /// Returns `(cutoff_score, tt_move)`. `cutoff_score` is `Some` when the stored
    /// result is deep enough and its flag allows a cutoff at the current window;
    /// `tt_move` is the best move recorded (may be null).
    pub fn probe(&self, hash: u64, depth: u32, alpha: i32, beta: i32, ply: usize) -> (r: (Option<i32>, Move))
        requires
            self.wf(),
            ply <= i32::MAX,
        ensures
            r == probe_answer(self@[self.slot(hash)], hash, depth, alpha, beta, ply as int),
            self.scores_bounded() && ply <= MAX_PLY ==> (r.0 matches Some(s) ==> -(STORE_LIMIT + 2
                * MAX_PLY as int) <= s <= STORE_LIMIT + 2 * MAX_PLY as int),
    {
        let i = self.index_of(hash);
        let e = self.entries[i];
        assert(self@[i as int] == e);
        if e.key != (hash >> 32) as u32 {
            return (None, Move(0));
        }
        let tt_move = e.best_move;
        if (e.depth as u32) < depth {
            return (None, tt_move);
        }
        let score = score_from_tt(e.score, ply);
        let cutoff = match e.flag {
            TtFlag::Exact => true,
            TtFlag::Lower => score >= beta,
            TtFlag::Upper => score <= alpha,
        };
        (if cutoff {
            Some(score)
        } else {
            None
        }, tt_move)
    }

    pub fn store(&mut self, hash: u64, depth: u32, score: i32, flag: TtFlag, best_move: Move, ply: usize)
        requires
            old(self).wf(),
            storable(score as int, ply as int),
        ensures
            final(self).wf(),
            forall|h: u64| #[trigger] final(self).slot(h) == old(self).slot(h),
            final(self)@ == store_result(
                old(self)@,
                old(self).slot(hash),
                hash,
                depth,
                score,
                flag,
                best_move,
                ply as int,
            ),
            old(self).scores_bounded() && -STORE_LIMIT <= score <= STORE_LIMIT && ply <= MAX_PLY
                ==> final(self).scores_bounded(),
    {
        let idx = self.index_of(hash);
        let existing = self.entries[idx];
        let key = (hash >> 32) as u32;

        // Depth-preferred replacement: keep deeper entries from the same position,
        // but always overwrite stale entries (different key).
        if existing.key == key && (existing.depth as u32) > depth {
            return;
        }
        let d: u8 = if depth > 255 {
            255
        } else {
            depth as u8
        };
        self.entries.set(idx, TtEntry { key, score: score_to_tt(score, ply), best_move, depth: d, flag });
    }
}

proof fn lemma_and_le(x: usize, m: usize)
    by (bit_vector)
    ensures
        x & m <= m,
{
}

/// Mate scores are stored relative to the current node so they remain correct
/// when retrieved at a different ply.
pub fn score_to_tt(score: i32, ply: usize) -> (r: i32)
    requires
        storable(score as int, ply as int),
    ensures
        r == to_tt(score as int, ply as int),
{
    if score > 90_000 {
        score + ply as i32
    } else if score < -90_000 {
        score - ply as i32
    } else {
        score
    }
}

pub fn score_from_tt(score: i32, ply: usize) -> (r: i32)
    requires
        ply <= i32::MAX,
    ensures
        r == from_tt(score as int, ply as int),
        -(STORE_LIMIT + MAX_PLY as int) <= score <= STORE_LIMIT + MAX_PLY as int && ply <= MAX_PLY ==> -(
        STORE_LIMIT + 2 * MAX_PLY as int) <= r <= STORE_LIMIT + 2 * MAX_PLY as int,
{
    if score > 90_000 {
        score - ply as i32
    } else if score < -90_000 {
        score + ply as i32
    } else {
        score
    }
}

/// A score stored at some ply reads back unchanged at the same ply.
pub proof fn lemma_score_roundtrip(score: int, ply: int)
    requires
        ply >= 0,
    ensures
        from_tt(to_tt(score, ply), ply) == score,
{
}

/// Reading an entry right after writing it gives back the stored move, and the
/// stored score moved to the reading ply when the entry is deep enough and its
/// flag settles the window.
pub proof fn lemma_read_after_write(
    hash: u64,
    depth: u32,
    score: i32,
    flag: TtFlag,
    best_move: Move,
    ply: int,
    probe_depth: u32,
    alpha: i32,
    beta: i32,
    ply2: int,
)
    requires
        storable(score as int, ply),
        0 <= ply2 <= i32::MAX,
    ensures
        ({
            let e = stored_entry(hash, depth, score, flag, best_move, ply);
            let s2 = read_back(score as int, ply, ply2);
            let stored_depth: u32 = if depth > 255 { 255 } else { depth };
            probe_answer(e, hash, probe_depth, alpha, beta, ply2) == (
                if probe_depth <= stored_depth && settles(flag, s2, alpha, beta) {
                    Some(s2 as i32)
                } else {
                    None
                },
                best_move,
            )
        }),
{
    let e = stored_entry(hash, depth, score, flag, best_move, ply);
    assert(e.score as int == to_tt(score as int, ply));
    assert(from_tt(e.score as int, ply2) == read_back(score as int, ply, ply2));
}

/// Of two stores for one position, the second searched shallower than the
/// first, the second leaves the table as the first left it.
pub proof fn lemma_shallower_store_keeps(
    v: Seq<TtEntry>,
    slot: int,
    hash: u64,
    d0: u32,
    s0: i32,
    f0: TtFlag,
    m0: Move,
    p0: int,
    d: u32,
    s: i32,
    f: TtFlag,
    m: Move,
    p: int,
)
    requires
        0 <= slot < v.len(),
        d < d0 <= 255,
    ensures
        ({
            let w = store_result(v, slot, hash, d0, s0, f0, m0, p0);
            store_result(w, slot, hash, d, s, f, m, p) == w
        }),
{
}

/// An empty entry answers every probe with a positive depth with a miss and
/// no move.
pub proof fn lemma_empty_entry_misses(hash: u64, depth: u32, alpha: i32, beta: i32, ply: int)
    requires
        depth >= 1,
    ensures
        probe_answer(empty_entry(), hash, depth, alpha, beta, ply) == (None::<i32>, Move(0)),
{
}

} // verus!
