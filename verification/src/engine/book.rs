use vstd::prelude::*;

use crate::board::position::{push_square, square_text};

verus! {

// Built-in opening lines from the starting position (Ruy Lopez, Italian,
// Scotch, King's Gambit, Sicilian, French, Caro-Kann, Scandinavian, Pirc and
// Modern, the queen's-pawn systems, English, Reti and flank openings), each move
// stored as from-square * 64 + to-square.

/// Number of built-in opening lines.
pub const BOOK_LINES: usize = 38;

pub const LINE_0: [u16; 6] = [796, 3364, 405, 3690, 353, 4013];
pub const LINE_1: [u16; 9] = [796, 3364, 405, 3690, 353, 3112, 2136, 4013, 262];
pub const LINE_2: [u16; 7] = [796, 3364, 405, 3690, 353, 3938, 262];
pub const LINE_3: [u16; 7] = [796, 3364, 405, 3690, 346, 3938, 723];
pub const LINE_4: [u16; 7] = [796, 3364, 405, 3690, 346, 4013, 723];
pub const LINE_5: [u16; 8] = [796, 3364, 405, 3690, 346, 3938, 658, 4013];
pub const LINE_6: [u16; 7] = [796, 3364, 405, 3690, 731, 2331, 1371];
pub const LINE_7: [u16; 5] = [796, 3364, 861, 2333, 405];
pub const LINE_8: [u16; 10] = [796, 3234, 405, 3307, 731, 2203, 1371, 4013, 82, 3112];
pub const LINE_9: [u16; 10] = [796, 3234, 405, 3307, 731, 2203, 1371, 4013, 82, 3502];
pub const LINE_10: [u16; 10] = [796, 3234, 405, 3372, 731, 2203, 1371, 4013, 82, 3307];
pub const LINE_11: [u16; 8] = [796, 3234, 405, 3372, 731, 2203, 1371, 3112];
pub const LINE_12: [u16; 7] = [796, 3234, 82, 3690, 918, 3502, 334];
pub const LINE_13: [u16; 7] = [796, 3372, 731, 3299, 82, 4013, 166];
pub const LINE_14: [u16; 7] = [796, 3372, 731, 3299, 1828, 3234, 658];
pub const LINE_15: [u16; 6] = [796, 3372, 731, 3299, 75, 4013];
pub const LINE_16: [u16; 8] = [796, 3242, 731, 3299, 82, 2268, 1180, 4013];
pub const LINE_17: [u16; 6] = [796, 3242, 731, 3299, 1828, 3749];
pub const LINE_18: [u16; 6] = [796, 3299, 1827, 3811, 82, 2272];
pub const LINE_19: [u16; 7] = [796, 3307, 731, 4013, 82, 3502, 332];
pub const LINE_20: [u16; 7] = [796, 3502, 731, 3958, 82, 3307, 405];
pub const LINE_21: [u16; 7] = [731, 3299, 666, 3372, 82, 4013, 166];
pub const LINE_22: [u16; 7] = [731, 3299, 666, 2266, 405, 4013, 788];
pub const LINE_23: [u16; 8] = [731, 3299, 666, 3242, 405, 4013, 82, 3372];
pub const LINE_24: [u16; 9] = [731, 4013, 666, 3502, 82, 3958, 796, 3307, 405];
pub const LINE_25: [u16; 7] = [731, 4013, 666, 3372, 82, 3929, 788];
pub const LINE_26: [u16; 8] = [731, 4013, 666, 3372, 405, 3177, 918, 3761];
pub const LINE_27: [u16; 8] = [731, 4013, 666, 3502, 82, 3299, 1699, 2915];
pub const LINE_28: [u16; 6] = [731, 3429, 405, 4013, 918, 3372];
pub const LINE_29: [u16; 8] = [731, 3299, 405, 4013, 157, 3372, 788, 3947];
pub const LINE_30: [u16; 8] = [731, 3299, 405, 4013, 788, 3372, 339, 3947];
pub const LINE_31: [u16; 6] = [666, 3364, 82, 4013, 405, 3690];
pub const LINE_32: [u16; 6] = [666, 4013, 82, 3372, 796, 3929];
pub const LINE_33: [u16; 6] = [666, 3234, 405, 4013, 82, 3690];
pub const LINE_34: [u16; 6] = [405, 3299, 918, 4013, 334, 3372];
pub const LINE_35: [u16; 6] = [405, 4013, 666, 3502, 918, 3958];
pub const LINE_36: [u16; 5] = [593, 3364, 137, 3690, 405];
pub const LINE_37: [u16; 5] = [918, 3299, 334, 3234, 405];

/// Line `k` of the book.
pub open spec fn book_line(k: int) -> Seq<u16> {
    if k == 0 {
        LINE_0@
    } else if k == 1 {
        LINE_1@
    } else if k == 2 {
        LINE_2@
    } else if k == 3 {
        LINE_3@
    } else if k == 4 {
        LINE_4@
    } else if k == 5 {
        LINE_5@
    } else if k == 6 {
        LINE_6@
    } else if k == 7 {
        LINE_7@
    } else if k == 8 {
        LINE_8@
    } else if k == 9 {
        LINE_9@
    } else if k == 10 {
        LINE_10@
    } else if k == 11 {
        LINE_11@
    } else if k == 12 {
        LINE_12@
    } else if k == 13 {
        LINE_13@
    } else if k == 14 {
        LINE_14@
    } else if k == 15 {
        LINE_15@
    } else if k == 16 {
        LINE_16@
    } else if k == 17 {
        LINE_17@
    } else if k == 18 {
        LINE_18@
    } else if k == 19 {
        LINE_19@
    } else if k == 20 {
        LINE_20@
    } else if k == 21 {
        LINE_21@
    } else if k == 22 {
        LINE_22@
    } else if k == 23 {
        LINE_23@
    } else if k == 24 {
        LINE_24@
    } else if k == 25 {
        LINE_25@
    } else if k == 26 {
        LINE_26@
    } else if k == 27 {
        LINE_27@
    } else if k == 28 {
        LINE_28@
    } else if k == 29 {
        LINE_29@
    } else if k == 30 {
        LINE_30@
    } else if k == 31 {
        LINE_31@
    } else if k == 32 {
        LINE_32@
    } else if k == 33 {
        LINE_33@
    } else if k == 34 {
        LINE_34@
    } else if k == 35 {
        LINE_35@
    } else if k == 36 {
        LINE_36@
    } else {
        LINE_37@
    }
}

fn line_of(k: usize) -> (s: &'static [u16])
    requires
        k < BOOK_LINES,
    ensures
        s@ == book_line(k as int),
{
    match k {
        0 => &LINE_0,
        1 => &LINE_1,
        2 => &LINE_2,
        3 => &LINE_3,
        4 => &LINE_4,
        5 => &LINE_5,
        6 => &LINE_6,
        7 => &LINE_7,
        8 => &LINE_8,
        9 => &LINE_9,
        10 => &LINE_10,
        11 => &LINE_11,
        12 => &LINE_12,
        13 => &LINE_13,
        14 => &LINE_14,
        15 => &LINE_15,
        16 => &LINE_16,
        17 => &LINE_17,
        18 => &LINE_18,
        19 => &LINE_19,
        20 => &LINE_20,
        21 => &LINE_21,
        22 => &LINE_22,
        23 => &LINE_23,
        24 => &LINE_24,
        25 => &LINE_25,
        26 => &LINE_26,
        27 => &LINE_27,
        28 => &LINE_28,
        29 => &LINE_29,
        30 => &LINE_30,
        31 => &LINE_31,
        32 => &LINE_32,
        33 => &LINE_33,
        34 => &LINE_34,
        35 => &LINE_35,
        36 => &LINE_36,
        _ => &LINE_37,
    }
}

/// Number of moves in line `k`.
pub open spec fn line_len(k: int) -> int {
    book_line(k).len() as int
}

/// Move `i` of line `k` (from * 64 + to).
pub open spec fn line_move(k: int, i: int) -> u16 {
    book_line(k)[i]
}

/// UCI text of a book move.
pub open spec fn book_text(code: u16) -> Seq<char> {
    square_text(((code / 64) % 64) as int) + square_text((code % 64) as int)
}

/// The texts of the moves played so far.
pub open spec fn texts(h: Seq<String>) -> Seq<Seq<char>> {
    h.map_values(|s: String| s@)
}

/// Line `k` goes on past the game so far and agrees with every move of it.
pub open spec fn line_follows(k: int, history: Seq<Seq<char>>) -> bool {
    &&& line_len(k) > history.len()
    &&& forall|i: int| 0 <= i < history.len() ==> book_text(#[trigger] line_move(k, i)) == history[i]
}

/// Sort key of a book move: its text read as (file, rank, file, rank).
pub open spec fn text_key(code: u16) -> int {
    let f = (code / 64) % 64;
    let t = code % 64;
    (f % 8) * 512 + (f / 8) * 64 + (t % 8) * 8 + t / 8
}

/// `s` with `x` put in its place by `text_key` (unchanged when already there).
pub open spec fn insert_sorted(s: Seq<u16>, x: u16) -> Seq<u16>
    decreases s.len(),
{
    if s.len() == 0 {
        seq![x]
    } else if text_key(x) < text_key(s[0]) {
        seq![x] + s
    } else if text_key(x) == text_key(s[0]) {
        s
    } else {
        seq![s[0]] + insert_sorted(s.drop_first(), x)
    }
}

/// The distinct next moves of the first `k` lines that follow the game, in
/// text order.
pub open spec fn candidates(history: Seq<Seq<char>>, k: int) -> Seq<u16>
    decreases k,
{
    if k <= 0 {
        Seq::empty()
    } else if line_follows(k - 1, history) {
        insert_sorted(candidates(history, k - 1), line_move(k - 1, history.len() as int))
    } else {
        candidates(history, k - 1)
    }
}

pub open spec fn xorshift_spec(x: u64) -> u64 {
    let a = if x == 0 { 0x9e3779b97f4a7c15u64 } else { x };
    let b = a ^ (a << 13u64);
    let c = b ^ (b >> 7u64);
    c ^ (c << 17u64)
}

/// The book's choice: among the candidates in text order, the one at
/// `xorshift(seed + plies) % count`.
pub open spec fn book_choice(history: Seq<Seq<char>>, seed: u64) -> Option<Seq<char>> {
    let c = candidates(history, BOOK_LINES as int);
    if c.len() == 0 {
        None
    } else {
        let x = xorshift_spec(seed.wrapping_add(history.len() as u64));
        Some(book_text(c[((x as usize) as int) % (c.len() as int)]))
    }
}

pub fn xorshift(x: u64) -> (r: u64)
    ensures
        r == xorshift_spec(x),
{
    let mut x = x;
    if x == 0 {
        x = 0x9e3779b97f4a7c15;
    }
    x = x ^ (x << 13);
    x = x ^ (x >> 7);
    x = x ^ (x << 17);
    x
}


fn text_key_of(code: u16) -> (k: u32)
    ensures
        k == text_key(code),
{
    let f = (code / 64) % 64;
    let t = code % 64;
    ((f % 8) as u32) * 512 + ((f / 8) as u32) * 64 + ((t % 8) as u32) * 8 + (t / 8) as u32
}

/// UCI text of a book move.
fn book_move_text(code: u16) -> (s: String)
    ensures
        s@ == book_text(code),
{
    let mut s = String::new();
    push_square(&mut s, ((code / 64) % 64) as u8);
    push_square(&mut s, (code % 64) as u8);
    proof {
        assert(s@ =~= book_text(code));
    }
    s
}

/// Line `k` goes on past the game and agrees with every move played.
fn follows(k: usize, history: &[String]) -> (r: bool)
    requires
        k < BOOK_LINES,
    ensures
        r == line_follows(k as int, texts(history@)),
{
    let line = line_of(k);
    let n = history.len();
    if line.len() <= n {
        return false;
    }
    let mut i: usize = 0;
    while i < n
        invariant
            i <= n,
            n == history@.len(),
            n < line@.len(),
            line@ == book_line(k as int),
            k < BOOK_LINES,
            forall|j: int| 0 <= j < i ==> book_text(#[trigger] line_move(k as int, j)) == texts(history@)[j],
        decreases n - i,
    {
        let t = book_move_text(line[i]);
        if t != history[i] {
            assert(book_text(line_move(k as int, i as int)) != texts(history@)[i as int]);
            return false;
        }
        i += 1;
    }
    true
}

proof fn lemma_insert_prefix(s: Seq<u16>, x: u16, i: int)
    requires
        0 <= i <= s.len(),
        forall|j: int| 0 <= j < i ==> text_key(#[trigger] s[j]) < text_key(x),
    ensures
        insert_sorted(s, x) == s.take(i) + insert_sorted(s.skip(i), x),
    decreases i,
{
    if i > 0 {
        let t = s.drop_first();
        assert forall|j: int| 0 <= j < i - 1 implies text_key(#[trigger] t[j]) < text_key(x) by {
            assert(t[j] == s[j + 1]);
        }
        lemma_insert_prefix(t, x, i - 1);
        assert(t.skip(i - 1) =~= s.skip(i));
        assert(seq![s[0]] + t.take(i - 1) =~= s.take(i));
    } else {
        assert(s.skip(0) =~= s);
    }
}

/// Puts `x` into the ascending candidate list `v` unless it is there.
fn insert_candidate(v: &mut Vec<u16>, x: u16)
    ensures
        final(v)@ == insert_sorted(old(v)@, x),
{
    let kx = text_key_of(x);
    let mut i: usize = 0;
    while i < v.len() && text_key_of(v[i]) < kx
        invariant
            i <= v@.len(),
            v@ == old(v)@,
            kx == text_key(x),
            forall|j: int| 0 <= j < i ==> text_key(#[trigger] v@[j]) < text_key(x),
        decreases v@.len() - i,
    {
        i += 1;
    }
    proof {
        lemma_insert_prefix(v@, x, i as int);
    }
    if i < v.len() && text_key_of(v[i]) == kx {
        proof {
            assert(v@.take(i as int) + v@.skip(i as int) =~= v@);
        }
        return;
    }
    let ghost before = v@;
    v.insert(i, x);
    proof {
        assert(v@ =~= before.take(i as int) + insert_sorted(before.skip(i as int), x));
    }
}

/// Return a book move for the given game move history, or `None` if out of book.
/// `seed` is a per-game constant used to pick among equally-valid book moves so
/// different games follow different lines.
pub fn get_book_move(move_history: &[String], seed: u64) -> (r: Option<String>)
    ensures
        r is None <==> book_choice(texts(move_history@), seed) is None,
        r matches Some(s) ==> book_choice(texts(move_history@), seed) == Some(s@),
{
    let ghost h = texts(move_history@);
    let n = move_history.len();
    let mut cands: Vec<u16> = Vec::new();
    let mut k: usize = 0;
    while k < BOOK_LINES
        invariant
            k <= BOOK_LINES,
            n == move_history@.len(),
            h == texts(move_history@),
            cands@ == candidates(h, k as int),
        decreases BOOK_LINES - k,
    {
        if follows(k, move_history) {
            let line = line_of(k);
            insert_candidate(&mut cands, line[n]);
        }
        k += 1;
    }
    if cands.len() == 0 {
        return None;
    }
    // Mix the seed with the ply so later plies can pick differently.
    let x = xorshift(seed.wrapping_add(n as u64));
    let idx = (x as usize) % cands.len();
    Some(book_move_text(cands[idx]))
}


/// Lexicographic order of texts, as `str` compares them.
pub open spec fn text_less(a: Seq<char>, b: Seq<char>) -> bool
    decreases a.len(),
{
    if a.len() == 0 {
        b.len() > 0
    } else if b.len() == 0 {
        false
    } else if a[0] < b[0] {
        true
    } else if a[0] == b[0] {
        text_less(a.drop_first(), b.drop_first())
    } else {
        false
    }
}

/// Ordering book moves by `text_key` is ordering their texts as strings, and
/// equal keys mean equal texts: the candidates come out as a sorted,
/// de-duplicated list of strings.
pub proof fn lemma_text_key_order(a: u16, b: u16)
    ensures
        text_key(a) < text_key(b) <==> text_less(book_text(a), book_text(b)),
        text_key(a) == text_key(b) <==> book_text(a) == book_text(b),
{
    let ta = book_text(a);
    let tb = book_text(b);
    let fa = ((a / 64) % 64) as int;
    let fb = ((b / 64) % 64) as int;
    let ga = (a % 64) as int;
    let gb = (b % 64) as int;
    assert(ta[0] as int == 97 + fa % 8 && ta[1] as int == 49 + fa / 8);
    assert(ta[2] as int == 97 + ga % 8 && ta[3] as int == 49 + ga / 8);
    assert(tb[0] as int == 97 + fb % 8 && tb[1] as int == 49 + fb / 8);
    assert(tb[2] as int == 97 + gb % 8 && tb[3] as int == 49 + gb / 8);
    reveal_with_fuel(text_less, 5);
    assert(ta.drop_first().drop_first().drop_first().drop_first().len() == 0);
    assert(tb.drop_first().drop_first().drop_first().drop_first().len() == 0);
    if book_text(a) == book_text(b) {
        assert(ta[0] == tb[0] && ta[1] == tb[1] && ta[2] == tb[2] && ta[3] == tb[3]);
    }
    if text_key(a) == text_key(b) {
        assert(ta =~= tb);
    }
}

/// Inserting keeps what was there and adds `x` (or an entry with its text).
proof fn lemma_insert_sorted_members(s: Seq<u16>, x: u16)
    ensures
        insert_sorted(s, x).len() >= s.len(),
        insert_sorted(s, x).len() > 0,
        forall|i: int|
            0 <= i < insert_sorted(s, x).len() ==> #[trigger] insert_sorted(s, x)[i] == x || s.contains(
                insert_sorted(s, x)[i],
            ),
    decreases s.len(),
{
    if s.len() > 0 && text_key(x) > text_key(s[0]) {
        let t = s.drop_first();
        lemma_insert_sorted_members(t, x);
        let r = insert_sorted(s, x);
        assert forall|i: int| 0 <= i < r.len() implies #[trigger] r[i] == x || s.contains(r[i]) by {
            if i == 0 {
                assert(s[0] == r[0]);
            } else {
                assert(r[i] == insert_sorted(t, x)[i - 1]);
                if insert_sorted(t, x)[i - 1] != x {
                    let j = choose|j: int| 0 <= j < t.len() && t[j] == insert_sorted(t, x)[i - 1];
                    assert(s[j + 1] == t[j]);
                }
            }
        }
    } else if s.len() > 0 && text_key(x) < text_key(s[0]) {
        let r = insert_sorted(s, x);
        assert forall|i: int| 0 <= i < r.len() implies #[trigger] r[i] == x || s.contains(r[i]) by {
            if i > 0 {
                assert(r[i] == s[i - 1]);
            }
        }
    } else if s.len() > 0 {
        assert forall|i: int| 0 <= i < s.len() implies #[trigger] s[i] == x || s.contains(s[i]) by {
            assert(s.contains(s[i]));
        }
    }
}

/// The candidates of the first `k` lines: none exactly when none of those
/// lines follows the game, and each the next move (by its text) of one that does.
proof fn lemma_candidates_follow(history: Seq<Seq<char>>, k: int)
    requires
        0 <= k,
    ensures
        candidates(history, k).len() == 0 <==> forall|j: int| 0 <= j < k ==> !line_follows(j, history),
        forall|i: int|
            0 <= i < candidates(history, k).len() ==> exists|j: int|
                0 <= j < k && line_follows(j, history) && book_text(line_move(j, history.len() as int))
                    == book_text(#[trigger] candidates(history, k)[i]),
    decreases k,
{
    if k > 0 {
        lemma_candidates_follow(history, k - 1);
        let c0 = candidates(history, k - 1);
        let c = candidates(history, k);
        if line_follows(k - 1, history) {
            let x = line_move(k - 1, history.len() as int);
            lemma_insert_sorted_members(c0, x);
            assert forall|i: int| 0 <= i < c.len() implies exists|j: int|
                0 <= j < k && line_follows(j, history) && book_text(line_move(j, history.len() as int))
                    == book_text(#[trigger] c[i]) by {
                if c[i] == x {
                    assert(line_follows(k - 1, history));
                } else {
                    let m = choose|m: int| 0 <= m < c0.len() && c0[m] == c[i];
                    assert(book_text(c0[m]) == book_text(c[i]));
                }
            }
        }
    }
}

/// The book answers exactly when some book line goes on from the game so
/// far, and then with the next move of one such line.
pub proof fn lemma_book_move_continues_a_line(history: Seq<Seq<char>>, seed: u64)
    ensures
        book_choice(history, seed) is None <==> forall|k: int| 0 <= k < BOOK_LINES ==> !line_follows(k, history),
        book_choice(history, seed) matches Some(t) ==> exists|k: int|
            0 <= k < BOOK_LINES && line_follows(k, history) && t == book_text(line_move(k, history.len() as int)),
{
    lemma_candidates_follow(history, BOOK_LINES as int);
    let c = candidates(history, BOOK_LINES as int);
    if c.len() > 0 {
        let x = xorshift_spec(seed.wrapping_add(history.len() as u64));
        let i = ((x as usize) as int) % (c.len() as int);
        assert(0 <= i < c.len());
        assert(book_choice(history, seed) == Some(book_text(c[i])));
    }
}

} // verus!
