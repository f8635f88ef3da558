use vstd::prelude::*;

verus! {

/// A 64-bit set of squares. Bit 0 = a1, bit 7 = h1, bit 56 = a8, bit 63 = h8.
#[derive(Clone, Copy, PartialEq, Eq, Structural, Default, Debug)]
pub struct Bitboard(pub u64);

/// Whether bit `sq` of `x` is set.
pub open spec fn bit(x: u64, sq: int) -> bool {
    0 <= sq < 64 && (x >> (sq as u64)) & 1u64 == 1u64
}

/// Number of set bits of `x` among bits `0..n`.
pub open spec fn bits_below(x: u64, n: int) -> nat
    decreases n,
{
    if n <= 0 {
        0
    } else {
        bits_below(x, n - 1) + (if bit(x, n - 1) { 1nat } else { 0nat })
    }
}

/// Number of set bits of `x`.
pub open spec fn popcount(x: u64) -> nat {
    bits_below(x, 64)
}

pub const FILE_A: u64 = 0x0101010101010101;
pub const FILE_H: u64 = 0x8080808080808080;
pub const RANK_1: u64 = 0x00000000000000FF;
pub const RANK_8: u64 = 0xFF00000000000000;

impl Bitboard {
    #[verifier::inline]
    pub open spec fn has(self, sq: int) -> bool {
        bit(self.0, sq)
    }

    pub fn from_square(sq: u8) -> (r: Self)
        requires
            sq < 64,
        ensures
            r.0 == 1u64 << sq,
            forall|i: int| #[trigger] r.has(i) <==> i == sq,
    {
        proof {
            lemma_single_bit(sq as u64);
        }
        Self(1u64 << sq)
    }

    pub fn is_empty(self) -> (r: bool)
        ensures
            r == (self.0 == 0),
            r <==> forall|i: int| !#[trigger] self.has(i),
    {
        proof {
            lemma_zero_iff_no_bits(self.0);
        }
        self.0 == 0
    }

    pub fn contains(self, sq: u8) -> (r: bool)
        requires
            sq < 64,
        ensures
            r == self.has(sq as int),
    {
        (self.0 >> sq) & 1 == 1
    }

    pub fn set(&mut self, sq: u8)
        requires
            sq < 64,
        ensures
            final(self).0 == old(self).0 | (1u64 << sq),
            forall|i: int| #[trigger] final(self).has(i) <==> (old(self).has(i) || i == sq),
    {
        proof {
            lemma_set_bit(self.0, sq as u64);
        }
        self.0 = self.0 | (1u64 << sq);
    }

    pub fn clear(&mut self, sq: u8)
        requires
            sq < 64,
        ensures
            final(self).0 == old(self).0 & !(1u64 << sq),
            forall|i: int| #[trigger] final(self).has(i) <==> (old(self).has(i) && i != sq),
    {
        proof {
            lemma_clear_bit(self.0, sq as u64);
        }
        self.0 = self.0 & !(1u64 << sq);
    }

    /// Removes the lowest set square and returns it.
    pub fn pop_lsb(&mut self) -> (sq: u8)
        requires
            old(self).0 != 0,
        ensures
            sq < 64,
            old(self).has(sq as int),
            forall|i: int| 0 <= i < sq ==> !#[trigger] old(self).has(i),
            final(self).0 == old(self).0 & ((old(self).0 - 1) as u64),
            final(self).0 < old(self).0,
            forall|i: int| #[trigger] final(self).has(i) <==> (old(self).has(i) && i != sq),
    {
        let x = self.0;
        let tz = x.trailing_zeros();
        proof {
            vstd::std_specs::bits::axiom_u64_trailing_zeros(x);
            lemma_pop_lowest(x, tz as u64);
            lemma_pop_decreases(x);
        }
        self.0 = x & (x - 1);
        tz as u8
    }

    /// Number of squares in the set.
    pub fn count(self) -> (n: u32)
        ensures
            n == popcount(self.0),
            n <= 64,
    {
        let x = self.0;
        let mut n: u32 = 0;
        let mut i: u64 = 0;
        while i < 64
            invariant
                i <= 64,
                n == bits_below(x, i as int),
                n <= i,
            decreases 64 - i,
        {
            if (x >> i) & 1 == 1 {
                n = n + 1;
            }
            i = i + 1;
        }
        n
    }

    pub fn bitor(self, rhs: Self) -> (r: Self)
        ensures
            r.0 == self.0 | rhs.0,
            forall|i: int| #[trigger] r.has(i) <==> (self.has(i) || rhs.has(i)),
    {
        proof {
            lemma_or_bits(self.0, rhs.0);
        }
        Self(self.0 | rhs.0)
    }

    pub fn bitand(self, rhs: Self) -> (r: Self)
        ensures
            r.0 == self.0 & rhs.0,
            forall|i: int| #[trigger] r.has(i) <==> (self.has(i) && rhs.has(i)),
    {
        proof {
            lemma_and_bits(self.0, rhs.0);
        }
        Self(self.0 & rhs.0)
    }

    pub fn not(self) -> (r: Self)
        ensures
            r.0 == !self.0,
            forall|i: int| 0 <= i < 64 ==> (#[trigger] r.has(i) <==> !self.has(i)),
    {
        proof {
            lemma_not_bits(self.0);
        }
        Self(!self.0)
    }

    pub fn bitxor(self, rhs: Self) -> (r: Self)
        ensures
            r.0 == self.0 ^ rhs.0,
            forall|i: int| #[trigger] r.has(i) <==> (self.has(i) != rhs.has(i)),
    {
        proof {
            lemma_xor_bits(self.0, rhs.0);
        }
        Self(self.0 ^ rhs.0)
    }

    pub fn shift_north(self) -> (r: Self)
        ensures
            r.0 == self.0 << 8u64,
            forall|i: int| #[trigger] r.has(i) <==> (8 <= i < 64 && self.has(i - 8)),
    {
        proof {
            lemma_shl8(self.0);
        }
        Self(self.0 << 8)
    }

    pub fn shift_south(self) -> (r: Self)
        ensures
            r.0 == self.0 >> 8u64,
            forall|i: int| #[trigger] r.has(i) <==> (0 <= i < 56 && self.has(i + 8)),
    {
        proof {
            lemma_shr8(self.0);
        }
        Self(self.0 >> 8)
    }

    pub fn shift_east(self) -> (r: Self)
        ensures
            r.0 == (self.0 << 1u64) & !FILE_A,
            forall|i: int| #[trigger] r.has(i) <==> (i % 8 != 0 && self.has(i - 1)),
    {
        proof {
            lemma_shift_east(self.0);
        }
        Self((self.0 << 1) & !FILE_A)
    }

    pub fn shift_west(self) -> (r: Self)
        ensures
            r.0 == (self.0 >> 1u64) & !FILE_H,
            forall|i: int| #[trigger] r.has(i) <==> (i % 8 != 7 && self.has(i + 1)),
    {
        proof {
            lemma_shift_west(self.0);
        }
        Self((self.0 >> 1) & !FILE_H)
    }
}

// ── bit-level lemmas ────────────────────────────────────────────────────────

proof fn lemma_single_bit_bv(s: u64, i: u64)
    by (bit_vector)
    requires
        s < 64,
        i < 64,
    ensures
        (((1u64 << s) >> i) & 1u64 == 1u64) <==> i == s,
{
}

pub proof fn lemma_single_bit(s: u64)
    requires
        s < 64,
    ensures
        forall|i: int| #[trigger] bit(1u64 << s, i) <==> i == s,
{
    assert forall|i: int| #[trigger] bit(1u64 << s, i) <==> i == s by {
        if 0 <= i < 64 {
            lemma_single_bit_bv(s, i as u64);
        }
    }
}

proof fn lemma_set_bit_bv(x: u64, s: u64, i: u64)
    by (bit_vector)
    requires
        s < 64,
        i < 64,
    ensures
        (((x | (1u64 << s)) >> i) & 1u64 == 1u64) <==> (((x >> i) & 1u64 == 1u64) || i == s),
{
}

pub proof fn lemma_set_bit(x: u64, s: u64)
    requires
        s < 64,
    ensures
        forall|i: int| #[trigger] bit(x | (1u64 << s), i) <==> (bit(x, i) || i == s),
{
    assert forall|i: int| #[trigger] bit(x | (1u64 << s), i) <==> (bit(x, i) || i == s) by {
        if 0 <= i < 64 {
            lemma_set_bit_bv(x, s, i as u64);
        }
    }
}

proof fn lemma_clear_bit_bv(x: u64, s: u64, i: u64)
    by (bit_vector)
    requires
        s < 64,
        i < 64,
    ensures
        (((x & !(1u64 << s)) >> i) & 1u64 == 1u64) <==> (((x >> i) & 1u64 == 1u64) && i != s),
{
}

pub proof fn lemma_clear_bit(x: u64, s: u64)
    requires
        s < 64,
    ensures
        forall|i: int| #[trigger] bit(x & !(1u64 << s), i) <==> (bit(x, i) && i != s),
{
    assert forall|i: int| #[trigger] bit(x & !(1u64 << s), i) <==> (bit(x, i) && i != s) by {
        if 0 <= i < 64 {
            lemma_clear_bit_bv(x, s, i as u64);
        }
    }
}

proof fn lemma_or_bits_bv(x: u64, y: u64, i: u64)
    by (bit_vector)
    requires
        i < 64,
    ensures
        (((x | y) >> i) & 1u64 == 1u64) <==> (((x >> i) & 1u64 == 1u64) || ((y >> i) & 1u64
            == 1u64)),
{
}

pub proof fn lemma_or_bits(x: u64, y: u64)
    ensures
        forall|i: int| #[trigger] bit(x | y, i) <==> (bit(x, i) || bit(y, i)),
{
    assert forall|i: int| #[trigger] bit(x | y, i) <==> (bit(x, i) || bit(y, i)) by {
        if 0 <= i < 64 {
            lemma_or_bits_bv(x, y, i as u64);
        }
    }
}

proof fn lemma_and_bits_bv(x: u64, y: u64, i: u64)
    by (bit_vector)
    requires
        i < 64,
    ensures
        (((x & y) >> i) & 1u64 == 1u64) <==> (((x >> i) & 1u64 == 1u64) && ((y >> i) & 1u64
            == 1u64)),
{
}

pub proof fn lemma_and_bits(x: u64, y: u64)
    ensures
        forall|i: int| #[trigger] bit(x & y, i) <==> (bit(x, i) && bit(y, i)),
{
    assert forall|i: int| #[trigger] bit(x & y, i) <==> (bit(x, i) && bit(y, i)) by {
        if 0 <= i < 64 {
            lemma_and_bits_bv(x, y, i as u64);
        }
    }
}

proof fn lemma_not_bits_bv(x: u64, i: u64)
    by (bit_vector)
    requires
        i < 64,
    ensures
        (((!x) >> i) & 1u64 == 1u64) <==> !((x >> i) & 1u64 == 1u64),
{
}

pub proof fn lemma_not_bits(x: u64)
    ensures
        forall|i: int| 0 <= i < 64 ==> (#[trigger] bit(!x, i) <==> !bit(x, i)),
{
    assert forall|i: int| 0 <= i < 64 implies (#[trigger] bit(!x, i) <==> !bit(x, i)) by {
        lemma_not_bits_bv(x, i as u64);
    }
}

proof fn lemma_xor_bits_bv(x: u64, y: u64, i: u64)
    by (bit_vector)
    requires
        i < 64,
    ensures
        (((x ^ y) >> i) & 1u64 == 1u64) <==> (((x >> i) & 1u64 == 1u64) != ((y >> i) & 1u64
            == 1u64)),
{
}

pub proof fn lemma_xor_bits(x: u64, y: u64)
    ensures
        forall|i: int| #[trigger] bit(x ^ y, i) <==> (bit(x, i) != bit(y, i)),
{
    assert forall|i: int| #[trigger] bit(x ^ y, i) <==> (bit(x, i) != bit(y, i)) by {
        if 0 <= i < 64 {
            lemma_xor_bits_bv(x, y, i as u64);
        }
    }
}

proof fn lemma_zero_bits_bv(x: u64, t: u64)
    by (bit_vector)
    requires
        x == 0,
    ensures
        (x >> t) & 1u64 == 0u64,
{
}

/// A word is zero exactly when none of its 64 bits is set.
pub proof fn lemma_zero_iff_no_bits(x: u64)
    ensures
        (x == 0) <==> forall|i: int| !#[trigger] bit(x, i),
{
    vstd::std_specs::bits::axiom_u64_trailing_zeros(x);
    if x == 0 {
        assert forall|i: int| !#[trigger] bit(x, i) by {
            if 0 <= i < 64 {
                lemma_zero_bits_bv(x, i as u64);
            }
        }
    } else {
        let t = vstd::std_specs::bits::u64_trailing_zeros(x);
        assert(bit(x, t as int));
    }
}

proof fn lemma_xor_bit_bv(x: u64, y: u64, t: u64)
    by (bit_vector)
    requires
        ((x ^ y) >> t) & 1u64 == 1u64,
    ensures
        ((x >> t) & 1u64 == 1u64) != ((y >> t) & 1u64 == 1u64),
{
}

proof fn lemma_xor_zero_bv(x: u64, y: u64)
    by (bit_vector)
    requires
        x ^ y == 0,
    ensures
        x == y,
{
}

/// Two words with the same 64 bits are equal.
pub proof fn lemma_bits_extensional(x: u64, y: u64)
    requires
        forall|i: int| #[trigger] bit(x, i) == bit(y, i),
    ensures
        x == y,
{
    let z = x ^ y;
    vstd::std_specs::bits::axiom_u64_trailing_zeros(z);
    if z != 0 {
        let t = vstd::std_specs::bits::u64_trailing_zeros(z);
        lemma_xor_bit_bv(x, y, t as u64);
        assert(bit(x, t as int) == bit(y, t as int));
    }
    lemma_xor_zero_bv(x, y);
}

proof fn lemma_pop_lowest_bv(x: u64, t: u64, i: u64)
    by (bit_vector)
    requires
        x != 0,
        t < 64,
        i < 64,
        (x >> t) & 1u64 == 1u64,
        x << ((64 - t) as u64) == 0,
    ensures
        (((x & ((x - 1) as u64)) >> i) & 1u64 == 1u64) <==> (((x >> i) & 1u64 == 1u64) && i != t),
{
}

proof fn lemma_pop_decreases(x: u64)
    by (bit_vector)
    requires
        x != 0,
    ensures
        x & ((x - 1) as u64) < x,
{
}

proof fn lemma_pop_lowest(x: u64, t: u64)
    requires
        x != 0,
        t == vstd::std_specs::bits::u64_trailing_zeros(x),
        0 <= t <= 64,
        (x == 0) <==> t == 64,
        t < 64 ==> (x >> t) & 1u64 == 1u64,
        x << ((64 - t) as u64) == 0,
        forall|j: u64| 0 <= j < t ==> #[trigger] (x >> j) & 1u64 == 0u64,
    ensures
        t < 64,
        bit(x, t as int),
        forall|i: int| 0 <= i < t ==> !#[trigger] bit(x, i),
        forall|i: int| #[trigger] bit(x & ((x - 1) as u64), i) <==> (bit(x, i) && i != t),
{
    assert forall|i: int| 0 <= i < t implies !#[trigger] bit(x, i) by {
        assert((x >> (i as u64)) & 1u64 == 0u64);
    }
    assert forall|i: int| #[trigger] bit(x & ((x - 1) as u64), i) <==> (bit(x, i) && i != t) by {
        if 0 <= i < 64 {
            lemma_pop_lowest_bv(x, t, i as u64);
        }
    }
}

proof fn lemma_shl8_bv(x: u64, i: u64)
    by (bit_vector)
    requires
        i < 64,
    ensures
        (((x << 8u64) >> i) & 1u64 == 1u64) <==> (8 <= i && ((x >> ((i - 8) as u64)) & 1u64
            == 1u64)),
{
}

proof fn lemma_shl8(x: u64)
    ensures
        forall|i: int| #[trigger] bit(x << 8u64, i) <==> (8 <= i < 64 && bit(x, i - 8)),
{
    assert forall|i: int| #[trigger] bit(x << 8u64, i) <==> (8 <= i < 64 && bit(x, i - 8)) by {
        if 0 <= i < 64 {
            let j = i as u64;
            lemma_shl8_bv(x, j);
            if 8 <= i {
                assert(((j - 8) as u64) == (i - 8) as u64);
            }
        }
    }
}

proof fn lemma_shr8_bv(x: u64, i: u64)
    by (bit_vector)
    requires
        i < 64,
    ensures
        (((x >> 8u64) >> i) & 1u64 == 1u64) <==> (i < 56 && ((x >> ((i + 8) as u64)) & 1u64
            == 1u64)),
{
}

proof fn lemma_shr8(x: u64)
    ensures
        forall|i: int| #[trigger] bit(x >> 8u64, i) <==> (0 <= i < 56 && bit(x, i + 8)),
{
    assert forall|i: int| #[trigger] bit(x >> 8u64, i) <==> (0 <= i < 56 && bit(x, i + 8)) by {
        if 0 <= i < 64 {
            let j = i as u64;
            lemma_shr8_bv(x, j);
            assert(((j + 8) as u64) == (i + 8) as u64);
            if i + 8 >= 64 {
                assert(!bit(x, i + 8));
            }
        }
    }
}

proof fn lemma_shift_east_bv(x: u64, i: u64)
    by (bit_vector)
    requires
        i < 64,
    ensures
        ((((x << 1u64) & !0x0101010101010101u64) >> i) & 1u64 == 1u64) <==> (i % 8 != 0 && ((x
            >> ((i - 1) as u64)) & 1u64 == 1u64)),
{
}

proof fn lemma_shift_east(x: u64)
    ensures
        forall|i: int| #[trigger] bit((x << 1u64) & !FILE_A, i) <==> (i % 8 != 0 && bit(x, i - 1)),
{
    assert forall|i: int| #[trigger] bit((x << 1u64) & !FILE_A, i) <==> (i % 8 != 0 && bit(
        x,
        i - 1,
    )) by {
        if 0 <= i < 64 {
            lemma_shift_east_bv(x, i as u64);
        }
    }
}

proof fn lemma_shift_west_bv(x: u64, i: u64)
    by (bit_vector)
    requires
        i < 64,
    ensures
        ((((x >> 1u64) & !0x8080808080808080u64) >> i) & 1u64 == 1u64) <==> (i % 8 != 7 && i < 63
            && ((x >> ((i + 1) as u64)) & 1u64 == 1u64)),
{
}

proof fn lemma_shift_west(x: u64)
    ensures
        forall|i: int| #[trigger] bit((x >> 1u64) & !FILE_H, i) <==> (i % 8 != 7 && bit(x, i + 1)),
{
    assert forall|i: int| #[trigger] bit((x >> 1u64) & !FILE_H, i) <==> (i % 8 != 7 && bit(
        x,
        i + 1,
    )) by {
        if 0 <= i < 64 {
            lemma_shift_west_bv(x, i as u64);
        }
    }
}

} // verus!
