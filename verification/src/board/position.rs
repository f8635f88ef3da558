use vstd::prelude::*;

use super::bitboard::{bit, lemma_clear_bit, lemma_or_bits, lemma_set_bit, Bitboard};
use super::zobrist::{castling_hash, zkey};
use super::zobrist;

verus! {

#[derive(Clone, Copy, PartialEq, Eq, Structural, Debug)]
pub enum Color {
    White,
    Black,
}

impl Color {
    pub fn flip(self) -> (r: Self)
        ensures
            r == self.opposite(),
    {
        match self {
            Color::White => Color::Black,
            Color::Black => Color::White,
        }
    }

    pub open spec fn opposite(self) -> Color {
        match self {
            Color::White => Color::Black,
            Color::Black => Color::White,
        }
    }

    /// 0 for White, 1 for Black.
    pub open spec fn idx(self) -> int {
        match self {
            Color::White => 0,
            Color::Black => 1,
        }
    }

    pub fn index(self) -> (r: usize)
        ensures
            r == self.idx(),
    {
        match self {
            Color::White => 0,
            Color::Black => 1,
        }
    }
}

pub open spec fn color_of_index(c: int) -> Color {
    if c == 0 {
        Color::White
    } else {
        Color::Black
    }
}

#[derive(Clone, Copy, PartialEq, Eq, Structural, Debug)]
pub enum PieceType {
    Pawn,
    Knight,
    Bishop,
    Rook,
    Queen,
    King,
}

impl PieceType {
    pub open spec fn value(self) -> int {
        match self {
            PieceType::Pawn => 100,
            PieceType::Knight => 320,
            PieceType::Bishop => 330,
            PieceType::Rook => 500,
            PieceType::Queen => 900,
            PieceType::King => 20000,
        }
    }

    pub fn material_value(self) -> (v: i32)
        ensures
            v == self.value(),
    {
        match self {
            PieceType::Pawn => 100,
            PieceType::Knight => 320,
            PieceType::Bishop => 330,
            PieceType::Rook => 500,
            PieceType::Queen => 900,
            PieceType::King => 20000,
        }
    }

    /// Pawn = 0, Knight = 1, ..., King = 5.
    pub open spec fn idx(self) -> int {
        match self {
            PieceType::Pawn => 0,
            PieceType::Knight => 1,
            PieceType::Bishop => 2,
            PieceType::Rook => 3,
            PieceType::Queen => 4,
            PieceType::King => 5,
        }
    }

    pub fn index(self) -> (r: usize)
        ensures
            r == self.idx(),
    {
        match self {
            PieceType::Pawn => 0,
            PieceType::Knight => 1,
            PieceType::Bishop => 2,
            PieceType::Rook => 3,
            PieceType::Queen => 4,
            PieceType::King => 5,
        }
    }
}

pub open spec fn kind_of_index(k: int) -> PieceType {
    if k == 0 {
        PieceType::Pawn
    } else if k == 1 {
        PieceType::Knight
    } else if k == 2 {
        PieceType::Bishop
    } else if k == 3 {
        PieceType::Rook
    } else if k == 4 {
        PieceType::Queen
    } else {
        PieceType::King
    }
}

#[derive(Clone, Copy, PartialEq, Eq, Structural, Debug)]
pub struct Piece {
    pub kind: PieceType,
    pub color: Color,
}

impl Piece {
    pub fn new(kind: PieceType, color: Color) -> (p: Self)
        ensures
            p == (Piece { kind, color }),
    {
        Self { kind, color }
    }

    /// Index into the piece bitboard array: kind * 2 + color.
    pub open spec fn idx(self) -> int {
        self.kind.idx() * 2 + self.color.idx()
    }

    pub fn bb_index(self) -> (r: usize)
        ensures
            r == self.idx(),
            r < 12,
    {
        self.kind.index() * 2 + self.color.index()
    }
}

/// The piece whose bitboard sits at index `i` (kind * 2 + color).
pub open spec fn piece_of_index(i: int) -> Piece {
    Piece { kind: kind_of_index(i / 2), color: color_of_index(i % 2) }
}

pub proof fn lemma_piece_index_roundtrip(p: Piece)
    ensures
        0 <= p.idx() < 12,
        piece_of_index(p.idx()) == p,
        forall|i: int| 0 <= i < 12 ==> (#[trigger] piece_of_index(i) == p <==> i == p.idx()),
{
}

/// Encoded move: from(6) | to(6) | flags(4).
#[derive(Clone, Copy, PartialEq, Eq, Structural, Debug, Default)]
pub struct Move(pub u32);

pub const FLAG_QUIET: u32 = 0;
pub const FLAG_DOUBLE_PUSH: u32 = 1;
pub const FLAG_CASTLE_K: u32 = 2;
pub const FLAG_CASTLE_Q: u32 = 3;
pub const FLAG_CAPTURE: u32 = 4;
pub const FLAG_EP_CAPTURE: u32 = 5;
pub const FLAG_PROMO: u32 = 8;
pub const FLAG_PROMO_CAP: u32 = 12;

/// The promotion piece encoded by the low two flag bits.
pub open spec fn promo_of_bits(b: int) -> PieceType {
    if b == 0 {
        PieceType::Knight
    } else if b == 1 {
        PieceType::Bishop
    } else if b == 2 {
        PieceType::Rook
    } else {
        PieceType::Queen
    }
}

impl Move {
    pub open spec fn from_spec(self) -> int {
        (self.0 & 0x3F) as int
    }

    pub open spec fn to_spec(self) -> int {
        ((self.0 >> 6u32) & 0x3F) as int
    }

    pub open spec fn flags_spec(self) -> int {
        ((self.0 >> 12u32) & 0xF) as int
    }

    pub open spec fn capture_spec(self) -> bool {
        self.flags_spec() == 4 || self.flags_spec() == 5 || self.flags_spec() == 6
            || self.flags_spec() == 7 || self.flags_spec() >= 12
    }

    pub open spec fn ep_spec(self) -> bool {
        self.flags_spec() == 5
    }

    pub open spec fn castle_spec(self) -> bool {
        self.flags_spec() == 2 || self.flags_spec() == 3
    }

    pub open spec fn promo_spec(self) -> bool {
        self.flags_spec() >= 8
    }

    pub open spec fn promo_piece_spec(self) -> PieceType {
        promo_of_bits(self.flags_spec() % 4)
    }

    pub fn new(from: u8, to: u8, flags: u32) -> (m: Self)
        ensures
            m.0 == (from as u32) | ((to as u32) << 6u32) | (flags << 12u32),
            from < 64 && to < 64 && flags < 16 ==> m.from_spec() == from && m.to_spec() == to
                && m.flags_spec() == flags,
    {
        proof {
            if from < 64 && to < 64 && flags < 16 {
                lemma_move_fields(from as u32, to as u32, flags);
            }
        }
        Self((from as u32) | ((to as u32) << 6) | (flags << 12))
    }

    pub fn new_promo(from: u8, to: u8, promo: PieceType, capture: bool) -> (m: Self)
        requires
            promo != PieceType::Pawn,
        ensures
            ({
                let flag = (if capture { 12u32 } else { 8u32 }) | ((promo.idx() - 1) as u32);
                m.0 == (from as u32) | ((to as u32) << 6u32) | (flag << 12u32)
            }),
            from < 64 && to < 64 && promo != PieceType::King ==> m.from_spec() == from
                && m.to_spec() == to && m.promo_spec() && m.capture_spec() == capture
                && m.promo_piece_spec() == promo,
    {
        let p = promo.index() as u32 - 1;
        let flag = if capture {
            FLAG_PROMO_CAP
        } else {
            FLAG_PROMO
        } | p;
        proof {
            if from < 64 && to < 64 && promo != PieceType::King {
                lemma_or_small(if capture { 12u32 } else { 8u32 }, p);
                lemma_move_fields(from as u32, to as u32, flag);
            }
        }
        Self((from as u32) | ((to as u32) << 6) | (flag << 12))
    }

    pub fn from_sq(self) -> (r: u8)
        ensures
            r == self.from_spec(),
            r < 64,
    {
        proof {
            lemma_mask6(self.0);
        }
        (self.0 & 0x3F) as u8
    }

    pub fn to_sq(self) -> (r: u8)
        ensures
            r == self.to_spec(),
            r < 64,
    {
        proof {
            lemma_mask6(self.0 >> 6u32);
        }
        ((self.0 >> 6) & 0x3F) as u8
    }

    pub fn flags(self) -> (r: u32)
        ensures
            r == self.flags_spec(),
            r < 16,
    {
        proof {
            lemma_mask4(self.0 >> 12u32);
        }
        (self.0 >> 12) & 0xF
    }

    pub fn is_capture(self) -> (r: bool)
        ensures
            r == self.capture_spec(),
    {
        let f = self.flags();
        proof {
            lemma_flag_bits(f);
        }
        f & FLAG_CAPTURE != 0
    }

    pub fn is_ep(self) -> (r: bool)
        ensures
            r == self.ep_spec(),
    {
        self.flags() == FLAG_EP_CAPTURE
    }

    pub fn is_castle(self) -> (r: bool)
        ensures
            r == self.castle_spec(),
    {
        self.flags() == FLAG_CASTLE_K || self.flags() == FLAG_CASTLE_Q
    }

    pub fn is_promotion(self) -> (r: bool)
        ensures
            r == self.promo_spec(),
    {
        let f = self.flags();
        proof {
            lemma_flag_bits(f);
        }
        f & FLAG_PROMO != 0
    }

    pub fn promo_piece(self) -> (p: PieceType)
        ensures
            p == self.promo_piece_spec(),
            p != PieceType::Pawn && p != PieceType::King,
    {
        let f = self.flags();
        proof {
            lemma_flag_bits(f);
        }
        let b = f & 3;
        if b == 0 {
            PieceType::Knight
        } else if b == 1 {
            PieceType::Bishop
        } else if b == 2 {
            PieceType::Rook
        } else {
            PieceType::Queen
        }
    }

    pub fn is_null(self) -> (r: bool)
        ensures
            r == (self.0 == 0),
    {
        self.0 == 0
    }

    /// UCI text of the move, e.g. "e2e4" or "e7e8q".
    pub fn to_uci(self) -> (s: String)
        ensures
            s@ == uci_text(self),
    {
        let mut s = String::new();
        push_square(&mut s, self.from_sq());
        push_square(&mut s, self.to_sq());
        if self.is_promotion() {
            let p = self.promo_piece();
            let c = match p {
                PieceType::Queen => 'q',
                PieceType::Rook => 'r',
                PieceType::Bishop => 'b',
                PieceType::Knight => 'n',
                _ => 'q',
            };
            s.push(c);
        }
        s
    }
}

/// Letter of a promotion piece in UCI notation.
pub open spec fn promo_letter(p: PieceType) -> char {
    match p {
        PieceType::Queen => 'q',
        PieceType::Rook => 'r',
        PieceType::Bishop => 'b',
        PieceType::Knight => 'n',
        _ => 'q',
    }
}

pub open spec fn file_char(sq: int) -> char {
    ((97 + sq % 8) as u8) as char
}

pub open spec fn rank_char(sq: int) -> char {
    ((49 + sq / 8) as u8) as char
}

/// Algebraic name of a square, e.g. "e4".
pub open spec fn square_text(sq: int) -> Seq<char> {
    seq![file_char(sq), rank_char(sq)]
}

pub open spec fn uci_text(m: Move) -> Seq<char> {
    square_text(m.from_spec()) + square_text(m.to_spec()) + if m.promo_spec() {
        seq![promo_letter(m.promo_piece_spec())]
    } else {
        Seq::<char>::empty()
    }
}

pub assume_specification[ std::string::String::push ](string: &mut String, ch: char)
    ensures
        final(string)@ == old(string)@.push(ch),
;

pub(crate) fn push_square(s: &mut String, sq: u8)
    ensures
        final(s)@ == old(s)@ + square_text(sq as int),
{
    let file = (97u8 + sq % 8) as char;
    let rank = (49u8 + sq / 8) as char;
    s.push(file);
    s.push(rank);
    assert(final(s)@ =~= old(s)@ + square_text(sq as int));
}

pub fn sq_to_str(sq: u8) -> (s: String)
    ensures
        s@ == square_text(sq as int),
{
    let mut s = String::new();
    push_square(&mut s, sq);
    s
}

/// The square named by the first two characters of `t`, if they name one.
pub open spec fn square_of_text(t: Seq<char>) -> Option<u8> {
    if t.len() < 2 {
        None
    } else if 'a' <= t[0] <= 'h' && '1' <= t[1] <= '8' {
        Some(((t[1] as int - 49) * 8 + (t[0] as int - 97)) as u8)
    } else {
        None
    }
}

pub fn str_to_sq(s: &str) -> (r: Option<u8>)
    ensures
        r == square_of_text(s@),
        r matches Some(sq) ==> sq < 64,
{
    let n = s.unicode_len();
    if n < 2 {
        return None;
    }
    let f = s.get_char(0);
    let r = s.get_char(1);
    if 'a' <= f && f <= 'h' && '1' <= r && r <= '8' {
        let file = (f as u32 - 97) as u8;
        let rank = (r as u32 - 49) as u8;
        Some(rank * 8 + file)
    } else {
        None
    }
}

/// Reading back the name of a square gives the square.
pub proof fn lemma_square_text_roundtrip(sq: u8)
    requires
        sq < 64,
    ensures
        square_of_text(square_text(sq as int)) == Some(sq),
{
    let t = square_text(sq as int);
    assert(t[0] == file_char(sq as int));
    assert(t[1] == rank_char(sq as int));
    assert((file_char(sq as int) as int) == 97 + sq % 8);
    assert((rank_char(sq as int) as int) == 49 + sq / 8);
}

/// Two moves with the same UCI text share their squares and promotion piece.
pub proof fn lemma_uci_text_determines(m1: Move, m2: Move)
    requires
        uci_text(m1) == uci_text(m2),
    ensures
        m1.from_spec() == m2.from_spec(),
        m1.to_spec() == m2.to_spec(),
        m1.promo_spec() && m2.promo_spec() ==> m1.promo_piece_spec() == m2.promo_piece_spec(),
{
    lemma_move_ranges(m1);
    lemma_move_ranges(m2);
    let t = uci_text(m1);
    lemma_square_text_roundtrip(m1.from_spec() as u8);
    lemma_square_text_roundtrip(m2.from_spec() as u8);
    lemma_square_text_roundtrip(m1.to_spec() as u8);
    lemma_square_text_roundtrip(m2.to_spec() as u8);
    assert(square_text(m1.from_spec()) =~= t.subrange(0, 2));
    assert(square_text(m2.from_spec()) =~= t.subrange(0, 2));
    assert(square_text(m1.to_spec()) =~= t.subrange(2, 4));
    assert(square_text(m2.to_spec()) =~= t.subrange(2, 4));
    if m1.promo_spec() && m2.promo_spec() {
        assert(t[4] == promo_letter(m1.promo_piece_spec()));
        assert(uci_text(m2)[4] == promo_letter(m2.promo_piece_spec()));
    }
}

/// Castling rights bitmask: bit0 = WK, bit1 = WQ, bit2 = BK, bit3 = BQ.
pub const CR_WK: u8 = 1;
pub const CR_WQ: u8 = 2;
pub const CR_BK: u8 = 4;
pub const CR_BQ: u8 = 8;

/// Square value meaning "no en-passant square".
pub const NO_SQ: u8 = 255;

#[derive(Clone, Copy, Debug)]
pub struct Position {
    /// Bitboards indexed by `Piece::bb_index()`.
    pub pieces: [Bitboard; 12],
    /// Combined occupancy per color.
    pub occupancy: [Bitboard; 2],
    pub side: Color,
    pub castling: u8,
    /// En passant target square (255 = none).
    pub ep_sq: u8,
    pub halfmove_clock: u32,
    pub fullmove: u32,
    pub hash: u64,
    /// Square of each king for fast check detection.
    pub king_sq: [u8; 2],
    /// Board array for O(1) piece lookup by square.
    pub board: [Option<Piece>; 64],
}

/// Zobrist key of `p` standing on `sq` (0 for an empty square).
pub open spec fn square_key(p: Option<Piece>, sq: int) -> u64 {
    match p {
        None => 0u64,
        Some(pc) => zkey(pc.idx() * 64 + sq),
    }
}

/// XOR of the keys of the pieces on squares `0..n`.
pub open spec fn board_hash_upto(b: Seq<Option<Piece>>, n: int) -> u64
    decreases n,
{
    if n <= 0 {
        0u64
    } else {
        board_hash_upto(b, n - 1) ^ square_key(b[n - 1], n - 1)
    }
}

pub open spec fn side_hash(side: Color) -> u64 {
    if side == Color::Black {
        zkey(768)
    } else {
        0u64
    }
}

pub open spec fn ep_hash(ep_sq: u8) -> u64 {
    if ep_sq == NO_SQ {
        0u64
    } else {
        zkey(774 + ep_sq % 8)
    }
}

/// The square directly behind `to` from the point of view of `side`
/// (where the pawn came from on a double push, or the pawn taken en passant).
pub open spec fn behind(side: Color, to: int) -> int {
    if side == Color::White {
        to - 8
    } else {
        to + 8
    }
}

impl Position {
    /// Castling rights are only held by a king still on its home square, with
    /// no enemy piece and no king on the rook's home square.
    pub open spec fn castling_ok(&self) -> bool {
        &&& self.castling & 1u8 != 0 ==> self.home_ok(4, 7, Color::White)
        &&& self.castling & 2u8 != 0 ==> self.home_ok(4, 0, Color::White)
        &&& self.castling & 4u8 != 0 ==> self.home_ok(60, 63, Color::Black)
        &&& self.castling & 8u8 != 0 ==> self.home_ok(60, 56, Color::Black)
    }

    pub open spec fn home_ok(&self, king: int, rook: int, c: Color) -> bool {
        &&& self.board@[king] == Some(Piece { kind: PieceType::King, color: c })
        &&& self.board@[rook] is Some ==> (self.board@[rook]->0.color == c
            && self.board@[rook]->0.kind != PieceType::King)
    }

    /// An en-passant square is empty and has the pawn that just passed it behind it.
    pub open spec fn ep_ok(&self) -> bool {
        self.ep_sq == NO_SQ || {
            let e = self.ep_sq as int;
            &&& e < 64
            &&& self.board@[e] is None
            &&& 0 <= behind(self.side, e) < 64
            &&& self.board@[behind(self.side, e)] == Some(
                Piece { kind: PieceType::Pawn, color: self.side.opposite() },
            )
        }
    }

    /// Bitboards and occupancy agree with the board array.
    pub open spec fn consistent(&self) -> bool {
        &&& forall|i: int, sq: int|
            0 <= i < 12 && 0 <= sq < 64 ==> (#[trigger] self.pieces@[i].has(sq) <==> self.board@[sq]
                == Some(piece_of_index(i)))
        &&& forall|c: int, sq: int|
            0 <= c < 2 && 0 <= sq < 64 ==> (#[trigger] self.occupancy@[c].has(sq) <==> (
            self.board@[sq] is Some && self.board@[sq]->0.color.idx() == c))
    }

    /// Each side has exactly one king, and `king_sq` records where it stands.
    pub open spec fn kings_ok(&self) -> bool {
        forall|c: int|
            0 <= c < 2 ==> {
                &&& #[trigger] self.king_sq@[c] < 64
                &&& forall|sq: int|
                    0 <= sq < 64 ==> (#[trigger] self.board@[sq] == Some(
                        Piece { kind: PieceType::King, color: color_of_index(c) },
                    ) <==> sq == self.king_sq@[c])
            }
    }

    /// The Zobrist hash the position should carry.
    pub open spec fn full_hash(&self) -> u64 {
        board_hash_upto(self.board@, 64) ^ side_hash(self.side) ^ castling_hash(self.castling)
            ^ ep_hash(self.ep_sq)
    }

    /// A well-formed position: consistent bitboards, both kings tracked, castling
    /// rights only with the king at home, a real en-passant square and an
    /// up-to-date hash.
    pub open spec fn wf(&self) -> bool {
        &&& self.consistent()
        &&& self.kings_ok()
        &&& self.castling_ok()
        &&& self.ep_ok()
        &&& self.hash == self.full_hash()
    }

    pub open spec fn occupied(&self, sq: int) -> bool {
        0 <= sq < 64 && self.board@[sq] is Some
    }

    pub fn all_occupancy(&self) -> (r: Bitboard)
        ensures
            r.0 == self.occupancy[0].0 | self.occupancy[1].0,
            self.consistent() ==> forall|sq: int| #[trigger] r.has(sq) <==> self.occupied(sq),
    {
        let r = Bitboard(self.occupancy[0].0 | self.occupancy[1].0);
        proof {
            lemma_or_bits(self.occupancy[0].0, self.occupancy[1].0);
            if self.consistent() {
                assert forall|sq: int| #[trigger] r.has(sq) <==> self.occupied(sq) by {
                    if 0 <= sq < 64 {
                        assert(self.occupancy@[0].has(sq) == (self.board@[sq] is Some
                            && self.board@[sq]->0.color.idx() == 0));
                        assert(self.occupancy@[1].has(sq) == (self.board@[sq] is Some
                            && self.board@[sq]->0.color.idx() == 1));
                    }
                }
            }
        }
        r
    }

    /// Removes the piece on `sq`, keeping bitboards and hash in step.
    pub(crate) fn take_piece(&mut self, sq: u8)
        requires
            old(self).consistent(),
            sq < 64,
            old(self).board@[sq as int] is Some,
        ensures
            final(self).consistent(),
            final(self).board@ == old(self).board@.update(sq as int, None),
            final(self).hash == old(self).hash ^ square_key(old(self).board@[sq as int], sq as int),
            final(self).side == old(self).side,
            final(self).castling == old(self).castling,
            final(self).ep_sq == old(self).ep_sq,
            final(self).halfmove_clock == old(self).halfmove_clock,
            final(self).fullmove == old(self).fullmove,
            final(self).king_sq == old(self).king_sq,
    {
        let piece = self.board[sq as usize].unwrap();
        let i = piece.bb_index();
        let c = piece.color.index();
        let ghost old_self = *self;
        let mut b = self.pieces[i];
        b.clear(sq);
        self.pieces[i] = b;
        let mut o = self.occupancy[c];
        o.clear(sq);
        self.occupancy[c] = o;
        self.board[sq as usize] = None;
        self.hash = self.hash ^ zobrist::piece_key(i, sq);
        proof {
            lemma_piece_index_roundtrip(piece);
            assert forall|j: int, s: int|
                0 <= j < 12 && 0 <= s < 64 implies (#[trigger] self.pieces@[j].has(s)
                <==> self.board@[s] == Some(piece_of_index(j))) by {
                assert(old_self.pieces@[j].has(s) <==> old_self.board@[s] == Some(
                    piece_of_index(j),
                ));
            }
            assert forall|cc: int, s: int|
                0 <= cc < 2 && 0 <= s < 64 implies (#[trigger] self.occupancy@[cc].has(s) <==> (
            self.board@[s] is Some && self.board@[s]->0.color.idx() == cc)) by {
                assert(old_self.occupancy@[cc].has(s) <==> (old_self.board@[s] is Some
                    && old_self.board@[s]->0.color.idx() == cc));
            }
        }
    }

    /// Puts `piece` on the empty square `sq`, keeping bitboards and hash in step.
    pub(crate) fn put_piece(&mut self, sq: u8, piece: Piece)
        requires
            old(self).consistent(),
            sq < 64,
            old(self).board@[sq as int] is None,
        ensures
            final(self).consistent(),
            final(self).board@ == old(self).board@.update(sq as int, Some(piece)),
            final(self).hash == old(self).hash ^ square_key(Some(piece), sq as int),
            final(self).side == old(self).side,
            final(self).castling == old(self).castling,
            final(self).ep_sq == old(self).ep_sq,
            final(self).halfmove_clock == old(self).halfmove_clock,
            final(self).fullmove == old(self).fullmove,
            final(self).king_sq == old(self).king_sq,
    {
        let i = piece.bb_index();
        let c = piece.color.index();
        let ghost old_self = *self;
        let mut b = self.pieces[i];
        b.set(sq);
        self.pieces[i] = b;
        let mut o = self.occupancy[c];
        o.set(sq);
        self.occupancy[c] = o;
        self.board[sq as usize] = Some(piece);
        self.hash = self.hash ^ zobrist::piece_key(i, sq);
        proof {
            lemma_piece_index_roundtrip(piece);
            assert forall|j: int, s: int|
                0 <= j < 12 && 0 <= s < 64 implies (#[trigger] self.pieces@[j].has(s)
                <==> self.board@[s] == Some(piece_of_index(j))) by {
                assert(old_self.pieces@[j].has(s) <==> old_self.board@[s] == Some(
                    piece_of_index(j),
                ));
            }
            assert forall|cc: int, s: int|
                0 <= cc < 2 && 0 <= s < 64 implies (#[trigger] self.occupancy@[cc].has(s) <==> (
            self.board@[s] is Some && self.board@[s]->0.color.idx() == cc)) by {
                assert(old_self.occupancy@[cc].has(s) <==> (old_self.board@[s] is Some
                    && old_self.board@[s]->0.color.idx() == cc));
            }
        }
    }
}

// ── hash lemmas ─────────────────────────────────────────────────────────────

pub proof fn lemma_xor_facts(a: u64, b: u64, c: u64)
    by (bit_vector)
    ensures
        a ^ (b ^ c) == (a ^ b) ^ c,
        a ^ b == b ^ a,
        a ^ a == 0,
        a ^ 0 == a,
        0 ^ a == a,
{
}

/// Changing square `k` changes the board hash by the old and new square keys.
pub proof fn lemma_board_hash_update(b: Seq<Option<Piece>>, k: int, v: Option<Piece>, n: int)
    requires
        0 <= k < n <= b.len(),
    ensures
        board_hash_upto(b.update(k, v), n) == board_hash_upto(b, n) ^ square_key(b[k], k)
            ^ square_key(v, k),
    decreases n,
{
    let b2 = b.update(k, v);
    if k == n - 1 {
        assert(board_hash_upto(b2, n - 1) == board_hash_upto(b, n - 1)) by {
            lemma_board_hash_prefix(b, b2, n - 1);
        }
        let h = board_hash_upto(b, n - 1);
        lemma_xor_facts(h, square_key(v, k), square_key(b[k], k));
        lemma_xor_facts(h ^ square_key(b[k], k), square_key(b[k], k), square_key(v, k));
        lemma_xor_facts(h, square_key(b[k], k), square_key(b[k], k));
        lemma_xor_facts(square_key(b[k], k), square_key(b[k], k), square_key(v, k));
        lemma_xor_facts(h, square_key(b[k], k) ^ square_key(b[k], k), square_key(v, k));
        lemma_xor_facts(h, 0, square_key(v, k));
        lemma_xor_facts(0, square_key(v, k), 0);
    } else {
        lemma_board_hash_update(b, k, v, n - 1);
        let h = board_hash_upto(b, n - 1);
        let x = square_key(b[k], k);
        let y = square_key(v, k);
        let z = square_key(b[n - 1], n - 1);
        assert(b2[n - 1] == b[n - 1]);
        lemma_xor_swap3(h, x, y, z);
    }
}

proof fn lemma_xor_swap3(h: u64, x: u64, y: u64, z: u64)
    by (bit_vector)
    ensures
        ((h ^ x) ^ y) ^ z == ((h ^ z) ^ x) ^ y,
{
}

proof fn lemma_board_hash_prefix(b1: Seq<Option<Piece>>, b2: Seq<Option<Piece>>, n: int)
    requires
        0 <= n <= b1.len(),
        n <= b2.len(),
        forall|i: int| 0 <= i < n ==> b1[i] == b2[i],
    ensures
        board_hash_upto(b1, n) == board_hash_upto(b2, n),
    decreases n,
{
    if n > 0 {
        lemma_board_hash_prefix(b1, b2, n - 1);
    }
}

// ── bit lemmas for the move encoding ────────────────────────────────────────

pub proof fn lemma_move_fields(f: u32, t: u32, fl: u32)
    by (bit_vector)
    requires
        f < 64,
        t < 64,
        fl < 16,
    ensures
        (f | (t << 6u32) | (fl << 12u32)) & 0x3F == f,
        ((f | (t << 6u32) | (fl << 12u32)) >> 6u32) & 0x3F == t,
        ((f | (t << 6u32) | (fl << 12u32)) >> 12u32) & 0xF == fl,
{
}

proof fn lemma_or_small(a: u32, p: u32)
    by (bit_vector)
    requires
        a == 8 || a == 12,
        p < 4,
    ensures
        a | p < 16,
        (a | p) >= 8,
        (a | p) % 4 == p,
        ((a | p) >= 12) == (a == 12),
{
}

/// The fields of an encoded move are in range.
pub proof fn lemma_move_ranges(m: Move)
    ensures
        0 <= m.from_spec() < 64,
        0 <= m.to_spec() < 64,
        0 <= m.flags_spec() < 16,
{
    lemma_mask6(m.0);
    lemma_mask6(m.0 >> 6u32);
    lemma_mask4(m.0 >> 12u32);
}

proof fn lemma_mask6(x: u32)
    by (bit_vector)
    ensures
        x & 0x3F < 64,
{
}

proof fn lemma_mask4(x: u32)
    by (bit_vector)
    ensures
        x & 0xF < 16,
{
}

proof fn lemma_flag_bits(f: u32)
    by (bit_vector)
    requires
        f < 16,
    ensures
        (f & 4 != 0) == (f == 4 || f == 5 || f == 6 || f == 7 || f >= 12),
        (f & 8 != 0) == (f >= 8),
        f & 3 == f % 4,
{
}

} // verus!
