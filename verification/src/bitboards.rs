//! Piece bitboards: twelve 64-bit masks, one per colored piece, plus one
//! occupancy mask per colour.
//!
//! Bit `s` of a mask stands for square `s`. The well-formedness predicate
//! ties every mask to a mailbox picture of the position: each square holds
//! at most one piece, and the occupancy masks are the unions of their
//! colour's piece masks.

use vstd::prelude::*;

use crate::piece::Piece;
use crate::piece::PieceColor;

verus! {

/// Whether bit `i` of `x` is set.
pub open spec fn bit64(x: u64, i: u64) -> bool {
    (x >> i) & 1 == 1
}

pub proof fn lemma_bit_or_one(x: u64, s: u64, j: u64)
    requires
        s < 64,
        j < 64,
    ensures
        bit64(x | (1u64 << s), j) == (j == s || bit64(x, j)),
{
    assert((s < 64 && j < 64) ==> (((x | (1u64 << s)) >> j) & 1 == 1) == (j == s || (x >> j) & 1
        == 1)) by (bit_vector);
}

pub proof fn lemma_bit_clear_one(x: u64, s: u64, j: u64)
    requires
        s < 64,
        j < 64,
    ensures
        bit64(x & !(1u64 << s), j) == (j != s && bit64(x, j)),
{
    assert((s < 64 && j < 64) ==> (((x & !(1u64 << s)) >> j) & 1 == 1) == (j != s && (x >> j) & 1
        == 1)) by (bit_vector);
}

pub proof fn lemma_bit_test(x: u64, s: u64)
    requires
        s < 64,
    ensures
        (x & (1u64 << s) != 0) == bit64(x, s),
{
    assert(s < 64 ==> (x & (1u64 << s) != 0) == ((x >> s) & 1 == 1)) by (bit_vector);
}

pub proof fn lemma_bit_or(a: u64, b: u64, j: u64)
    requires
        j < 64,
    ensures
        bit64(a | b, j) == (bit64(a, j) || bit64(b, j)),
{
    assert(j < 64 ==> (((a | b) >> j) & 1 == 1) == ((a >> j) & 1 == 1 || (b >> j) & 1 == 1))
        by (bit_vector);
}

pub proof fn lemma_bit_and(a: u64, b: u64, j: u64)
    requires
        j < 64,
    ensures
        bit64(a & b, j) == (bit64(a, j) && bit64(b, j)),
{
    assert(j < 64 ==> (((a & b) >> j) & 1 == 1) == ((a >> j) & 1 == 1 && (b >> j) & 1 == 1))
        by (bit_vector);
}

pub proof fn lemma_bit_not(a: u64, j: u64)
    requires
        j < 64,
    ensures
        bit64(!a, j) == !bit64(a, j),
{
    assert(j < 64 ==> (((!a) >> j) & 1 == 1) == !((a >> j) & 1 == 1)) by (bit_vector);
}

pub proof fn lemma_bit_zero(j: u64)
    ensures
        !bit64(0u64, j),
{
    assert((0u64 >> j) & 1 == 0) by (bit_vector);
}

/// Clearing a set bit makes the word strictly smaller.
pub proof fn lemma_clear_bit_decreases(x: u64, t: u64)
    requires
        t < 64,
        (x >> t) & 1 == 1,
    ensures
        (x & !(1u64 << t)) < x,
{
    assert(((x >> t) & 1 == 1 && t < 64) ==> (x & !(1u64 << t)) < x) by (bit_vector);
}

/// A word with no set bit below 64 is zero.
pub proof fn lemma_all_bits_clear(x: u64)
    requires
        forall|j: u64| j < 64 ==> !bit64(x, j),
    ensures
        x == 0,
{
    if x != 0 {
        vstd::std_specs::bits::axiom_u64_trailing_zeros(x);
        let t = vstd::std_specs::bits::u64_trailing_zeros(x);
        assert(bit64(x, t as u64));
    }
}

/// Two words with the same bits below 64 are equal.
pub proof fn lemma_bits_eq(x: u64, y: u64)
    requires
        forall|j: u64| j < 64 ==> bit64(x, j) == bit64(y, j),
    ensures
        x == y,
{
    assert forall|j: u64| j < 64 implies !bit64(x ^ y, j) by {
        assert(bit64(x, j) == bit64(y, j));
        assert(j < 64 ==> (((x ^ y) >> j) & 1 == 1) == (((x >> j) & 1 == 1) != ((y >> j) & 1 == 1)))
            by (bit_vector);
    }
    lemma_all_bits_clear(x ^ y);
    assert(x ^ y == 0 ==> x == y) by (bit_vector);
}

#[derive(Debug, Clone)]
pub struct BitBoards {
    pub pieces: [u64; 12],
    pub occupancy: [u64; 2],
}

impl BitBoards {
    /// The mailbox a set of bitboards pictures: the lowest-numbered piece
    /// mask holding the square's bit wins, as `piece_at` scans them.
    pub open spec fn spec_piece_scan(self, sq: int, i: int) -> Piece
        decreases 12 - i,
    {
        if i >= 12 {
            Piece::Empty
        } else if bit64(self.pieces[i], sq as u64) {
            Piece::spec_from_index(i)
        } else {
            self.spec_piece_scan(sq, i + 1)
        }
    }

    pub open spec fn spec_piece_at(self, sq: int) -> Piece {
        self.spec_piece_scan(sq, 0)
    }

    /// The boards agree with a mailbox: bit `sq` of the mask of piece `p`
    /// is set exactly when the mailbox holds `p` on `sq`, and an occupancy
    /// bit is set exactly when the mailbox holds a piece of that colour.
    pub open spec fn wf_with(self, mb: Seq<Piece>) -> bool {
        &&& mb.len() == 64
        &&& forall|sq: int, p: int|
            0 <= sq < 64 && 0 <= p < 12 ==> (#[trigger] bit64(self.pieces[p], sq as u64) <==> mb[sq]
                == Piece::spec_from_index(p))
        &&& forall|sq: int, c: int|
            0 <= sq < 64 && 0 <= c < 2 ==> (#[trigger] bit64(self.occupancy[c], sq as u64) <==> (
            mb[sq] != Piece::Empty && mb[sq].spec_color().idx() == c))
    }

    pub fn new_empty() -> (r: BitBoards)
        ensures
            r.pieces@ == Seq::new(12, |i: int| 0u64),
            r.occupancy@ == Seq::new(2, |i: int| 0u64),
            r.wf_with(Seq::new(64, |i: int| Piece::Empty)),
    {
        let r = BitBoards { pieces: [0u64; 12], occupancy: [0u64; 2] };
        proof {
            assert(r.pieces@ =~= Seq::new(12, |i: int| 0u64));
            assert(r.occupancy@ =~= Seq::new(2, |i: int| 0u64));
            assert forall|j: u64| j < 64 implies !bit64(0u64, j) by {
                lemma_bit_zero(j);
            }
        }
        r
    }

    /// Occupancy of one colour.
    pub fn col_occupancy(&self, color: PieceColor) -> (r: u64)
        ensures
            r == self.occupancy[color.idx()],
    {
        self.occupancy[color.index()]
    }

    /// Occupancy of both colours together.
    pub fn occupancy(&self) -> (r: u64)
        ensures
            r == self.occupancy[0] | self.occupancy[1],
    {
        self.occupancy[0] | self.occupancy[1]
    }

    /// Set the piece's bit and its colour's occupancy bit on `sq`.
    pub fn set_piece(&mut self, sq: usize, piece: Piece)
        requires
            sq < 64,
            piece != Piece::Empty,
        ensures
            final(self).pieces@ == old(self).pieces@.update(
                piece.idx(),
                old(self).pieces[piece.idx()] | (1u64 << (sq as u64)),
            ),
            final(self).occupancy@ == old(self).occupancy@.update(
                piece.spec_color().idx(),
                old(self).occupancy[piece.spec_color().idx()] | (1u64 << (sq as u64)),
            ),
    {
        let color = piece.get_color();
        let c = color.index();
        let p = piece.index();
        self.occupancy[c] = self.occupancy[c] | (1u64 << sq);
        self.pieces[p] = self.pieces[p] | (1u64 << sq);
    }

    /// Clear the piece's bit and its colour's occupancy bit on `sq`.
    pub fn clear_piece(&mut self, sq: usize, piece: Piece)
        requires
            sq < 64,
            piece != Piece::Empty,
        ensures
            final(self).pieces@ == old(self).pieces@.update(
                piece.idx(),
                old(self).pieces[piece.idx()] & !(1u64 << (sq as u64)),
            ),
            final(self).occupancy@ == old(self).occupancy@.update(
                piece.spec_color().idx(),
                old(self).occupancy[piece.spec_color().idx()] & !(1u64 << (sq as u64)),
            ),
    {
        let color = piece.get_color();
        let c = color.index();
        let p = piece.index();
        self.occupancy[c] = self.occupancy[c] & !(1u64 << sq);
        self.pieces[p] = self.pieces[p] & !(1u64 << sq);
    }

    /// Clear square `sq` in every piece mask and both occupancy masks.
    pub fn clear_square(&mut self, sq: usize)
        requires
            sq < 64,
        ensures
            final(self).pieces@.len() == 12,
            forall|i: int|
                0 <= i < 12 ==> final(self).pieces[i] == old(self).pieces[i] & !(1u64 << (
                sq as u64)),
            final(self).occupancy@ == old(self).occupancy@.update(
                0,
                old(self).occupancy[0] & !(1u64 << (sq as u64)),
            ).update(1, old(self).occupancy[1] & !(1u64 << (sq as u64))),
    {
        self.occupancy[0] = self.occupancy[0] & !(1u64 << sq);
        self.occupancy[1] = self.occupancy[1] & !(1u64 << sq);
        let mut i: usize = 0;
        while i < 12
            invariant
                i <= 12,
                sq < 64,
                self.pieces@.len() == 12,
                forall|k: int|
                    0 <= k < i ==> self.pieces[k] == old(self).pieces[k] & !(1u64 << (sq as u64)),
                forall|k: int| i <= k < 12 ==> self.pieces[k] == old(self).pieces[k],
                self.occupancy@ == old(self).occupancy@.update(
                    0,
                    old(self).occupancy[0] & !(1u64 << (sq as u64)),
                ).update(1, old(self).occupancy[1] & !(1u64 << (sq as u64))),
            decreases 12 - i,
    {
            self.pieces[i] = self.pieces[i] & !(1u64 << sq);
            i = i + 1;
        }
    }

    /// The piece on `sq`: the first piece mask holding its bit, or `Empty`.
    pub fn piece_at(&self, sq: usize) -> (r: Piece)
        requires
            sq < 64,
        ensures
            r == self.spec_piece_at(sq as int),
    {
        let mut i: usize = 0;
        while i < 12
            invariant
                i <= 12,
                sq < 64,
                self.spec_piece_at(sq as int) == self.spec_piece_scan(sq as int, i as int),
            decreases 12 - i,
        {
            proof {
                lemma_bit_test(self.pieces[i as int], sq as u64);
            }
            if self.pieces[i] & (1u64 << sq) != 0 {
                return Piece::from_index(i as u8);
            }
            i = i + 1;
        }
        Piece::Empty
    }

    /// Spell the position out square by square.
    pub fn to_mailbox(&self) -> (r: Vec<Piece>)
        ensures
            r.len() == 64,
            forall|sq: int| 0 <= sq < 64 ==> r[sq] == self.spec_piece_at(sq),
    {
        let mut r: Vec<Piece> = Vec::new();
        let mut sq: usize = 0;
        while sq < 64
            invariant
                sq <= 64,
                r.len() == sq,
                forall|j: int| 0 <= j < sq ==> r[j] == self.spec_piece_at(j),
            decreases 64 - sq,
        {
            r.push(self.piece_at(sq));
            sq = sq + 1;
        }
        r
    }
}

} // verus!
