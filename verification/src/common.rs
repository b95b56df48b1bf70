//! Small bit-twiddling helpers: walking the set bits of a word, and the
//! per-colour bitboard bundle.

use vstd::prelude::*;

use vstd::std_specs::bits::axiom_u64_trailing_zeros;

use crate::bitboards::bit64;
use crate::bitboards::lemma_bit_clear_one;
use crate::bitboards::lemma_bit_or_one;

verus! {

/// Walks the set bits of a word, lowest first.
pub struct BitsIterator {
    pub bits: u64,
}

impl BitsIterator {
    pub fn new(bits: u64) -> (r: BitsIterator)
        ensures
            r.bits == bits,
    {
        BitsIterator { bits }
    }

    /// The lowest remaining set bit's index, or `None` when none is left.
    pub fn next(&mut self) -> (r: Option<u32>)
        ensures
            old(self).bits == 0 ==> r is None && final(self).bits == 0,
            old(self).bits != 0 ==> ({
                let index = r.unwrap();
                &&& r is Some
                &&& index < 64
                &&& bit64(old(self).bits, index as u64)
                &&& final(self).bits == old(self).bits & !(1u64 << (index as u64))
                &&& final(self).bits < old(self).bits
            }),
    {
        if self.bits == 0 {
            None
        } else {
            proof {
                axiom_u64_trailing_zeros(self.bits);
            }
            let index = self.bits.trailing_zeros();
            proof {
                crate::bitboards::lemma_clear_bit_decreases(self.bits, index as u64);
            }
            self.bits = self.bits & !(1u64 << index);
            Some(index)
        }
    }
}

/// Single-bit edits on a word of squares.
pub trait BitManipulation {
    fn set_bit(&mut self, index: u32)
        requires
            index < 64,
    ;

    fn clear_bit(&mut self, index: u32)
        requires
            index < 64,
    ;

    fn flip_bit(&mut self, index: u32)
        requires
            index < 64,
    ;

    fn iter_ones(&self) -> BitsIterator;
}

impl BitManipulation for u64 {
    fn set_bit(&mut self, index: u32)
        ensures
            *final(self) == *old(self) | (1u64 << (index as u64)),
            forall|j: u64|
                j < 64 ==> bit64(*final(self), j) == (j == index || bit64(*old(self), j)),
    {
        *self = *self | (1u64 << index);
        proof {
            assert forall|j: u64|
                j < 64 implies bit64(*self, j) == (j == index || bit64(*old(self), j)) by {
                lemma_bit_or_one(*old(self), index as u64, j);
            }
        }
    }

    fn clear_bit(&mut self, index: u32)
        ensures
            *final(self) == *old(self) & !(1u64 << (index as u64)),
            forall|j: u64|
                j < 64 ==> bit64(*final(self), j) == (j != index && bit64(*old(self), j)),
    {
        *self = *self & !(1u64 << index);
        proof {
            assert forall|j: u64|
                j < 64 implies bit64(*self, j) == (j != index && bit64(*old(self), j)) by {
                lemma_bit_clear_one(*old(self), index as u64, j);
            }
        }
    }

    fn flip_bit(&mut self, index: u32)
        ensures
            *final(self) == *old(self) ^ (1u64 << (index as u64)),
    {
        *self = *self ^ (1u64 << index);
    }

    fn iter_ones(&self) -> (r: BitsIterator)
        ensures
            r.bits == *self,
    {
        BitsIterator { bits: *self }
    }
}

/// One colour's six piece masks beside their union.
#[derive(Debug, Clone, Copy)]
pub struct PiecesBitBoards {
    pub pieces: [u64; 6],
    pub occupancy: u64,
}

impl PiecesBitBoards {
    pub fn get_occupancy(&self) -> (r: u64)
        ensures
            r == self.occupancy,
    {
        self.occupancy
    }

    /// The mask of one piece type, by its numeric encoding.
    pub fn piece_mask(&self, piece_type: usize) -> (r: u64)
        requires
            piece_type < 6,
        ensures
            r == self.pieces[piece_type as int],
    {
        self.pieces[piece_type]
    }
}

} // verus!
