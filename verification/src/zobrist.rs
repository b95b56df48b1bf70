//! Zobrist hashing: pseudo-random key tables and the hash a position owes.
//!
//! A board's hash is the XOR of one key per piece-on-square, a key per
//! castle-flag combination, a key for the en-passant square if one is set,
//! and a side key when Black is to move. The tables are drawn once from
//! seeded pseudo-random generators; every hashing law here holds whatever
//! values the generator returns.

use vstd::prelude::*;

use rand::RngCore;
use rand::SeedableRng;

use crate::piece::Piece;
use crate::piece::PieceColor;

verus! {

#[verifier::external_type_specification]
#[verifier::external_body]
pub struct ExStdRng(rand::rngs::StdRng);

/// Relies on rand's `StdRng::seed_from_u64` to build a generator from a
/// fixed seed. Nothing is assumed about the stream it produces.
#[verifier::external_body]
fn rng_from_seed(seed: u64) -> rand::rngs::StdRng {
    rand::rngs::StdRng::seed_from_u64(seed)
}

/// Relies on rand's `RngCore::next_u64` for the next word of the stream.
/// Nothing is assumed about the value.
#[verifier::external_body]
fn rng_next_u64(rng: &mut rand::rngs::StdRng) -> u64 {
    rng.next_u64()
}

/// Draw `n` words from a generator.
fn fill_keys(rng: &mut rand::rngs::StdRng, n: usize) -> (r: Vec<u64>)
    ensures
        r.len() == n,
{
    let mut keys: Vec<u64> = Vec::new();
    while keys.len() < n
        invariant
            keys.len() <= n,
        decreases n - keys.len(),
    {
        keys.push(rng_next_u64(rng));
    }
    keys
}

/// The key tables: one key per (piece, square), per en-passant square,
/// per castle-flag combination, and one side-to-move key.
pub struct ZobristKeys {
    pub piece_keys: Vec<u64>,
    pub double_push_keys: Vec<u64>,
    pub castle_keys: Vec<u64>,
    pub side_key: u64,
}

impl ZobristKeys {
    pub open spec fn wf(self) -> bool {
        &&& self.piece_keys.len() == 768
        &&& self.double_push_keys.len() == 64
        &&& self.castle_keys.len() == 16
    }

    /// The key of a colored piece standing on a square.
    pub open spec fn spec_piece_key(self, p: Piece, sq: int) -> u64 {
        self.piece_keys[p.idx() * 64 + sq]
    }

    /// What a square contributes to the piece part of the hash.
    pub open spec fn spec_square_key(self, mb: Seq<Piece>, sq: int) -> u64 {
        if mb[sq] == Piece::Empty {
            0
        } else {
            self.spec_piece_key(mb[sq], sq)
        }
    }

    /// XOR of the keys of the first `n` squares of a mailbox.
    pub open spec fn spec_piece_hash_upto(self, mb: Seq<Piece>, n: int) -> u64
        decreases n,
    {
        if n <= 0 {
            0
        } else {
            self.spec_piece_hash_upto(mb, n - 1) ^ self.spec_square_key(mb, n - 1)
        }
    }

    /// The full hash a position owes: pieces, castle flags, en-passant
    /// square, and the side key when Black moves.
    pub open spec fn spec_zobrist_of(
        self,
        mb: Seq<Piece>,
        castle: u8,
        ep: Option<u32>,
        stm: PieceColor,
    ) -> u64 {
        self.spec_piece_hash_upto(mb, 64) ^ self.castle_keys[castle as int] ^ (match ep {
            Some(s) => self.double_push_keys[s as int],
            None => 0,
        }) ^ (if stm == PieceColor::Black {
            self.side_key
        } else {
            0
        })
    }

    /// Draw the whole table set from fixed seeds.
    pub fn new() -> (r: ZobristKeys)
        ensures
            r.wf(),
    {
        let mut piece_rng = rng_from_seed(123456);
        let piece_keys = fill_keys(&mut piece_rng, 768);
        let mut dp_rng = rng_from_seed(789012);
        let double_push_keys = fill_keys(&mut dp_rng, 64);
        let mut castle_rng = rng_from_seed(345678);
        let castle_keys = fill_keys(&mut castle_rng, 16);
        let mut side_rng = rng_from_seed(901234);
        let side_key = rng_next_u64(&mut side_rng);
        ZobristKeys { piece_keys, double_push_keys, castle_keys, side_key }
    }

    pub fn piece_key(&self, p: Piece, sq: usize) -> (r: u64)
        requires
            self.wf(),
            p != Piece::Empty,
            sq < 64,
        ensures
            r == self.spec_piece_key(p, sq as int),
    {
        self.piece_keys[p.index() * 64 + sq]
    }

    pub fn double_push_key(&self, sq: usize) -> (r: u64)
        requires
            self.wf(),
            sq < 64,
        ensures
            r == self.double_push_keys[sq as int],
    {
        self.double_push_keys[sq]
    }

    pub fn castle_key(&self, flags: u8) -> (r: u64)
        requires
            self.wf(),
            flags < 16,
        ensures
            r == self.castle_keys[flags as int],
    {
        self.castle_keys[flags as usize]
    }

    pub fn side(&self) -> (r: u64)
        ensures
            r == self.side_key,
    {
        self.side_key
    }
}

pub proof fn lemma_xor_shuffle(a: u64, b: u64, c: u64, d: u64)
    ensures
        ((a ^ b) ^ c) ^ d == ((a ^ d) ^ b) ^ c,
{
    assert(((a ^ b) ^ c) ^ d == ((a ^ d) ^ b) ^ c) by (bit_vector);
}

pub proof fn lemma_xor_cancel(a: u64, b: u64, c: u64)
    ensures
        ((a ^ b) ^ b) ^ c == a ^ c,
        (a ^ b) ^ b == a,
        a ^ 0 == a,
        0 ^ a == a,
{
    assert(((a ^ b) ^ b) ^ c == a ^ c && (a ^ b) ^ b == a && a ^ 0 == a && 0 ^ a == a)
        by (bit_vector);
}

/// The piece part of the hash reads only the first `n` squares.
pub proof fn lemma_piece_hash_congruence(keys: ZobristKeys, mb1: Seq<Piece>, mb2: Seq<Piece>, n: int)
    requires
        forall|j: int| 0 <= j < n ==> mb1[j] == mb2[j],
    ensures
        keys.spec_piece_hash_upto(mb1, n) == keys.spec_piece_hash_upto(mb2, n),
    decreases n,
{
    if n > 0 {
        lemma_piece_hash_congruence(keys, mb1, mb2, n - 1);
    }
}

/// Changing one square changes the piece hash by exactly the XOR of that
/// square's old and new keys.
pub proof fn lemma_piece_hash_update(
    keys: ZobristKeys,
    mb1: Seq<Piece>,
    mb2: Seq<Piece>,
    s: int,
    n: int,
)
    requires
        0 <= s < n <= 64,
        forall|j: int| 0 <= j < 64 && j != s ==> mb1[j] == mb2[j],
    ensures
        keys.spec_piece_hash_upto(mb2, n) == (keys.spec_piece_hash_upto(mb1, n)
            ^ keys.spec_square_key(mb1, s)) ^ keys.spec_square_key(mb2, s),
    decreases n,
{
    let k1 = keys.spec_square_key(mb1, s);
    let k2 = keys.spec_square_key(mb2, s);
    if n - 1 > s {
        lemma_piece_hash_update(keys, mb1, mb2, s, n - 1);
        let h = keys.spec_piece_hash_upto(mb1, n - 1);
        let k = keys.spec_square_key(mb1, n - 1);
        assert(keys.spec_square_key(mb2, n - 1) == k);
        lemma_xor_shuffle(h, k1, k2, k);
    } else {
        assert(n - 1 == s);
        lemma_piece_hash_congruence(keys, mb1, mb2, s);
        let h = keys.spec_piece_hash_upto(mb1, s);
        lemma_xor_cancel(h, k1, k2);
    }
}

} // verus!
