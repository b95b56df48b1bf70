//! The transposition table: a fixed-size array of 128-bit packed
//! entries, indexed by hash modulo the table size, with depth-preferred
//! replacement and mate-score normalisation by ply.
//!
//! An entry packs its key, depth, score, bound flag and best move into
//! one word; the field extractors are proved to take apart exactly what
//! the packer put in, so a write followed by a probe of the same key
//! hands the entry back, shifted only by the mate normalisation.

use vstd::prelude::*;

use crate::board::Board;
use crate::moves::Move;
use crate::moves::MoveType;
use crate::piece::PieceType;

verus! {

/// What a stored score means: exact, an upper bound, or a lower bound.
#[derive(Debug, Clone, Copy, PartialEq, Eq, Structural)]
pub enum HashFlags {
    Exsact,
    Alpha,
    Beta,
}

impl HashFlags {
    pub open spec fn idx(self) -> int {
        match self {
            HashFlags::Exsact => 0,
            HashFlags::Alpha => 1,
            HashFlags::Beta => 2,
        }
    }

    pub open spec fn spec_from_index(v: int) -> HashFlags {
        if v == 0 {
            HashFlags::Exsact
        } else if v == 1 {
            HashFlags::Alpha
        } else {
            HashFlags::Beta
        }
    }

    pub fn index(self) -> (r: u8)
        ensures
            r == self.idx(),
    {
        match self {
            HashFlags::Exsact => 0,
            HashFlags::Alpha => 1,
            HashFlags::Beta => 2,
        }
    }

    pub fn from_index(v: u8) -> (r: HashFlags)
        ensures
            r == HashFlags::spec_from_index(v as int),
    {
        if v == 0 {
            HashFlags::Exsact
        } else if v == 1 {
            HashFlags::Alpha
        } else {
            HashFlags::Beta
        }
    }
}

/// One table entry before packing.
#[derive(Debug, Clone, Copy, PartialEq, Eq, Structural)]
pub struct THash {
    pub key: u64,
    pub depth: i32,
    pub score: i32,
    pub flags: HashFlags,
    pub best_move: Move,
}

/// The packed fields: key in bits 0..63, depth in 64..78, score bits in
/// 79..110, flag in 111..112, and the best move's origin, destination
/// and type in 113..118, 119..124 and 125..127.
pub open spec fn th_key(v: u128) -> u64 {
    (v & 0xffff_ffff_ffff_ffff) as u64
}

pub open spec fn th_depth(v: u128) -> i32 {
    ((v >> 64) & 0x7fff) as i32
}

pub open spec fn th_score_bits(v: u128) -> u32 {
    ((v >> 79) & 0xffff_ffff) as u32
}

pub open spec fn th_flags(v: u128) -> u8 {
    ((v >> 111) & 0x3) as u8
}

pub open spec fn th_from(v: u128) -> u32 {
    ((v >> 113) & 0x3f) as u32
}

pub open spec fn th_to(v: u128) -> u32 {
    ((v >> 119) & 0x3f) as u32
}

pub open spec fn th_mt(v: u128) -> u32 {
    ((v >> 125) & 0x7) as u32
}

/// A score as its 32 stored bits: negatives wrap around two to the 32.
pub open spec fn score_to_bits(score: i32) -> u32 {
    if score >= 0 {
        score as u32
    } else {
        (score + 0x1_0000_0000) as u32
    }
}

/// The stored bits back as a score.
pub open spec fn bits_to_score(b: u32) -> i32 {
    if b < 0x8000_0000 {
        b as i32
    } else {
        (b - 0x1_0000_0000) as i32
    }
}

/// Decoding undoes encoding.
pub proof fn lemma_score_bits_roundtrip(s: i32)
    ensures
        bits_to_score(score_to_bits(s)) == s,
{
}

fn score_to_bits_exec(score: i32) -> (r: u32)
    ensures
        r == score_to_bits(score),
{
    if score >= 0 {
        score as u32
    } else {
        ((score as i64) + 0x1_0000_0000) as u32
    }
}

fn bits_to_score_exec(b: u32) -> (r: i32)
    ensures
        r == bits_to_score(b),
{
    if b < 0x8000_0000 {
        b as i32
    } else {
        ((b as i64) - 0x1_0000_0000) as i32
    }
}

proof fn lemma_th_pack(k: u128, d: u128, sc: u128, fl: u128, f: u128, t: u128, mt: u128)
    requires
        k < 0x1_0000_0000_0000_0000,
        d < 0x8000,
        sc < 0x1_0000_0000,
        fl < 4,
        f < 64,
        t < 64,
        mt < 8,
    ensures
        ({
            let v = k | (d << 64) | (sc << 79) | (fl << 111) | (f << 113) | (t << 119) | (mt
                << 125);
            &&& v & 0xffff_ffff_ffff_ffff == k
            &&& (v >> 64) & 0x7fff == d
            &&& (v >> 79) & 0xffff_ffff == sc
            &&& (v >> 111) & 0x3 == fl
            &&& (v >> 113) & 0x3f == f
            &&& (v >> 119) & 0x3f == t
            &&& (v >> 125) & 0x7 == mt
        }),
{
    assert((k < 0x1_0000_0000_0000_0000 && d < 0x8000 && sc < 0x1_0000_0000 && fl < 4 && f < 64 && t
        < 64 && mt < 8) ==> ({
        let v = k | (d << 64) | (sc << 79) | (fl << 111) | (f << 113) | (t << 119) | (mt << 125);
        &&& v & 0xffff_ffff_ffff_ffff == k
        &&& (v >> 64) & 0x7fff == d
        &&& (v >> 79) & 0xffff_ffff == sc
        &&& (v >> 111) & 0x3 == fl
        &&& (v >> 113) & 0x3f == f
        &&& (v >> 119) & 0x3f == t
        &&& (v >> 125) & 0x7 == mt
    })) by (bit_vector);
}

/// All the packed fields of the zero word are zero.
pub proof fn lemma_th_zero()
    ensures
        th_key(0) == 0,
        th_depth(0) == 0,
        th_score_bits(0) == 0,
    {
    assert((0u128 & 0xffff_ffff_ffff_ffff == 0) && ((0u128 >> 64) & 0x7fff == 0) && ((0u128 >> 79)
        & 0xffff_ffff == 0)) by (bit_vector);
}

impl THash {
    pub fn new(key: u64, depth: i32, score: i32, best_move: Move, flags: HashFlags) -> (r: THash)
        ensures
            r == (THash { key, depth, score, flags, best_move }),
    {
        THash { key, depth, score, flags, best_move }
    }

    /// Pack the entry into one 128-bit word. Every field comes back out
    /// through the extractors.
    pub fn into_u128(self) -> (r: u128)
        requires
            0 <= self.depth <= 0x7fff,
        ensures
            th_key(r) == self.key,
            th_depth(r) == self.depth,
            th_score_bits(r) == score_to_bits(self.score),
            th_flags(r) == self.flags.idx(),
            th_from(r) == self.best_move.spec_from(),
            th_to(r) == self.best_move.spec_to(),
            th_mt(r) == self.best_move.spec_move_type().idx(),
    {
        let k = self.key as u128;
        let d = (self.depth as u32) as u128;
        let sc = score_to_bits_exec(self.score) as u128;
        let fl = self.flags.index() as u128;
        let f = self.best_move.from() as u128;
        let t = self.best_move.to() as u128;
        let mtb = self.best_move.move_type().index() as u128;
        let mt = if mtb < 8 {
            mtb
        } else {
            7
        };
        proof {
            lemma_th_pack(k, d, sc, fl, f, t, mt);
        }
        k | (d << 64) | (sc << 79) | (fl << 111) | (f << 113) | (t << 119) | (mt << 125)
    }

    /// The depth field of a packed entry.
    pub fn get_depth(val: u128) -> (r: i32)
        ensures
            r == th_depth(val),
            0 <= r < 0x8000,
    {
        proof {
            assert((val >> 64) & 0x7fff < 0x8000) by (bit_vector);
        }
        ((val >> 64) & 0x7fff) as i32
    }

    /// Unpack an entry; the best move's piece and capture are read back
    /// off the board, since the packed word keeps only its squares.
    pub fn from_u128(board: &Board, val: u128) -> (r: THash)
        requires
            board.wf(),
        ensures
            r.key == th_key(val),
            r.depth == th_depth(val),
            r.score == bits_to_score(th_score_bits(val)),
            r.flags == HashFlags::spec_from_index(th_flags(val) as int),
            r.best_move.spec_from() == th_from(val),
            r.best_move.spec_to() == th_to(val),
            r.best_move.spec_move_type() == MoveType::spec_from_index(th_mt(val) as int),
            r.best_move.spec_piece() == board.pieces@[th_from(val) as int],
            r.best_move.spec_captured() == (if board.pieces@[th_to(val) as int].spec_color()
                != board.current_color {
                board.pieces@[th_to(val) as int].spec_type()
            } else {
                PieceType::Empty
            }),
    {
        proof {
            assert(((val >> 113) & 0x3f < 64) && ((val >> 119) & 0x3f < 64) && ((val >> 125) & 0x7
                < 8) && ((val >> 111) & 0x3 < 4) && ((val >> 64) & 0x7fff < 0x8000) && ((val >> 79)
                & 0xffff_ffff < 0x1_0000_0000)) by (bit_vector);
        }
        let from = ((val >> 113) & 0x3f) as u32;
        let to = ((val >> 119) & 0x3f) as u32;
        let move_type = MoveType::from_index(((val >> 125) & 0x7) as u8);

        let piece = board.piece_at(from as usize);
        let captured_piece = board.piece_at(to as usize);
        let captured = if captured_piece.get_color() != board.current_color {
            captured_piece.get_type()
        } else {
            PieceType::Empty
        };

        THash {
            key: (val & 0xffff_ffff_ffff_ffff) as u64,
            depth: ((val >> 64) & 0x7fff) as i32,
            score: bits_to_score_exec(((val >> 79) & 0xffff_ffff) as u32),
            flags: HashFlags::from_index(((val >> 111) & 0x3) as u8),
            best_move: Move::new(from, to, move_type, piece, captured),
        }
    }
}

/// The table: packed entries, indexed by key modulo the length.
pub struct TTable {
    pub entries: Vec<u128>,
}

impl TTable {
    /// The table is never empty, and every stored score fits the range
    /// the mate normalisation needs.
    pub open spec fn wf(self) -> bool {
        &&& self.entries.len() >= 1
        &&& forall|i: int|
            0 <= i < self.entries.len() ==> (bits_to_score(th_score_bits(
                #[trigger] self.entries[i],
            )) <= 60000 && bits_to_score(th_score_bits(self.entries[i])) >= -60000)
    }

    /// A table of `size` bytes, sixteen per entry, at least one entry.
    pub fn new(size: usize) -> (r: TTable)
        ensures
            r.wf(),
            r.entries.len() == if size / 16 >= 1 {
                (size / 16) as int
            } else {
                1int
            },
            forall|i: int| 0 <= i < r.entries.len() ==> #[trigger] r.entries[i] == 0,
    {
        let num = if size / 16 >= 1 {
            size / 16
        } else {
            1
        };
        let mut entries: Vec<u128> = Vec::new();
        while entries.len() < num
            invariant
                entries.len() <= num,
                forall|i: int| 0 <= i < entries.len() ==> #[trigger] entries[i] == 0,
            decreases num - entries.len(),
        {
            entries.push(0);
        }
        proof {
            lemma_th_zero();
        }
        TTable { entries }
    }

    /// Drop every entry and size the table anew.
    pub fn resize(&mut self, new_size: usize)
        ensures
            final(self).wf(),
            final(self).entries.len() == if new_size / 16 >= 1 {
                (new_size / 16) as int
            } else {
                1int
            },
            forall|i: int| 0 <= i < final(self).entries.len() ==> #[trigger] final(self).entries[i]
                == 0,
    {
        let fresh = TTable::new(new_size);
        self.entries = fresh.entries;
    }

    /// Drop every entry.
    pub fn clear(&mut self)
        requires
            old(self).wf(),
        ensures
            final(self).wf(),
            final(self).entries.len() == old(self).entries.len(),
            forall|i: int| 0 <= i < final(self).entries.len() ==> #[trigger] final(self).entries[i]
                == 0,
    {
        let n = self.entries.len();
        let mut i: usize = 0;
        while i < n
            invariant
                i <= n,
                self.entries.len() == n,
                forall|j: int| 0 <= j < i ==> #[trigger] self.entries[j] == 0,
            decreases n - i,
    {
            self.entries[i] = 0;
            i = i + 1;
        }
        proof {
            lemma_th_zero();
        }
    }

    /// The mate normalisation applied on a write: mate scores move away
    /// from zero by the ply, so they are stored relative to the position.
    pub open spec fn spec_adjusted_score(score: i32, ply: u32) -> int {
        if score > 48000 {
            score + ply
        } else if score < -48000 {
            score - ply
        } else {
            score as int
        }
    }

    /// The mate normalisation undoes itself: adjusting a score by the
    /// ply on the way in and back on the way out returns it unchanged,
    /// so a write followed by a probe of the same key at the same ply
    /// hands the written score back.
    pub proof fn lemma_mate_adjust_roundtrip(score: i32, ply: u32)
        requires
            -50000 <= score <= 50000,
            ply <= 1024,
        ensures
            ({
                let s = Self::spec_adjusted_score(score, ply);
                (if s > 48000 {
                    s - ply
                } else if s < -48000 {
                    s + ply
                } else {
                    s
                }) == score
            }),
    {
    }

    /// Store an entry at its key's slot, unless a deeper entry already
    /// sits there. The stored word's fields are the entry's, with the
    /// score mate-normalised by `ply`.
    pub fn write_entry(&mut self, entry: THash, ply: u32)
        requires
            old(self).wf(),
            0 <= entry.depth <= 0x7fff,
            -50000 <= entry.score <= 50000,
            ply <= 1024,
        ensures
            final(self).wf(),
            final(self).entries.len() == old(self).entries.len(),
            ({
                let idx = (entry.key as int) % (old(self).entries.len() as int);
                let stored = final(self).entries[idx];
                &&& (forall|j: int|
                    0 <= j < old(self).entries.len() && j != idx ==> #[trigger] final(self).entries[j]
                        == old(self).entries[j])
                &&& entry.depth >= th_depth(old(self).entries[idx]) ==> {
                    &&& th_key(stored) == entry.key
                    &&& th_depth(stored) == entry.depth
                    &&& bits_to_score(th_score_bits(stored)) == Self::spec_adjusted_score(
                        entry.score,
                        ply,
                    )
                    &&& th_flags(stored) == entry.flags.idx()
                    &&& th_from(stored) == entry.best_move.spec_from()
                    &&& th_to(stored) == entry.best_move.spec_to()
                }
                &&& entry.depth < th_depth(old(self).entries[idx]) ==> stored == old(self).entries[idx]
            }),
    {
        let mut adjusted = entry;
        if adjusted.score > 48000 {
            adjusted.score = adjusted.score + (ply as i32);
        } else if adjusted.score < -48000 {
            adjusted.score = adjusted.score - (ply as i32);
        }

        let len = self.entries.len();
        let idx = (entry.key % (len as u64)) as usize;
        proof {
            assert((entry.key as int) % (len as int) < len as int && (entry.key as int) % (
            len as int) >= 0);
        }
        proof {
            lemma_score_bits_roundtrip(adjusted.score);
            assert(bits_to_score(th_score_bits(old(self).entries[idx as int])) <= 60000
                && bits_to_score(th_score_bits(old(self).entries[idx as int])) >= -60000);
        }
        let stored_depth = THash::get_depth(self.entries[idx]);
        if adjusted.depth >= stored_depth {
            let packed = adjusted.into_u128();
            self.entries[idx] = packed;
        }
        proof {
            assert forall|i: int|
                0 <= i < self.entries.len() implies (bits_to_score(th_score_bits(
                #[trigger] self.entries[i],
            )) <= 60000 && bits_to_score(th_score_bits(self.entries[i])) >= -60000) by {
                if i != idx as int {
                    assert(self.entries[i] == old(self).entries[i]);
                }
            }
        }
    }

    /// Look the key's slot up: the entry comes back only when its key
    /// matches, with the mate normalisation undone by `ply`.
    pub fn probe_entry(&self, board: &Board, key: u64, ply: u32) -> (r: Option<THash>)
        requires
            self.wf(),
            board.wf(),
            ply <= 1024,
        ensures
            ({
                let idx = (key as int) % (self.entries.len() as int);
                let v = self.entries[idx];
                &&& (r is Some <==> th_key(v) == key)
                &&& r is Some ==> {
                    let e = r.unwrap();
                    &&& e.key == key
                    &&& e.depth == th_depth(v)
                    &&& e.score == if bits_to_score(th_score_bits(v)) > 48000 {
                        bits_to_score(th_score_bits(v)) - ply
                    } else if bits_to_score(th_score_bits(v)) < -48000 {
                        bits_to_score(th_score_bits(v)) + ply
                    } else {
                        bits_to_score(th_score_bits(v)) as int
                    }
                    &&& e.flags == HashFlags::spec_from_index(th_flags(v) as int)
                    &&& e.best_move.spec_from() == th_from(v)
                    &&& e.best_move.spec_to() == th_to(v)
                }
            }),
    {
        let len = self.entries.len();
        let idx = (key % (len as u64)) as usize;
        proof {
            assert((key as int) % (len as int) < len as int && (key as int) % (len as int) >= 0);
        }
        proof {
            assert(bits_to_score(th_score_bits(self.entries[idx as int])) <= 60000
                && bits_to_score(th_score_bits(self.entries[idx as int])) >= -60000);
        }
        let mut hash_entry = THash::from_u128(board, self.entries[idx]);

        if hash_entry.score > 48000 {
            hash_entry.score = hash_entry.score - (ply as i32);
        } else if hash_entry.score < -48000 {
            hash_entry.score = hash_entry.score + (ply as i32);
        }

        if hash_entry.key == key {
            Some(hash_entry)
        } else {
            None
        }
    }
}

} // verus!
