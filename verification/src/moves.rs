//! The packed move encoding.
//!
//! A move packs into one 32-bit word: destination in bits 0..5, origin in
//! bits 6..11, the move type in bits 12..15, the moving (or promoted) piece
//! in bits 16..19 and the captured piece type in bits 20..22.

use vstd::prelude::*;

use crate::piece::Piece;
use crate::piece::PieceType;

verus! {

#[derive(Debug, Clone, Copy, PartialEq, Eq, Structural)]
pub enum MoveType {
    QuietMove,
    DoublePush,
    KingCastle,
    QueenCastle,
    Capture,
    EnPassantCapture,
    Promote,
}

impl MoveType {
    /// Numeric encoding, `QuietMove` 0 through `Promote` 6.
    pub open spec fn idx(self) -> int {
        match self {
            MoveType::QuietMove => 0,
            MoveType::DoublePush => 1,
            MoveType::KingCastle => 2,
            MoveType::QueenCastle => 3,
            MoveType::Capture => 4,
            MoveType::EnPassantCapture => 5,
            MoveType::Promote => 6,
        }
    }

    pub open spec fn spec_from_index(v: int) -> MoveType {
        if v == 0 {
            MoveType::QuietMove
        } else if v == 1 {
            MoveType::DoublePush
        } else if v == 2 {
            MoveType::KingCastle
        } else if v == 3 {
            MoveType::QueenCastle
        } else if v == 4 {
            MoveType::Capture
        } else if v == 5 {
            MoveType::EnPassantCapture
        } else {
            MoveType::Promote
        }
    }

    pub fn index(self) -> (r: usize)
        ensures
            r == self.idx(),
    {
        match self {
            MoveType::QuietMove => 0,
            MoveType::DoublePush => 1,
            MoveType::KingCastle => 2,
            MoveType::QueenCastle => 3,
            MoveType::Capture => 4,
            MoveType::EnPassantCapture => 5,
            MoveType::Promote => 6,
        }
    }

    /// Decode a numeric move type; values above 6 give `Promote`.
    pub fn from_index(v: u8) -> (r: MoveType)
        ensures
            r == MoveType::spec_from_index(v as int),
    {
        if v == 0 {
            MoveType::QuietMove
        } else if v == 1 {
            MoveType::DoublePush
        } else if v == 2 {
            MoveType::KingCastle
        } else if v == 3 {
            MoveType::QueenCastle
        } else if v == 4 {
            MoveType::Capture
        } else if v == 5 {
            MoveType::EnPassantCapture
        } else {
            MoveType::Promote
        }
    }
}

#[derive(Debug, Clone, Copy, PartialEq, Eq, Structural)]
pub struct Move(pub u32);

impl Move {
    pub open spec fn spec_to(self) -> u32 {
        self.0 & 0x3f
    }

    pub open spec fn spec_from(self) -> u32 {
        (self.0 >> 6) & 0x3f
    }

    pub open spec fn spec_type_bits(self) -> u32 {
        (self.0 >> 12) & 0xf
    }

    pub open spec fn spec_move_type(self) -> MoveType {
        MoveType::spec_from_index(self.spec_type_bits() as int)
    }

    pub open spec fn spec_piece_bits(self) -> u32 {
        (self.0 >> 16) & 0xf
    }

    pub open spec fn spec_piece(self) -> Piece {
        Piece::spec_from_index(self.spec_piece_bits() as int)
    }

    pub open spec fn spec_captured_bits(self) -> u32 {
        (self.0 >> 20) & 0x7
    }

    pub open spec fn spec_captured(self) -> PieceType {
        PieceType::spec_from_index(self.spec_captured_bits() as int)
    }

    /// The all-zero move: a1 to a1, quiet, white pawn, nothing captured.
    /// It stands for "no move" in tables.
    pub fn null() -> (r: Move)
        ensures
            r.0 == 0,
    {
        Move(0)
    }

    /// Pack origin, destination, type, piece and captured type into a move.
    /// Squares are taken modulo 64; the piece and type encodings fit
    /// their fields as long as the arguments are in range.
    pub fn new(from: u32, to: u32, move_type: MoveType, piece: Piece, captured: PieceType) -> (r:
        Move)
        ensures
            r.spec_to() == to & 0x3f,
            r.spec_from() == from & 0x3f,
            to < 64 ==> r.spec_to() == to,
            from < 64 ==> r.spec_from() == from,
            r.spec_move_type() == move_type,
            r.spec_piece() == piece,
            r.spec_captured() == captured,
    {
        let mt = move_type.index() as u32;
        let pc = piece.index() as u32;
        let cp = captured.index() as u32;

        let inner = ((cp & 0x7) << 20) | ((pc & 0xf) << 16) | ((mt & 0xf) << 12) | ((from & 0x3f)
            << 6) | (to & 0x3f);

        proof {
            lemma_move_pack(cp, pc, mt, from, to);
            assert((to < 64 ==> to & 0x3f == to) && (from < 64 ==> from & 0x3f == from))
                by (bit_vector);
        }

        Move(inner)
    }

    pub fn to(self) -> (r: u32)
        ensures
            r == self.spec_to(),
            r < 64,
    {
        proof {
            lemma_move_fields_small(self.0);
        }
        self.0 & 0x3f
    }

    pub fn from(self) -> (r: u32)
        ensures
            r == self.spec_from(),
            r < 64,
    {
        proof {
            lemma_move_fields_small(self.0);
        }
        (self.0 >> 6) & 0x3f
    }

    pub fn move_type(self) -> (r: MoveType)
        ensures
            r == self.spec_move_type(),
    {
        proof {
            lemma_move_fields_small(self.0);
        }
        MoveType::from_index(((self.0 >> 12) & 0xf) as u8)
    }

    pub fn piece(self) -> (r: Piece)
        ensures
            r == self.spec_piece(),
    {
        proof {
            lemma_move_fields_small(self.0);
        }
        Piece::from_index(((self.0 >> 16) & 0xf) as u8)
    }

    pub fn captured(self) -> (r: PieceType)
        ensures
            r == self.spec_captured(),
    {
        proof {
            lemma_move_fields_small(self.0);
        }
        PieceType::from_index(((self.0 >> 20) & 0x7) as u8)
    }

    pub fn set_to(&mut self, to: u32)
        ensures
            final(self).spec_to() == to & 0x3f,
            final(self).spec_from() == old(self).spec_from(),
            final(self).spec_type_bits() == old(self).spec_type_bits(),
            final(self).spec_piece_bits() == old(self).spec_piece_bits(),
            final(self).spec_captured_bits() == old(self).spec_captured_bits(),
    {
        let v = (self.0 & !0x3f) | (to & 0x3f);
        proof {
            lemma_move_set_to(self.0, to, v);
        }
        self.0 = v;
    }

    pub fn set_from(&mut self, from: u32)
        ensures
            final(self).spec_from() == from & 0x3f,
            final(self).spec_to() == old(self).spec_to(),
            final(self).spec_type_bits() == old(self).spec_type_bits(),
            final(self).spec_piece_bits() == old(self).spec_piece_bits(),
            final(self).spec_captured_bits() == old(self).spec_captured_bits(),
    {
        let v = (self.0 & !(0x3fu32 << 6)) | ((from & 0x3f) << 6);
        proof {
            lemma_move_set_from(self.0, from, v);
        }
        self.0 = v;
    }

    pub fn set_type(&mut self, move_type: MoveType)
        ensures
            final(self).spec_move_type() == move_type,
            final(self).spec_to() == old(self).spec_to(),
            final(self).spec_from() == old(self).spec_from(),
            final(self).spec_piece_bits() == old(self).spec_piece_bits(),
            final(self).spec_captured_bits() == old(self).spec_captured_bits(),
    {
        let mt = move_type.index() as u32;
        let v = (self.0 & !(0xfu32 << 12)) | ((mt & 0xf) << 12);
        proof {
            lemma_move_set_type(self.0, mt, v);
        }
        self.0 = v;
    }

    pub fn set_piece(&mut self, piece: Piece)
        ensures
            final(self).spec_piece() == piece,
            final(self).spec_to() == old(self).spec_to(),
            final(self).spec_from() == old(self).spec_from(),
            final(self).spec_type_bits() == old(self).spec_type_bits(),
            final(self).spec_captured_bits() == old(self).spec_captured_bits(),
    {
        let pc = piece.index() as u32;
        let v = (self.0 & !(0xfu32 << 16)) | ((pc & 0xf) << 16);
        proof {
            lemma_move_set_piece(self.0, pc, v);
        }
        self.0 = v;
    }

    pub fn set_captured(&mut self, captured: PieceType)
        ensures
            final(self).spec_captured() == captured,
            final(self).spec_to() == old(self).spec_to(),
            final(self).spec_from() == old(self).spec_from(),
            final(self).spec_type_bits() == old(self).spec_type_bits(),
            final(self).spec_piece_bits() == old(self).spec_piece_bits(),
    {
        let cp = captured.index() as u32;
        let v = (self.0 & !(0xfu32 << 20)) | ((cp & 0x7) << 20);
        proof {
            lemma_move_set_captured(self.0, cp, v);
        }
        self.0 = v;
    }
}

proof fn lemma_move_pack(cp: u32, pc: u32, mt: u32, from: u32, to: u32)
    ensures
        ({
            let v = ((cp & 0x7) << 20) | ((pc & 0xf) << 16) | ((mt & 0xf) << 12) | ((from & 0x3f)
                << 6) | (to & 0x3f);
            &&& v & 0x3f == to & 0x3f
            &&& (v >> 6) & 0x3f == from & 0x3f
            &&& (v >> 12) & 0xf == mt & 0xf
            &&& (v >> 16) & 0xf == pc & 0xf
            &&& (v >> 20) & 0x7 == cp & 0x7
            &&& mt < 16 ==> mt & 0xf == mt
            &&& pc < 16 ==> pc & 0xf == pc
            &&& cp < 8 ==> cp & 0x7 == cp
        }),
{
    assert(({
        let v = ((cp & 0x7) << 20) | ((pc & 0xf) << 16) | ((mt & 0xf) << 12) | ((from & 0x3f) << 6)
            | (to & 0x3f);
        &&& v & 0x3f == to & 0x3f
        &&& (v >> 6) & 0x3f == from & 0x3f
        &&& (v >> 12) & 0xf == mt & 0xf
        &&& (v >> 16) & 0xf == pc & 0xf
        &&& (v >> 20) & 0x7 == cp & 0x7
    })) by (bit_vector);
    assert((mt < 16 ==> mt & 0xf == mt) && (pc < 16 ==> pc & 0xf == pc) && (cp < 8 ==> cp & 0x7
        == cp)) by (bit_vector);
}

pub proof fn lemma_move_fields_small(v: u32)
    ensures
        v & 0x3f < 64,
        (v >> 6) & 0x3f < 64,
        (v >> 12) & 0xf < 16,
        (v >> 16) & 0xf < 16,
        (v >> 20) & 0x7 < 8,
{
    assert(v & 0x3f < 64 && (v >> 6) & 0x3f < 64 && (v >> 12) & 0xf < 16 && (v >> 16) & 0xf < 16 && (
    v >> 20) & 0x7 < 8) by (bit_vector);
}

proof fn lemma_move_set_to(m: u32, to: u32, v: u32)
    requires
        v == (m & !0x3f) | (to & 0x3f),
    ensures
        v & 0x3f == to & 0x3f,
        (v >> 6) & 0x3f == (m >> 6) & 0x3f,
        (v >> 12) & 0xf == (m >> 12) & 0xf,
        (v >> 16) & 0xf == (m >> 16) & 0xf,
        (v >> 20) & 0x7 == (m >> 20) & 0x7,
{
    assert(({
        let v2 = (m & !0x3f) | (to & 0x3f);
        &&& v2 & 0x3f == to & 0x3f
        &&& (v2 >> 6) & 0x3f == (m >> 6) & 0x3f
        &&& (v2 >> 12) & 0xf == (m >> 12) & 0xf
        &&& (v2 >> 16) & 0xf == (m >> 16) & 0xf
        &&& (v2 >> 20) & 0x7 == (m >> 20) & 0x7
    })) by (bit_vector);
}

proof fn lemma_move_set_from(m: u32, from: u32, v: u32)
    requires
        v == (m & !(0x3fu32 << 6)) | ((from & 0x3f) << 6),
    ensures
        (v >> 6) & 0x3f == from & 0x3f,
        v & 0x3f == m & 0x3f,
        (v >> 12) & 0xf == (m >> 12) & 0xf,
        (v >> 16) & 0xf == (m >> 16) & 0xf,
        (v >> 20) & 0x7 == (m >> 20) & 0x7,
{
    assert(({
        let v2 = (m & !(0x3fu32 << 6)) | ((from & 0x3f) << 6);
        &&& (v2 >> 6) & 0x3f == from & 0x3f
        &&& v2 & 0x3f == m & 0x3f
        &&& (v2 >> 12) & 0xf == (m >> 12) & 0xf
        &&& (v2 >> 16) & 0xf == (m >> 16) & 0xf
        &&& (v2 >> 20) & 0x7 == (m >> 20) & 0x7
    })) by (bit_vector);
}

proof fn lemma_move_set_type(m: u32, mt: u32, v: u32)
    requires
        v == (m & !(0xfu32 << 12)) | ((mt & 0xf) << 12),
    ensures
        (v >> 12) & 0xf == mt & 0xf,
        mt < 16 ==> mt & 0xf == mt,
        v & 0x3f == m & 0x3f,
        (v >> 6) & 0x3f == (m >> 6) & 0x3f,
        (v >> 16) & 0xf == (m >> 16) & 0xf,
        (v >> 20) & 0x7 == (m >> 20) & 0x7,
{
    assert(({
        let v2 = (m & !(0xfu32 << 12)) | ((mt & 0xf) << 12);
        &&& (v2 >> 12) & 0xf == mt & 0xf
        &&& mt < 16 ==> mt & 0xf == mt
        &&& v2 & 0x3f == m & 0x3f
        &&& (v2 >> 6) & 0x3f == (m >> 6) & 0x3f
        &&& (v2 >> 16) & 0xf == (m >> 16) & 0xf
        &&& (v2 >> 20) & 0x7 == (m >> 20) & 0x7
    })) by (bit_vector);
}

proof fn lemma_move_set_piece(m: u32, pc: u32, v: u32)
    requires
        v == (m & !(0xfu32 << 16)) | ((pc & 0xf) << 16),
    ensures
        (v >> 16) & 0xf == pc & 0xf,
        pc < 16 ==> pc & 0xf == pc,
        v & 0x3f == m & 0x3f,
        (v >> 6) & 0x3f == (m >> 6) & 0x3f,
        (v >> 12) & 0xf == (m >> 12) & 0xf,
        (v >> 20) & 0x7 == (m >> 20) & 0x7,
{
    assert(({
        let v2 = (m & !(0xfu32 << 16)) | ((pc & 0xf) << 16);
        &&& (v2 >> 16) & 0xf == pc & 0xf
        &&& pc < 16 ==> pc & 0xf == pc
        &&& v2 & 0x3f == m & 0x3f
        &&& (v2 >> 6) & 0x3f == (m >> 6) & 0x3f
        &&& (v2 >> 12) & 0xf == (m >> 12) & 0xf
        &&& (v2 >> 20) & 0x7 == (m >> 20) & 0x7
    })) by (bit_vector);
}

proof fn lemma_move_set_captured(m: u32, cp: u32, v: u32)
    requires
        v == (m & !(0xfu32 << 20)) | ((cp & 0x7) << 20),
    ensures
        (v >> 20) & 0x7 == cp & 0x7,
        cp < 8 ==> cp & 0x7 == cp,
        v & 0x3f == m & 0x3f,
        (v >> 6) & 0x3f == (m >> 6) & 0x3f,
        (v >> 12) & 0xf == (m >> 12) & 0xf,
        (v >> 16) & 0xf == (m >> 16) & 0xf,
{
    assert(({
        let v2 = (m & !(0xfu32 << 20)) | ((cp & 0x7) << 20);
        &&& (v2 >> 20) & 0x7 == cp & 0x7
        &&& cp < 8 ==> cp & 0x7 == cp
        &&& v2 & 0x3f == m & 0x3f
        &&& (v2 >> 6) & 0x3f == (m >> 6) & 0x3f
        &&& (v2 >> 12) & 0xf == (m >> 12) & 0xf
        &&& (v2 >> 16) & 0xf == (m >> 16) & 0xf
    })) by (bit_vector);
}

} // verus!
