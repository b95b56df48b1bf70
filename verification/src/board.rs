//! The board state: bitboards plus a mailbox, side to move, castle
//! rights, en-passant target, Zobrist hash and incremental evaluation.
//!
//! The well-formedness predicate ties the bitboards to the mailbox; the
//! hash and evaluation predicates say the cached values equal a
//! recomputation from scratch. Every mutation preserves all three.

use vstd::prelude::*;

use crate::attacks::spec_bishop_ray;
use crate::attacks::spec_king_mask;
use crate::attacks::spec_knight_mask;
use crate::attacks::spec_rook_ray;
use crate::attacks::AttackLookup;
use crate::attacks::bishop_attacks;
use crate::attacks::rook_attacks;
use crate::bitboards::bit64;
use crate::bitboards::lemma_bit_clear_one;
use crate::bitboards::lemma_bit_or;
use crate::bitboards::lemma_bit_or_one;
use crate::bitboards::lemma_bit_test;
use crate::bitboards::BitBoards;
use crate::piece::Piece;
use crate::piece::PieceColor;
use crate::piece::PieceType;
use crate::scores::lemma_eval_upto_bounds;
use crate::scores::lemma_eval_upto_negate;
use crate::scores::lemma_eval_upto_update;
use crate::scores::piece_worth;
use crate::scores::spec_eval_of;
use crate::zobrist::lemma_piece_hash_update;
use crate::zobrist::lemma_xor_cancel;
use crate::zobrist::ZobristKeys;

verus! {

/// Castle-right bits, packed in the low nibble of a byte.
pub const WHITE_KINGSIDE_CASTLING: u8 = 0x1;

pub const WHITE_QUEENSIDE_CASTLING: u8 = 0x2;

pub const BLACK_KINGSIDE_CASTLING: u8 = 0x4;

pub const BLACK_QUEENSIDE_CASTLING: u8 = 0x8;

/// One piece movement: `from == 64` means the piece appeared on `to`,
/// `to == 64` means it vanished from `from`.
#[derive(Debug, Clone, Copy, PartialEq, Eq, Structural)]
pub struct PieceDelta {
    pub to: u32,
    pub from: u32,
    pub piece: Piece,
}

/// The piece movements one move produces: at most three.
pub struct PiecesDelta {
    pub pieces: Vec<PieceDelta>,
}

impl PiecesDelta {
    pub fn new() -> (r: PiecesDelta)
        ensures
            r.pieces@ == Seq::<PieceDelta>::empty(),
    {
        let r = PiecesDelta { pieces: Vec::new() };
        proof {
            assert(r.pieces@ =~= Seq::<PieceDelta>::empty());
        }
        r
    }

    pub fn push(&mut self, delta: PieceDelta)
        ensures
            final(self).pieces@ == old(self).pieces@.push(delta),
    {
        self.pieces.push(delta);
    }

    pub fn len(&self) -> (r: usize)
        ensures
            r == self.pieces@.len(),
    {
        self.pieces.len()
    }

    pub fn get(&self, i: usize) -> (r: PieceDelta)
        requires
            i < self.pieces@.len(),
        ensures
            r == self.pieces@[i as int],
    {
        self.pieces[i]
    }
}

/// Something that collects the piece movements of a move.
pub trait MoveDeltaRecorder {
    fn record(&mut self, delta: PieceDelta);
}

/// A recorder that drops everything.
pub struct NoDelta;

impl MoveDeltaRecorder for NoDelta {
    fn record(&mut self, _delta: PieceDelta) {
    }
}

impl MoveDeltaRecorder for PiecesDelta {
    fn record(&mut self, delta: PieceDelta)
        ensures
            final(self).pieces@ == old(self).pieces@.push(delta),
    {
        self.push(delta);
    }
}

#[derive(Debug, Clone)]
pub struct Board {
    pub bit_boards: BitBoards,
    pub pieces: Vec<Piece>,
    pub current_color: PieceColor,
    pub castle_flags: u8,
    pub last_double: Option<u32>,
    pub hash: u64,
    pub eval: i32,
}

impl Board {
    /// The mailbox view of the position.
    pub open spec fn mb(self) -> Seq<Piece> {
        self.pieces@
    }

    /// Structural well-formedness: the mailbox has 64 squares, the
    /// bitboards picture it exactly, the castle byte uses its low nibble,
    /// and the en-passant square is on the board.
    pub open spec fn wf(self) -> bool {
        &&& self.pieces@.len() == 64
        &&& self.bit_boards.wf_with(self.pieces@)
        &&& self.castle_flags < 16
        &&& match self.last_double {
            Some(s) => s < 64,
            None => true,
        }
    }

    /// The cached hash equals the Zobrist recomputation from scratch.
    pub open spec fn hash_ok(self, keys: ZobristKeys) -> bool {
        self.hash == keys.spec_zobrist_of(
            self.pieces@,
            self.castle_flags,
            self.last_double,
            self.current_color,
        )
    }

    /// The cached evaluation equals the material-plus-positional
    /// recomputation from scratch, seen from the side to move.
    pub open spec fn eval_ok(self) -> bool {
        self.eval == spec_eval_of(self.pieces@, self.current_color)
    }

    /// An equal copy of the board, cheap enough for the search to take
    /// one per move.
    pub fn duplicate(&self) -> (r: Board)
        ensures
            r.bit_boards == self.bit_boards,
            r.pieces@ == self.pieces@,
            r.current_color == self.current_color,
            r.castle_flags == self.castle_flags,
            r.last_double == self.last_double,
            r.hash == self.hash,
            r.eval == self.eval,
    {
        let mut pieces: Vec<Piece> = Vec::new();
        let n = self.pieces.len();
        while pieces.len() < n
            invariant
                pieces.len() <= n,
                n == self.pieces.len(),
                forall|j: int| 0 <= j < pieces.len() ==> pieces[j] == self.pieces[j],
            decreases n - pieces.len(),
        {
            pieces.push(self.pieces[pieces.len()]);
        }
        proof {
            assert(pieces@ =~= self.pieces@);
        }
        Board {
            bit_boards: BitBoards {
                pieces: self.bit_boards.pieces,
                occupancy: self.bit_boards.occupancy,
            },
            pieces,
            current_color: self.current_color,
            castle_flags: self.castle_flags,
            last_double: self.last_double,
            hash: self.hash,
            eval: self.eval,
        }
    }

    /// The cached evaluation, positive for the side to move.
    pub fn eval(&self) -> (r: i32)
        ensures
            r == self.eval,
    {
        self.eval
    }

    /// The piece on a square, read from the mailbox.
    pub fn piece_at(&self, square: usize) -> (r: Piece)
        requires
            self.wf(),
            square < 64,
        ensures
            r == self.pieces@[square as int],
    {
        self.pieces[square]
    }

    /// Whether any piece stands on `square`.
    pub fn is_occupied(&self, square: usize) -> (r: bool)
        requires
            self.wf(),
            square < 64,
        ensures
            r == (self.pieces@[square as int] != Piece::Empty),
    {
        let occ = self.bit_boards.occupancy();
        proof {
            lemma_bit_test(occ, square as u64);
            lemma_bit_or(self.bit_boards.occupancy[0], self.bit_boards.occupancy[1], square as u64);
        }
        occ & (1u64 << (square as u64)) != 0
    }

    /// Place `p` on the empty square `sq`, keeping bitboards, hash and
    /// evaluation consistent. Castle rights, en-passant square and side
    /// to move stay as they are.
    pub(crate) fn put_piece(&mut self, keys: &ZobristKeys, sq: usize, p: Piece)
        requires
            old(self).wf(),
            old(self).eval_ok(),
            keys.wf(),
            sq < 64,
            p != Piece::Empty,
            old(self).pieces@[sq as int] == Piece::Empty,
        ensures
            final(self).pieces@ == old(self).pieces@.update(sq as int, p),
            final(self).wf(),
            final(self).eval_ok(),
            final(self).hash == old(self).hash ^ keys.spec_piece_key(p, sq as int),
            old(self).hash_ok(*keys) ==> final(self).hash_ok(*keys),
            final(self).current_color == old(self).current_color,
            final(self).castle_flags == old(self).castle_flags,
            final(self).last_double == old(self).last_double,
    {
        proof {
            lemma_eval_upto_bounds(self.pieces@, 64, self.current_color);
        }
        let worth = piece_worth(p, sq);
        let signed: i32 = if p.get_color() == self.current_color {
            worth
        } else {
            -worth
        };
        let ghost old_mb = self.pieces@;
        let ghost old_bb = self.bit_boards;
        self.bit_boards.set_piece(sq, p);
        self.pieces[sq] = p;
        self.hash = self.hash ^ keys.piece_key(p, sq);
        self.eval = self.eval + signed;
        proof {
            let mb2 = self.pieces@;
            assert(mb2 == old_mb.update(sq as int, p));
            lemma_put_wf(old_bb, self.bit_boards, old_mb, mb2, sq as int, p);
            lemma_eval_upto_update(old_mb, mb2, sq as int, 64, self.current_color);
            lemma_piece_hash_update(*keys, old_mb, mb2, sq as int, 64);
            lemma_xor_cancel(keys.spec_piece_hash_upto(old_mb, 64), 0, 0);
            assert(keys.spec_square_key(old_mb, sq as int) == 0);
            assert(keys.spec_piece_hash_upto(mb2, 64) == keys.spec_piece_hash_upto(old_mb, 64)
                ^ keys.spec_piece_key(p, sq as int));
            if old(self).hash_ok(*keys) {
                lemma_hash_shift(
                    keys.spec_piece_hash_upto(old_mb, 64),
                    keys.castle_keys[self.castle_flags as int],
                    ep_key(*keys, self.last_double),
                    side_val(*keys, self.current_color),
                    keys.spec_piece_key(p, sq as int),
                );
            }
        }
    }

    /// Take the piece standing on `sq` off the board, keeping bitboards,
    /// hash and evaluation consistent.
    pub(crate) fn remove_piece(&mut self, keys: &ZobristKeys, sq: usize)
        requires
            old(self).wf(),
            old(self).eval_ok(),
            keys.wf(),
            sq < 64,
            old(self).pieces@[sq as int] != Piece::Empty,
        ensures
            final(self).pieces@ == old(self).pieces@.update(sq as int, Piece::Empty),
            final(self).wf(),
            final(self).eval_ok(),
            final(self).hash == old(self).hash ^ keys.spec_piece_key(
                old(self).pieces@[sq as int],
                sq as int,
            ),
            old(self).hash_ok(*keys) ==> final(self).hash_ok(*keys),
            final(self).current_color == old(self).current_color,
            final(self).castle_flags == old(self).castle_flags,
            final(self).last_double == old(self).last_double,
    {
        proof {
            lemma_eval_upto_bounds(self.pieces@, 64, self.current_color);
        }
        let p = self.pieces[sq];
        let worth = piece_worth(p, sq);
        let signed: i32 = if p.get_color() == self.current_color {
            worth
        } else {
            -worth
        };
        let ghost old_mb = self.pieces@;
        let ghost old_bb = self.bit_boards;
        self.bit_boards.clear_piece(sq, p);
        self.pieces[sq] = Piece::Empty;
        self.hash = self.hash ^ keys.piece_key(p, sq);
        self.eval = self.eval - signed;
        proof {
            let mb2 = self.pieces@;
            assert(mb2 == old_mb.update(sq as int, Piece::Empty));
            lemma_remove_wf(old_bb, self.bit_boards, old_mb, mb2, sq as int, p);
            lemma_eval_upto_update(old_mb, mb2, sq as int, 64, self.current_color);
            lemma_piece_hash_update(*keys, old_mb, mb2, sq as int, 64);
            assert(keys.spec_square_key(mb2, sq as int) == 0);
            lemma_xor_cancel(
                keys.spec_piece_hash_upto(old_mb, 64) ^ keys.spec_piece_key(p, sq as int),
                0,
                0,
            );
            assert(keys.spec_piece_hash_upto(mb2, 64) == keys.spec_piece_hash_upto(old_mb, 64)
                ^ keys.spec_piece_key(p, sq as int));
            if old(self).hash_ok(*keys) {
                lemma_hash_shift(
                    keys.spec_piece_hash_upto(old_mb, 64),
                    keys.castle_keys[self.castle_flags as int],
                    ep_key(*keys, self.last_double),
                    side_val(*keys, self.current_color),
                    keys.spec_piece_key(p, sq as int),
                );
            }
        }
    }

    /// Whether `attacker_color` attacks `square`, per the attack tables:
    /// knight or king jump, pawn diagonal, or a sliding ray.
    pub open spec fn spec_square_attacked(
        self,
        tables: AttackLookup,
        square: int,
        attacker_color: PieceColor,
    ) -> bool {
        let knights = self.bit_boards.pieces[Piece::spec_new(
            PieceType::Knight,
            attacker_color,
        ).idx()];
        let kings = self.bit_boards.pieces[Piece::spec_new(PieceType::King, attacker_color).idx()];
        let pawns = self.bit_boards.pieces[Piece::spec_new(PieceType::Pawn, attacker_color).idx()];
        let occ = self.bit_boards.occupancy[0] | self.bit_boards.occupancy[1];
        let bishop_queens = self.bit_boards.pieces[Piece::spec_new(
            PieceType::Bishop,
            attacker_color,
        ).idx()] | self.bit_boards.pieces[Piece::spec_new(PieceType::Queen, attacker_color).idx()];
        let rook_queens = self.bit_boards.pieces[Piece::spec_new(
            PieceType::Rook,
            attacker_color,
        ).idx()] | self.bit_boards.pieces[Piece::spec_new(PieceType::Queen, attacker_color).idx()];
        ||| spec_knight_mask(square) & knights != 0
        ||| spec_king_mask(square) & kings != 0
        ||| (attacker_color == PieceColor::Black && square % 8 != 7 && square + 9 < 64 && bit64(
            pawns,
            (square + 9) as u64,
        ))
        ||| (attacker_color == PieceColor::Black && square % 8 != 0 && square + 7 < 64 && bit64(
            pawns,
            (square + 7) as u64,
        ))
        ||| (attacker_color == PieceColor::White && square % 8 != 0 && square - 9 >= 0 && bit64(
            pawns,
            (square - 9) as u64,
        ))
        ||| (attacker_color == PieceColor::White && square % 8 != 7 && square - 7 >= 0 && bit64(
            pawns,
            (square - 7) as u64,
        ))
        ||| spec_bishop_ray(square, occ & crate::attacks::spec_bishop_inner_mask(square))
            & bishop_queens != 0
        ||| spec_rook_ray(square, occ & crate::attacks::spec_rook_inner_mask(square)) & rook_queens
            != 0
    }

    /// Whether the enemy attacks `square`: jump tables for knight and
    /// king, shifted bits for pawns, magic lookups for sliders.
    pub fn is_square_attacked(
        &self,
        tables: &AttackLookup,
        square: usize,
        attacker_color: PieceColor,
    ) -> (r: bool)
        requires
            self.wf(),
            tables.wf(),
            square < 64,
        ensures
            r == self.spec_square_attacked(*tables, square as int, attacker_color),
    {
        let knights = self.bit_boards.pieces[Piece::new(PieceType::Knight, attacker_color).index()];
        if tables.knight[square] & knights != 0 {
            return true;
        }
        let kings = self.bit_boards.pieces[Piece::new(PieceType::King, attacker_color).index()];
        if tables.king[square] & kings != 0 {
            return true;
        }

        let pawns = self.bit_boards.pieces[Piece::new(PieceType::Pawn, attacker_color).index()];
        if attacker_color == PieceColor::Black {
            if square % 8 != 7 && square + 9 < 64 {
                proof {
                    lemma_bit_test(pawns, (square + 9) as u64);
                }
                if pawns & (1u64 << ((square + 9) as u64)) != 0 {
                    return true;
                }
            }
            if square % 8 != 0 && square + 7 < 64 {
                proof {
                    lemma_bit_test(pawns, (square + 7) as u64);
                }
                if pawns & (1u64 << ((square + 7) as u64)) != 0 {
                    return true;
                }
            }
        } else {
            if square % 8 != 0 && square >= 9 {
                proof {
                    lemma_bit_test(pawns, (square - 9) as u64);
                }
                if pawns & (1u64 << ((square - 9) as u64)) != 0 {
                    return true;
                }
            }
            if square % 8 != 7 && square >= 7 {
                proof {
                    lemma_bit_test(pawns, (square - 7) as u64);
                }
                if pawns & (1u64 << ((square - 7) as u64)) != 0 {
                    return true;
                }
            }
        }

        let occ = self.bit_boards.occupancy();
        let bishop_queens = self.bit_boards.pieces[Piece::new(PieceType::Bishop, attacker_color).index()]
            | self.bit_boards.pieces[Piece::new(PieceType::Queen, attacker_color).index()];
        if bishop_attacks(tables, square, occ) & bishop_queens != 0 {
            return true;
        }

        let rook_queens = self.bit_boards.pieces[Piece::new(PieceType::Rook, attacker_color).index()]
            | self.bit_boards.pieces[Piece::new(PieceType::Queen, attacker_color).index()];
        if rook_attacks(tables, square, occ) & rook_queens != 0 {
            return true;
        }

        false
    }

    /// Whether `color`'s king is attacked; a board with no king of that
    /// colour counts as attacked.
    pub open spec fn spec_king_attacked(self, tables: AttackLookup, color: PieceColor) -> bool {
        let kings = self.bit_boards.pieces[Piece::spec_new(PieceType::King, color).idx()];
        if kings == 0 {
            true
        } else {
            self.spec_square_attacked(
                tables,
                vstd::std_specs::bits::u64_trailing_zeros(kings) as int,
                color.spec_opposite(),
            )
        }
    }

    /// Whether `color`'s own king stands attacked by the other side.
    pub fn is_king_attacked(&self, tables: &AttackLookup, color: PieceColor) -> (r: bool)
        requires
            self.wf(),
            tables.wf(),
        ensures
            r == self.spec_king_attacked(*tables, color),
    {
        let kings = self.bit_boards.pieces[Piece::new(PieceType::King, color).index()];
        if kings != 0 {
            proof {
                vstd::std_specs::bits::axiom_u64_trailing_zeros(kings);
            }
            let sq = kings.trailing_zeros() as usize;
            self.is_square_attacked(tables, sq, color.opposite())
        } else {
            true
        }
    }

    /// Pass the move: clear the en-passant square, flip the side to move,
    /// and keep hash and evaluation consistent.
    pub fn make_null_move(&mut self, keys: &ZobristKeys)
        requires
            old(self).wf(),
            old(self).hash_ok(*keys),
            old(self).eval_ok(),
            keys.wf(),
        ensures
            final(self).wf(),
            final(self).hash_ok(*keys),
            final(self).eval_ok(),
            final(self).pieces@ == old(self).pieces@,
            final(self).bit_boards == old(self).bit_boards,
            final(self).castle_flags == old(self).castle_flags,
            final(self).last_double is None,
            final(self).current_color == old(self).current_color.spec_opposite(),
    {
        proof {
            lemma_eval_upto_bounds(self.pieces@, 64, self.current_color);
        }
        if let Some(last_double) = self.last_double {
            self.hash = self.hash ^ keys.double_push_key(last_double as usize);
        }
        self.last_double = None;
        self.eval = -self.eval;
        self.hash = self.hash ^ keys.side();
        self.current_color = self.current_color.opposite();
        proof {
            lemma_eval_upto_negate(self.pieces@, 64, old(self).current_color);
            let p = keys.spec_piece_hash_upto(self.pieces@, 64);
            let c = keys.castle_keys[self.castle_flags as int];
            let e = ep_key(*keys, old(self).last_double);
            let s = side_val(*keys, old(self).current_color);
            let s2 = side_val(*keys, self.current_color);
            lemma_null_hash(p, c, e, s, s2, keys.side_key);
        }
    }
}

/// The en-passant part of the hash: a key when a square is set, else zero.
pub open spec fn ep_key(keys: ZobristKeys, ep: Option<u32>) -> u64 {
    match ep {
        Some(s) => keys.double_push_keys[s as int],
        None => 0,
    }
}

/// The side part of the hash: the side key when Black moves, else zero.
pub open spec fn side_val(keys: ZobristKeys, stm: PieceColor) -> u64 {
    if stm == PieceColor::Black {
        keys.side_key
    } else {
        0
    }
}

/// XORing a piece key into a full hash changes only the piece part.
proof fn lemma_hash_shift(p: u64, c: u64, e: u64, s: u64, k: u64)
    ensures
        (((p ^ c) ^ e) ^ s) ^ k == (((p ^ k) ^ c) ^ e) ^ s,
{
    assert((((p ^ c) ^ e) ^ s) ^ k == (((p ^ k) ^ c) ^ e) ^ s) by (bit_vector);
}

/// The null move takes the en-passant key out and toggles the side key.
proof fn lemma_null_hash(p: u64, c: u64, e: u64, s: u64, s2: u64, side: u64)
    requires
        s == 0 ==> s2 == side,
        s == side ==> s2 == 0,
        s == 0 || s == side,
    ensures
        ((((((p ^ c) ^ e) ^ s) ^ e) ^ side)) == ((p ^ c) ^ 0) ^ s2,
        e == 0 ==> ((((p ^ c) ^ e) ^ s) ^ side) == ((p ^ c) ^ 0) ^ s2,
{
    assert(s == 0 && s2 == side ==> ((((((p ^ c) ^ e) ^ s) ^ e) ^ side) == ((p ^ c) ^ 0) ^ s2 && (e
        == 0 ==> ((((p ^ c) ^ e) ^ s) ^ side) == ((p ^ c) ^ 0) ^ s2))) by (bit_vector);
    assert(s == side && s2 == 0 ==> ((((((p ^ c) ^ e) ^ s) ^ e) ^ side) == ((p ^ c) ^ 0) ^ s2 && (e
        == 0 ==> ((((p ^ c) ^ e) ^ s) ^ side) == ((p ^ c) ^ 0) ^ s2))) by (bit_vector);
}

/// Setting a piece's bit on an empty square keeps the bitboards true to
/// the updated mailbox.
pub proof fn lemma_put_wf(bb1: BitBoards, bb2: BitBoards, mb1: Seq<Piece>, mb2: Seq<Piece>, sq: int, p: Piece)
    requires
        bb1.wf_with(mb1),
        0 <= sq < 64,
        p != Piece::Empty,
        mb1[sq] == Piece::Empty,
        mb2 == mb1.update(sq, p),
        bb2.pieces@ == bb1.pieces@.update(p.idx(), bb1.pieces[p.idx()] | (1u64 << (sq as u64))),
        bb2.occupancy@ == bb1.occupancy@.update(
            p.spec_color().idx(),
            bb1.occupancy[p.spec_color().idx()] | (1u64 << (sq as u64)),
        ),
    ensures
        bb2.wf_with(mb2),
{
    assert forall|s2: int, q: int|
        0 <= s2 < 64 && 0 <= q < 12 implies (#[trigger] bit64(bb2.pieces[q], s2 as u64) <==> mb2[s2]
        == Piece::spec_from_index(q)) by {
        assert(bit64(bb1.pieces[q], s2 as u64) <==> mb1[s2] == Piece::spec_from_index(q));
        if q == p.idx() {
            lemma_bit_or_one(bb1.pieces[q], sq as u64, s2 as u64);
        }
    }
    assert forall|s2: int, c: int|
        0 <= s2 < 64 && 0 <= c < 2 implies (#[trigger] bit64(bb2.occupancy[c], s2 as u64) <==> (
    mb2[s2] != Piece::Empty && mb2[s2].spec_color().idx() == c)) by {
        assert(bit64(bb1.occupancy[c], s2 as u64) <==> (mb1[s2] != Piece::Empty
            && mb1[s2].spec_color().idx() == c));
        if c == p.spec_color().idx() {
            lemma_bit_or_one(bb1.occupancy[c], sq as u64, s2 as u64);
        }
    }
}

/// Clearing a piece's bit keeps the bitboards true to the updated mailbox.
pub proof fn lemma_remove_wf(bb1: BitBoards, bb2: BitBoards, mb1: Seq<Piece>, mb2: Seq<Piece>, sq: int, p: Piece)
    requires
        bb1.wf_with(mb1),
        0 <= sq < 64,
        p != Piece::Empty,
        mb1[sq] == p,
        mb2 == mb1.update(sq, Piece::Empty),
        bb2.pieces@ == bb1.pieces@.update(p.idx(), bb1.pieces[p.idx()] & !(1u64 << (sq as u64))),
        bb2.occupancy@ == bb1.occupancy@.update(
            p.spec_color().idx(),
            bb1.occupancy[p.spec_color().idx()] & !(1u64 << (sq as u64)),
        ),
    ensures
        bb2.wf_with(mb2),
{
    assert forall|s2: int, q: int|
        0 <= s2 < 64 && 0 <= q < 12 implies (#[trigger] bit64(bb2.pieces[q], s2 as u64) <==> mb2[s2]
        == Piece::spec_from_index(q)) by {
        assert(bit64(bb1.pieces[q], s2 as u64) <==> mb1[s2] == Piece::spec_from_index(q));
        if q == p.idx() {
            lemma_bit_clear_one(bb1.pieces[q], sq as u64, s2 as u64);
        }
    }
    assert forall|s2: int, c: int|
        0 <= s2 < 64 && 0 <= c < 2 implies (#[trigger] bit64(bb2.occupancy[c], s2 as u64) <==> (
    mb2[s2] != Piece::Empty && mb2[s2].spec_color().idx() == c)) by {
        assert(bit64(bb1.occupancy[c], s2 as u64) <==> (mb1[s2] != Piece::Empty
            && mb1[s2].spec_color().idx() == c));
        if c == p.spec_color().idx() {
            lemma_bit_clear_one(bb1.occupancy[c], sq as u64, s2 as u64);
        }
    }
}

} // verus!
