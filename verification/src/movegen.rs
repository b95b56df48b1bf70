//! Pseudo-legal move generation.
//!
//! Every move that comes out fits the board it was generated for: the
//! mover stands on its origin, the destination holds exactly what the
//! move claims to capture, castle squares hold king and rook. Legality
//! against checks is the search's business, which makes the move and
//! asks whether its own king is attacked.

use vstd::prelude::*;

use crate::attacks::bishop_attacks;
use crate::attacks::rook_attacks;
use crate::attacks::AttackLookup;
use crate::bitboards::bit64;
use crate::bitboards::lemma_bit_and;
use crate::bitboards::lemma_bit_clear_one;
use crate::bitboards::lemma_bit_not;
use crate::bitboards::lemma_bit_or;
use crate::board::Board;
use crate::board::BLACK_KINGSIDE_CASTLING;
use crate::board::BLACK_QUEENSIDE_CASTLING;
use crate::board::WHITE_KINGSIDE_CASTLING;
use crate::board::WHITE_QUEENSIDE_CASTLING;
use crate::make_move::spec_move_ok;
use crate::moves::Move;
use crate::moves::MoveType;
use crate::piece::Piece;
use crate::piece::PieceColor;
use crate::piece::PieceType;

verus! {

/// A move list; the generator never produces more than a few dozen
/// moves for a position, so a growable buffer serves.
pub struct Moves {
    pub moves: Vec<Move>,
}

/// Every move of `s` from position `from` on fits board `b`.
pub open spec fn all_ok_from(b: Board, s: Seq<Move>, from: int) -> bool {
    forall|i: int| from <= i < s.len() ==> spec_move_ok(b, #[trigger] s[i])
}

/// Every move of `s` from position `from` on takes something: its
/// captured type is not `Empty`.
pub open spec fn all_captures_from(s: Seq<Move>, from: int) -> bool {
    forall|i: int| from <= i < s.len() ==> (#[trigger] s[i]).spec_captured() != PieceType::Empty
}

/// Some member of the list moves from `fsq` to `tsq`.
pub open spec fn spec_has_move(s: Seq<Move>, fsq: int, tsq: int) -> bool {
    exists|k: int|
        0 <= k < s.len() && (#[trigger] s[k]).spec_from() == fsq && s[k].spec_to() == tsq
}

/// Extending a list keeps every membership fact.
proof fn lemma_has_move_extend(pre: Seq<Move>, post: Seq<Move>)
    requires
        pre.len() <= post.len(),
        post.subrange(0, pre.len() as int) == pre,
    ensures
        forall|f: int, t: int| spec_has_move(pre, f, t) ==> spec_has_move(post, f, t),
{
    assert forall|f: int, t: int|
        spec_has_move(pre, f, t) implies spec_has_move(post, f, t) by {
        let k = choose|k: int|
            0 <= k < pre.len() && pre[k].spec_from() == f && pre[k].spec_to() == t;
        assert(post[k] == post.subrange(0, pre.len() as int)[k]);
        assert(post[k].spec_from() == f && post[k].spec_to() == t);
    }
}

/// The attack set one piece family reads for a square: the jump table
/// for knight and king, the magic ray for the sliders, both for the
/// queen.
pub open spec fn spec_family_attacks(piece_type: PieceType, s: int, occ: u64) -> u64 {
    if piece_type == PieceType::Knight {
        crate::attacks::spec_knight_mask(s)
    } else if piece_type == PieceType::King {
        crate::attacks::spec_king_mask(s)
    } else if piece_type == PieceType::Bishop {
        crate::attacks::spec_bishop_ray(s, occ & crate::attacks::spec_bishop_inner_mask(s))
    } else if piece_type == PieceType::Rook {
        crate::attacks::spec_rook_ray(s, occ & crate::attacks::spec_rook_inner_mask(s))
    } else {
        crate::attacks::spec_rook_ray(s, occ & crate::attacks::spec_rook_inner_mask(s))
            | crate::attacks::spec_bishop_ray(s, occ & crate::attacks::spec_bishop_inner_mask(s))
    }
}

/// Completeness of one piece family in a move list: for every piece of
/// the side to move and every attack-set target not holding an own
/// piece, the list has the move.
pub open spec fn spec_family_covered(b: Board, piece_type: PieceType, s: Seq<Move>) -> bool {
    forall|sq: u64, t: u64|
        sq < 64 && t < 64 && #[trigger] bit64(
            b.bit_boards.pieces[Piece::spec_new(piece_type, b.current_color).idx()],
            sq,
        ) && #[trigger] bit64(
            spec_family_attacks(
                piece_type,
                sq as int,
                b.bit_boards.occupancy[0] | b.bit_boards.occupancy[1],
            ),
            t,
        ) && !bit64(b.bit_boards.occupancy[b.current_color.idx()], t) && t != sq
            ==> spec_has_move(s, sq as int, t as int)
}

/// Completeness of one family's captures: as `spec_family_covered`, but
/// only for targets holding an enemy piece.
pub open spec fn spec_family_captures_covered(b: Board, piece_type: PieceType, s: Seq<Move>) -> bool {
    forall|sq: u64, t: u64|
        sq < 64 && t < 64 && #[trigger] bit64(
            b.bit_boards.pieces[Piece::spec_new(piece_type, b.current_color).idx()],
            sq,
        ) && #[trigger] bit64(
            spec_family_attacks(
                piece_type,
                sq as int,
                b.bit_boards.occupancy[0] | b.bit_boards.occupancy[1],
            ),
            t,
        ) && bit64(b.bit_boards.occupancy[b.current_color.spec_opposite().idx()], t) && !bit64(
            b.bit_boards.occupancy[b.current_color.idx()],
            t,
        ) && t != sq ==> spec_has_move(s, sq as int, t as int)
}

/// Completeness of the pawn moves in a list, stated over the shifted
/// pawn words the generator reads: every single push (with its double
/// push and promotions), and every left and right capture, is a member.
/// The captures variant owes only the capture part.
pub open spec fn spec_pawn_covered(b: Board, s: Seq<Move>, captures_only: bool) -> bool {
    let p = b.bit_boards.pieces[Piece::spec_new(PieceType::Pawn, b.current_color).idx()];
    let occ = b.bit_boards.occupancy[0] | b.bit_boards.occupancy[1];
    let enemy = b.bit_boards.occupancy[b.current_color.spec_opposite().idx()];
    if b.current_color == PieceColor::White {
        &&& !captures_only ==> forall|t: u64|
            t < 64 && #[trigger] bit64((p << 8u64) & !occ, t) ==> spec_has_move(
                s,
                t as int - 8,
                t as int,
            )
        &&& !captures_only ==> forall|t: u64|
            t < 64 && #[trigger] bit64((p << 8u64) & !occ, t) && 8 <= t as int - 8 < 16 && t + 8
                < 64 && !bit64(occ, (t + 8) as u64) ==> spec_has_move(
                s,
                t as int - 8,
                t as int + 8,
            )
        &&& forall|t: u64|
            t < 64 && #[trigger] bit64((((p << 8u64) >> 1u64) & 0x7f7f7f7f7f7f7f7fu64) & enemy, t)
                ==> spec_has_move(s, t as int - 7, t as int)
        &&& forall|t: u64|
            t < 64 && #[trigger] bit64((((p << 8u64) << 1u64) & 0xfefefefefefefefeu64) & enemy, t)
                ==> spec_has_move(s, t as int - 9, t as int)
    } else {
        &&& !captures_only ==> forall|t: u64|
            t < 64 && #[trigger] bit64((p >> 8u64) & !occ, t) ==> spec_has_move(
                s,
                t as int + 8,
                t as int,
            )
        &&& !captures_only ==> forall|t: u64|
            t < 64 && #[trigger] bit64((p >> 8u64) & !occ, t) && 48 <= t as int + 8 < 56 && t as int
                - 8 >= 0 && !bit64(occ, (t - 8) as u64) ==> spec_has_move(
                s,
                t as int + 8,
                t as int - 8,
            )
        &&& forall|t: u64|
            t < 64 && #[trigger] bit64((((p >> 8u64) >> 1u64) & 0x7f7f7f7f7f7f7f7fu64) & enemy, t)
                ==> spec_has_move(s, t as int + 9, t as int)
        &&& forall|t: u64|
            t < 64 && #[trigger] bit64((((p >> 8u64) << 1u64) & 0xfefefefefefefefeu64) & enemy, t)
                ==> spec_has_move(s, t as int + 7, t as int)
    }
}

/// Completeness of the en-passant captures: when the landing square and
/// its neighbours stand as an en-passant capture needs, the capture is
/// a member.
pub open spec fn spec_ep_covered(b: Board, s: Seq<Move>) -> bool {
    match b.last_double {
        None => true,
        Some(ld0) => {
            let ld = ld0 as int;
            let stm = b.current_color;
            let target: int = if stm == PieceColor::White {
                ld + 8
            } else {
                ld - 8
            };
            let mb = b.pieces@;
            &&& (ld < 64 && 0 <= target < 64 && ld % 8 > 0 && mb[ld] == Piece::spec_new(
                PieceType::Pawn,
                stm.spec_opposite(),
            ) && mb[target] == Piece::Empty && mb[ld - 1] == Piece::spec_new(PieceType::Pawn, stm))
                ==> spec_has_move(s, ld - 1, target)
            &&& (ld < 64 && 0 <= target < 64 && ld % 8 < 7 && ld + 1 < 64 && mb[ld]
                == Piece::spec_new(PieceType::Pawn, stm.spec_opposite()) && mb[target]
                == Piece::Empty && mb[ld + 1] == Piece::spec_new(PieceType::Pawn, stm))
                ==> spec_has_move(s, ld + 1, target)
        },
    }
}

/// Completeness of castling: when the right is held and the king, rook
/// and empty squares stand as the castle needs, the king's move is a
/// member.
pub open spec fn spec_castles_covered(b: Board, s: Seq<Move>) -> bool {
    let stm = b.current_color;
    let mb = b.pieces@;
    let from: int = if stm == PieceColor::White {
        4
    } else {
        60
    };
    let kflag: u8 = if stm == PieceColor::White {
        0x1
    } else {
        0x4
    };
    let qflag: u8 = if stm == PieceColor::White {
        0x2
    } else {
        0x8
    };
    let kto: int = if stm == PieceColor::White {
        6
    } else {
        62
    };
    let krf: int = if stm == PieceColor::White {
        7
    } else {
        63
    };
    let krt: int = if stm == PieceColor::White {
        5
    } else {
        61
    };
    let qto: int = if stm == PieceColor::White {
        2
    } else {
        58
    };
    let qrf: int = if stm == PieceColor::White {
        0
    } else {
        56
    };
    let qrt: int = if stm == PieceColor::White {
        3
    } else {
        59
    };
    let qbetween: int = if stm == PieceColor::White {
        1
    } else {
        57
    };
    &&& (b.castle_flags & kflag != 0 && mb[from] == Piece::spec_new(PieceType::King, stm)
        && mb[kto] == Piece::Empty && mb[krf] == Piece::spec_new(PieceType::Rook, stm) && mb[krt]
        == Piece::Empty) ==> spec_has_move(s, from, kto)
    &&& (b.castle_flags & qflag != 0 && mb[from] == Piece::spec_new(PieceType::King, stm)
        && mb[qto] == Piece::Empty && mb[qrf] == Piece::spec_new(PieceType::Rook, stm) && mb[qrt]
        == Piece::Empty && mb[qbetween] == Piece::Empty) ==> spec_has_move(s, from, qto)
}

/// Extending a list keeps the pawn, en-passant and castle coverage.
proof fn lemma_pawn_covered_extend(b: Board, pre: Seq<Move>, post: Seq<Move>, captures_only: bool)
    requires
        pre.len() <= post.len(),
        post.subrange(0, pre.len() as int) == pre,
    ensures
        spec_pawn_covered(b, pre, captures_only) ==> spec_pawn_covered(b, post, captures_only),
        spec_ep_covered(b, pre) ==> spec_ep_covered(b, post),
        spec_castles_covered(b, pre) ==> spec_castles_covered(b, post),
{
    lemma_has_move_extend(pre, post);
}

/// Extending a list keeps a family covered.
proof fn lemma_covered_extend(b: Board, piece_type: PieceType, pre: Seq<Move>, post: Seq<Move>)
    requires
        pre.len() <= post.len(),
        post.subrange(0, pre.len() as int) == pre,
    ensures
        spec_family_covered(b, piece_type, pre) ==> spec_family_covered(b, piece_type, post),
        spec_family_captures_covered(b, piece_type, pre) ==> spec_family_captures_covered(
            b,
            piece_type,
            post,
        ),
{
    lemma_has_move_extend(pre, post);
}

impl Moves {
    pub fn new() -> (r: Moves)
        ensures
            r.moves@ == Seq::<Move>::empty(),
    {
        let r = Moves { moves: Vec::new() };
        proof {
            assert(r.moves@ =~= Seq::<Move>::empty());
        }
        r
    }

    pub fn push(&mut self, m: Move)
        ensures
            final(self).moves@ == old(self).moves@.push(m),
    {
        self.moves.push(m);
    }

    pub fn len(&self) -> (r: usize)
        ensures
            r == self.moves@.len(),
    {
        self.moves.len()
    }

    pub fn is_empty(&self) -> (r: bool)
        ensures
            r == (self.moves@.len() == 0),
    {
        self.moves.len() == 0
    }

    pub fn get(&self, i: usize) -> (r: Move)
        requires
            i < self.moves@.len(),
        ensures
            r == self.moves@[i as int],
    {
        self.moves[i]
    }

    /// Exchange two entries, as the in-place selection ordering needs.
    pub fn swap(&mut self, i: usize, j: usize)
        requires
            i < old(self).moves@.len(),
            j < old(self).moves@.len(),
        ensures
            final(self).moves@ == old(self).moves@.update(i as int, old(self).moves@[j as int])
                .update(j as int, old(self).moves@[i as int]),
    {
        let a = self.moves[i];
        let b = self.moves[j];
        self.moves[i] = b;
        self.moves[j] = a;
    }
}

/// A non-empty piece is its own type and colour put back together.
proof fn lemma_piece_roundtrip(p: Piece)
    ensures
        p != Piece::Empty ==> Piece::spec_new(p.spec_type(), p.spec_color()) == p,
{
}

/// Appending one fitting move keeps a list fitting, prefix intact.
proof fn lemma_push_ok(b: Board, pre: Seq<Move>, m: Move, n0: int)
    requires
        0 <= n0 <= pre.len(),
        all_ok_from(b, pre, n0),
        spec_move_ok(b, m),
    ensures
        all_ok_from(b, pre.push(m), n0),
        pre.push(m).subrange(0, n0) == pre.subrange(0, n0),
{
    assert forall|i: int| n0 <= i < pre.push(m).len() implies spec_move_ok(b, #[trigger] pre.push(m)[i]) by {
        if i < pre.len() {
            assert(pre.push(m)[i] == pre[i]);
        } else {
            assert(pre.push(m)[i] == m);
        }
    }
    assert(pre.push(m).subrange(0, n0) =~= pre.subrange(0, n0));
}

/// Appending a capturing move keeps a capturing list capturing.
proof fn lemma_push_cap(pre: Seq<Move>, m: Move, n0: int)
    requires
        0 <= n0 <= pre.len(),
        all_captures_from(pre, n0),
        m.spec_captured() != PieceType::Empty,
    ensures
        all_captures_from(pre.push(m), n0),
{
    assert forall|i: int|
        n0 <= i < pre.push(m).len() implies (#[trigger] pre.push(m)[i]).spec_captured()
        != PieceType::Empty by {
        if i < pre.len() {
            assert(pre.push(m)[i] == pre[i]);
        } else {
            assert(pre.push(m)[i] == m);
        }
    }
}

/// A helper that extended a capturing list with capturing moves keeps
/// it capturing from any earlier point.
proof fn lemma_extend_cap(pre: Seq<Move>, post: Seq<Move>, n0: int)
    requires
        0 <= n0 <= pre.len() <= post.len(),
        post.subrange(0, pre.len() as int) == pre,
        all_captures_from(pre, n0),
        all_captures_from(post, pre.len() as int),
    ensures
        all_captures_from(post, n0),
{
    assert forall|i: int|
        n0 <= i < post.len() implies (#[trigger] post[i]).spec_captured() != PieceType::Empty by {
        if i < pre.len() {
            assert(post[i] == post.subrange(0, pre.len() as int)[i]);
        }
    }
}

/// A helper that extended the list past `pre` keeps it fitting from any
/// earlier point, prefix intact.
proof fn lemma_extend_ok(b: Board, pre: Seq<Move>, post: Seq<Move>, n0: int)
    requires
        0 <= n0 <= pre.len() <= post.len(),
        post.subrange(0, pre.len() as int) == pre,
        all_ok_from(b, pre, n0),
        all_ok_from(b, post, pre.len() as int),
    ensures
        all_ok_from(b, post, n0),
        post.subrange(0, n0) == pre.subrange(0, n0),
{
    assert forall|i: int| 0 <= i < pre.len() implies post[i] == pre[i] by {
        assert(pre[i] == post.subrange(0, pre.len() as int)[i]);
    }
    assert forall|i: int| n0 <= i < post.len() implies spec_move_ok(b, #[trigger] post[i]) by {
        if i < pre.len() {
            assert(post[i] == pre[i]);
        }
    }
    assert(post.subrange(0, n0) =~= pre.subrange(0, n0));
}

/// Take the lowest set bit out of `bits` and say which square it was.
fn pop_lowest(bits: &mut u64) -> (sq: usize)
    requires
        *old(bits) != 0,
    ensures
        sq < 64,
        bit64(*old(bits), sq as u64),
        *final(bits) == *old(bits) & !(1u64 << (sq as u64)),
        *final(bits) < *old(bits),
    decreases *old(bits),
{
    proof {
        vstd::std_specs::bits::axiom_u64_trailing_zeros(*bits);
    }
    let tz = bits.trailing_zeros();
    proof {
        crate::bitboards::lemma_clear_bit_decreases(*bits, tz as u64);
    }
    *bits = *bits & !(1u64 << tz);
    tz as usize
}

/// Bits of `mask & !own` point at squares free of `stm`'s own pieces.
proof fn lemma_targets_not_own(b: Board, attacks: u64, own: u64, stm: PieceColor)
    requires
        b.wf(),
        stm == b.current_color,
        own == b.bit_boards.occupancy[stm.idx()],
    ensures
        forall|j: u64|
            j < 64 && #[trigger] bit64(attacks & !own, j) ==> (b.pieces@[j as int] == Piece::Empty
                || b.pieces@[j as int].spec_color() == stm.spec_opposite()),
{
    assert forall|j: u64|
        j < 64 && #[trigger] bit64(attacks & !own, j) implies (b.pieces@[j as int] == Piece::Empty
        || b.pieces@[j as int].spec_color() == stm.spec_opposite()) by {
        lemma_bit_and(attacks, !own, j);
        lemma_bit_not(own, j);
        let ji = j as int;
        assert(bit64(b.bit_boards.occupancy[stm.idx()], ji as u64) <==> (b.pieces@[ji]
            != Piece::Empty && b.pieces@[ji].spec_color().idx() == stm.idx()));
        assert(b.pieces@[ji].spec_color() == stm || b.pieces@[ji].spec_color()
            == stm.spec_opposite());
    }
}

/// Bits of `mask & enemy` point at squares holding an enemy piece.
proof fn lemma_targets_enemy(b: Board, attacks: u64, enemy: u64, stm: PieceColor)
    requires
        b.wf(),
        stm == b.current_color,
        enemy == b.bit_boards.occupancy[stm.spec_opposite().idx()],
    ensures
        forall|j: u64|
            j < 64 && #[trigger] bit64(attacks & enemy, j) ==> (b.pieces@[j as int] != Piece::Empty
                && b.pieces@[j as int].spec_color() == stm.spec_opposite()),
{
    assert forall|j: u64|
        j < 64 && #[trigger] bit64(attacks & enemy, j) implies (b.pieces@[j as int] != Piece::Empty
        && b.pieces@[j as int].spec_color() == stm.spec_opposite()) by {
        lemma_bit_and(attacks, enemy, j);
        let ji = j as int;
        assert(bit64(b.bit_boards.occupancy[stm.spec_opposite().idx()], ji as u64) <==> (
        b.pieces@[ji] != Piece::Empty && b.pieces@[ji].spec_color().idx()
            == stm.spec_opposite().idx()));
        assert(b.pieces@[ji].spec_color() == stm || b.pieces@[ji].spec_color()
            == stm.spec_opposite());
    }
}

/// Emit one move per set bit of `attacks`: a quiet move to an empty
/// square, a capture to an enemy-held one. Every attack bit other than
/// the piece's own square ends up in the list.
fn generate_piece_moves(board: &Board, moves: &mut Moves, square: usize, attacks: u64)
    requires
        board.wf(),
        square < 64,
        board.pieces@[square as int] != Piece::Empty,
        board.pieces@[square as int].spec_color() == board.current_color,
        forall|j: u64|
            j < 64 && #[trigger] bit64(attacks, j) ==> (board.pieces@[j as int] == Piece::Empty
                || board.pieces@[j as int].spec_color()
                == board.current_color.spec_opposite()),
    ensures
        final(moves).moves@.len() >= old(moves).moves@.len(),
        final(moves).moves@.subrange(0, old(moves).moves@.len() as int) == old(moves).moves@,
        all_ok_from(*board, final(moves).moves@, old(moves).moves@.len() as int),
        (forall|j: u64|
            j < 64 && #[trigger] bit64(attacks, j) ==> board.pieces@[j as int] != Piece::Empty)
            ==> all_captures_from(final(moves).moves@, old(moves).moves@.len() as int),
        forall|t: u64|
            t < 64 && #[trigger] bit64(attacks, t) && t != square ==> spec_has_move(
                final(moves).moves@,
                square as int,
                t as int,
            ),
{
    let piece = board.piece_at(square);
    let ghost occupied_only = forall|j: u64|
        j < 64 && #[trigger] bit64(attacks, j) ==> board.pieces@[j as int] != Piece::Empty;
    let mut rest = attacks;
    while rest != 0
        invariant
            board.wf(),
            square < 64,
            piece == board.pieces@[square as int],
            piece != Piece::Empty,
            piece.spec_color() == board.current_color,
            forall|j: u64| j < 64 && #[trigger] bit64(rest, j) ==> bit64(attacks, j),
            forall|j: u64|
                j < 64 && #[trigger] bit64(attacks, j) ==> (board.pieces@[j as int] == Piece::Empty
                    || board.pieces@[j as int].spec_color()
                    == board.current_color.spec_opposite()),
            occupied_only == (forall|j: u64|
                j < 64 && #[trigger] bit64(attacks, j) ==> board.pieces@[j as int]
                    != Piece::Empty),
            moves.moves@.len() >= old(moves).moves@.len(),
            moves.moves@.subrange(0, old(moves).moves@.len() as int) == old(moves).moves@,
            all_ok_from(*board, moves.moves@, old(moves).moves@.len() as int),
            occupied_only ==> all_captures_from(moves.moves@, old(moves).moves@.len() as int),
            forall|t: u64|
                t < 64 && #[trigger] bit64(attacks, t) && !bit64(rest, t) && t != square
                    ==> spec_has_move(moves.moves@, square as int, t as int),
        decreases rest,
    {
        let ghost rest0 = rest;
        let to = pop_lowest(&mut rest);
        proof {
            assert forall|j: u64|
                j < 64 implies bit64(rest, j) == (j != to && bit64(rest0, j)) by {
                lemma_bit_clear_one(rest0, to as u64, j);
            }
        }
        if to != square {
            proof {
                lemma_piece_roundtrip(board.pieces@[to as int]);
            }
            let cap_piece = board.piece_at(to);
            let capture = cap_piece.get_type();
            let mt = if capture == PieceType::Empty {
                MoveType::QuietMove
            } else {
                MoveType::Capture
            };
            let m = Move::new(square as u32, to as u32, mt, piece, capture);
            let ghost pre = moves.moves@;
            moves.push(m);
            proof {
                assert(spec_move_ok(*board, m));
                lemma_push_ok(*board, pre, m, old(moves).moves@.len() as int);
                if occupied_only {
                    assert(board.pieces@[to as int] != Piece::Empty);
                    lemma_push_cap(pre, m, old(moves).moves@.len() as int);
                }
                assert(moves.moves@.subrange(0, pre.len() as int) =~= pre);
                lemma_has_move_extend(pre, moves.moves@);
                assert(moves.moves@[pre.len() as int] == m);
                assert(spec_has_move(moves.moves@, square as int, to as int));
            }
        }
    }
    proof {
        assert forall|t: u64|
            t < 64 && #[trigger] bit64(attacks, t) && t != square implies spec_has_move(
            moves.moves@,
            square as int,
            t as int,
        ) by {
            crate::bitboards::lemma_bit_zero(t);
        }
    }
}

proof fn lemma_pawn_push_white(x: u64, occ: u64, j: u64)
    requires
        j < 64,
    ensures
        bit64((x << 8) & !occ, j) ==> (j >= 8 && bit64(x, (j - 8) as u64) && !bit64(occ, j)),
{
    assert(j < 64 ==> ((((((x << 8) & !occ) >> j) & 1) == 1) ==> (j >= 8 && ((x >> ((j - 8) as u64)) & 1
        == 1) && !((occ >> j) & 1 == 1)))) by (bit_vector);
}

proof fn lemma_pawn_push_black(x: u64, occ: u64, j: u64)
    requires
        j < 64,
    ensures
        bit64((x >> 8) & !occ, j) ==> (j <= 55 && bit64(x, (j + 8) as u64) && !bit64(occ, j)),
{
    assert(j < 64 ==> ((((((x >> 8) & !occ) >> j) & 1) == 1) ==> (j <= 55 && ((x >> (j + 8)) & 1
        == 1) && !((occ >> j) & 1 == 1)))) by (bit_vector);
}

proof fn lemma_pawn_capture_white(x: u64, j: u64)
    requires
        j < 64,
    ensures
        bit64(((x << 8) >> 1) & 0x7f7f7f7f7f7f7f7f, j) ==> (j % 8 != 7 && j >= 7 && bit64(
            x,
            (j - 7) as u64,
        )),
        bit64(((x << 8) << 1) & 0xfefefefefefefefe, j) ==> (j % 8 != 0 && j >= 9 && bit64(
            x,
            (j - 9) as u64,
        )),
{
    assert(j < 64 ==> (((((((x << 8) >> 1) & 0x7f7f7f7f7f7f7f7f) >> j) & 1) == 1) ==> (j % 8 != 7
        && j >= 7 && ((x >> ((j - 7) as u64)) & 1 == 1)))) by (bit_vector);
    assert(j < 64 ==> (((((((x << 8) << 1) & 0xfefefefefefefefe) >> j) & 1) == 1) ==> (j % 8 != 0
        && j >= 9 && ((x >> ((j - 9) as u64)) & 1 == 1)))) by (bit_vector);
}

proof fn lemma_pawn_capture_black(x: u64, j: u64)
    requires
        j < 64,
    ensures
        bit64(((x >> 8) >> 1) & 0x7f7f7f7f7f7f7f7f, j) ==> (j % 8 != 7 && j <= 54 && bit64(
            x,
            (j + 9) as u64,
        )),
        bit64(((x >> 8) << 1) & 0xfefefefefefefefe, j) ==> (j % 8 != 0 && j <= 56 && bit64(
            x,
            (j + 7) as u64,
        )),
{
    assert(j < 64 ==> (((((((x >> 8) >> 1) & 0x7f7f7f7f7f7f7f7f) >> j) & 1) == 1) ==> (j % 8 != 7
        && j <= 54 && ((x >> (j + 9)) & 1 == 1)))) by (bit_vector);
    assert(j < 64 ==> (((((((x >> 8) << 1) & 0xfefefefefefefefe) >> j) & 1) == 1) ==> (j % 8 != 0
        && j <= 56 && ((x >> (j + 7)) & 1 == 1)))) by (bit_vector);
}

/// Emit the four promotion choices, or the single pawn move when the
/// target rank is not the last.
fn push_pawn_moves(
    board: &Board,
    moves: &mut Moves,
    from: usize,
    to: usize,
    capture: PieceType,
    promotion_rank: usize,
)
    requires
        board.wf(),
        from < 64,
        to < 64,
        from != to,
        board.pieces@[from as int] == Piece::spec_new(PieceType::Pawn, board.current_color),
        promotion_rank == if board.current_color == PieceColor::White {
            7int
        } else {
            0int
        },
        capture == PieceType::Empty ==> board.pieces@[to as int] == Piece::Empty,
        capture != PieceType::Empty ==> board.pieces@[to as int] == Piece::spec_new(
            capture,
            board.current_color.spec_opposite(),
        ) && capture.idx() < 7,
    ensures
        final(moves).moves@.len() >= old(moves).moves@.len(),
        final(moves).moves@.subrange(0, old(moves).moves@.len() as int) == old(moves).moves@,
        all_ok_from(*board, final(moves).moves@, old(moves).moves@.len() as int),
        capture != PieceType::Empty ==> all_captures_from(
            final(moves).moves@,
            old(moves).moves@.len() as int,
        ),
        spec_has_move(final(moves).moves@, from as int, to as int),
{
    let stm = board.current_color;
    let ghost n0 = old(moves).moves@.len() as int;
    if to / 8 == promotion_rank {
        let m1 = Move::new(
            from as u32,
            to as u32,
            MoveType::Promote,
            Piece::new(PieceType::Queen, stm),
            capture,
        );
        let m2 = Move::new(
            from as u32,
            to as u32,
            MoveType::Promote,
            Piece::new(PieceType::Knight, stm),
            capture,
        );
        let m3 = Move::new(
            from as u32,
            to as u32,
            MoveType::Promote,
            Piece::new(PieceType::Rook, stm),
            capture,
        );
        let m4 = Move::new(
            from as u32,
            to as u32,
            MoveType::Promote,
            Piece::new(PieceType::Bishop, stm),
            capture,
        );
        let ghost pre = moves.moves@;
        moves.push(m1);
        proof {
            assert(spec_move_ok(*board, m1));
            lemma_push_ok(*board, pre, m1, n0);
            if capture != PieceType::Empty {
                lemma_push_cap(pre, m1, n0);
            }
        }
        let ghost pre2 = moves.moves@;
        moves.push(m2);
        proof {
            assert(spec_move_ok(*board, m2));
            lemma_push_ok(*board, pre2, m2, n0);
            if capture != PieceType::Empty {
                lemma_push_cap(pre2, m2, n0);
            }
        }
        let ghost pre3 = moves.moves@;
        moves.push(m3);
        proof {
            assert(spec_move_ok(*board, m3));
            lemma_push_ok(*board, pre3, m3, n0);
            if capture != PieceType::Empty {
                lemma_push_cap(pre3, m3, n0);
            }
        }
        let ghost pre4 = moves.moves@;
        moves.push(m4);
        proof {
            assert(spec_move_ok(*board, m4));
            lemma_push_ok(*board, pre4, m4, n0);
            if capture != PieceType::Empty {
                lemma_push_cap(pre4, m4, n0);
            }
            assert(moves.moves@[pre4.len() as int] == m4);
            assert(spec_has_move(moves.moves@, from as int, to as int));
        }
    } else {
        let m = Move::new(
            from as u32,
            to as u32,
            MoveType::QuietMove,
            Piece::new(PieceType::Pawn, stm),
            capture,
        );
        let ghost pre = moves.moves@;
        moves.push(m);
        proof {
            assert(spec_move_ok(*board, m));
            lemma_push_ok(*board, pre, m, n0);
            if capture != PieceType::Empty {
                lemma_push_cap(pre, m, n0);
            }
            assert(moves.moves@[pre.len() as int] == m);
            assert(spec_has_move(moves.moves@, from as int, to as int));
        }
    }
}

/// Pawn pushes, double pushes, diagonal captures, promotions and
/// en-passant captures for the side to move. Every move of each kind is
/// in the list: one per set bit of the shifted pawn words, plus the
/// double pushes and the en-passant captures whose squares stand right.
fn generate_pawn_moves(board: &Board, moves: &mut Moves, captures_only: bool)
    requires
        board.wf(),
    ensures
        final(moves).moves@.len() >= old(moves).moves@.len(),
        final(moves).moves@.subrange(0, old(moves).moves@.len() as int) == old(moves).moves@,
        all_ok_from(*board, final(moves).moves@, old(moves).moves@.len() as int),
        captures_only ==> all_captures_from(final(moves).moves@, old(moves).moves@.len() as int),
        spec_pawn_covered(*board, final(moves).moves@, captures_only),
        spec_ep_covered(*board, final(moves).moves@),
{
    let stm = board.current_color;
    let is_white = stm == PieceColor::White;
    let pawn = Piece::new(PieceType::Pawn, stm);
    let pawns = board.bit_boards.pieces[pawn.index()];
    let occ = board.bit_boards.occupancy();
    let enemy = board.bit_boards.col_occupancy(stm.opposite());
    let promotion_rank: usize = if is_white {
        7
    } else {
        0
    };
    let ghost n0 = old(moves).moves@.len() as int;

    if !captures_only {
        let pushed = if is_white {
            pawns << 8u64
        } else {
            pawns >> 8u64
        };
        let mut pawn_targets = pushed & !occ;
        let ghost pword = pushed & !occ;
        while pawn_targets != 0
            invariant
                board.wf(),
                stm == board.current_color,
                is_white == (stm == PieceColor::White),
                pawn == Piece::spec_new(PieceType::Pawn, stm),
                pawns == board.bit_boards.pieces[pawn.idx()],
                occ == board.bit_boards.occupancy[0] | board.bit_boards.occupancy[1],
                promotion_rank == if is_white {
                    7int
                } else {
                    0int
                },
                pword == if is_white {
                    (pawns << 8u64) & !occ
                } else {
                    (pawns >> 8u64) & !occ
                },
                forall|j: u64| j < 64 && #[trigger] bit64(pawn_targets, j) ==> bit64(pword, j),
                n0 == old(moves).moves@.len(),
                !captures_only,
                moves.moves@.len() >= n0,
                moves.moves@.subrange(0, n0) == old(moves).moves@,
                all_ok_from(*board, moves.moves@, n0),
                is_white ==> forall|t: u64|
                    t < 64 && #[trigger] bit64(pword, t) && !bit64(pawn_targets, t)
                        ==> spec_has_move(moves.moves@, t as int - 8, t as int),
                !is_white ==> forall|t: u64|
                    t < 64 && #[trigger] bit64(pword, t) && !bit64(pawn_targets, t)
                        ==> spec_has_move(moves.moves@, t as int + 8, t as int),
                is_white ==> forall|t: u64|
                    t < 64 && #[trigger] bit64(pword, t) && !bit64(pawn_targets, t) && 8 <= t as int
                        - 8 < 16 && t + 8 < 64 && !bit64(occ, (t + 8) as u64) ==> spec_has_move(
                        moves.moves@,
                        t as int - 8,
                        t as int + 8,
                    ),
                !is_white ==> forall|t: u64|
                    t < 64 && #[trigger] bit64(pword, t) && !bit64(pawn_targets, t) && 48 <= t as int
                        + 8 < 56 && t as int - 8 >= 0 && !bit64(occ, (t - 8) as u64)
                        ==> spec_has_move(moves.moves@, t as int + 8, t as int - 8),
            decreases pawn_targets,
        {
            let ghost rest0 = pawn_targets;
            let to = pop_lowest(&mut pawn_targets);
            proof {
                assert forall|j: u64|
                    j < 64 implies bit64(pawn_targets, j) == (j != to && bit64(rest0, j)) by {
                    lemma_bit_clear_one(rest0, to as u64, j);
                }
                if is_white {
                    lemma_pawn_push_white(pawns, occ, to as u64);
                } else {
                    lemma_pawn_push_black(pawns, occ, to as u64);
                }
                lemma_bit_or(
                    board.bit_boards.occupancy[0],
                    board.bit_boards.occupancy[1],
                    to as u64,
                );
            }
            let from = if is_white {
                to - 8
            } else {
                to + 8
            };
            let starting_rank: usize = if is_white {
                1
            } else {
                6
            };

            if from / 8 == starting_rank {
                let to2 = if is_white {
                    to + 8
                } else {
                    to - 8
                };
                proof {
                    lemma_bit_or(
                        board.bit_boards.occupancy[0],
                        board.bit_boards.occupancy[1],
                        to2 as u64,
                    );
                }
                if !board.is_occupied(to2) {
                    let m = Move::new(
                        from as u32,
                        to2 as u32,
                        MoveType::DoublePush,
                        pawn,
                        PieceType::Empty,
                    );
                    let ghost pre = moves.moves@;
                    moves.push(m);
                    proof {
                        assert(spec_move_ok(*board, m));
                        lemma_push_ok(*board, pre, m, n0);
                        assert(moves.moves@.subrange(0, pre.len() as int) =~= pre);
                        lemma_has_move_extend(pre, moves.moves@);
                        assert(moves.moves@[pre.len() as int] == m);
                        assert(spec_has_move(moves.moves@, from as int, to2 as int));
                    }
                }
            }
            let ghost pre_h = moves.moves@;
            push_pawn_moves(board, moves, from, to, PieceType::Empty, promotion_rank);
            proof {
                lemma_extend_ok(*board, pre_h, moves.moves@, n0);
                lemma_has_move_extend(pre_h, moves.moves@);
            }
        }
        proof {
            assert forall|j: u64| j < 64 implies !bit64(pawn_targets, j) by {
                crate::bitboards::lemma_bit_zero(j);
            }
        }
    }

    let shifted = if is_white {
        pawns << 8u64
    } else {
        pawns >> 8u64
    };
    let ghost pword = if is_white {
        (pawns << 8u64) & !occ
    } else {
        (pawns >> 8u64) & !occ
    };
    let ghost push_done = !captures_only;
    let mut left_targets = ((shifted >> 1u64) & 0x7f7f7f7f7f7f7f7fu64) & enemy;
    let ghost lword = ((shifted >> 1u64) & 0x7f7f7f7f7f7f7f7fu64) & enemy;
    while left_targets != 0
        invariant
            board.wf(),
            stm == board.current_color,
            is_white == (stm == PieceColor::White),
            pawn == Piece::spec_new(PieceType::Pawn, stm),
            pawns == board.bit_boards.pieces[pawn.idx()],
            occ == board.bit_boards.occupancy[0] | board.bit_boards.occupancy[1],
            shifted == if is_white {
                pawns << 8u64
            } else {
                pawns >> 8u64
            },
            pword == if is_white {
                (pawns << 8u64) & !occ
            } else {
                (pawns >> 8u64) & !occ
            },
            lword == ((shifted >> 1u64) & 0x7f7f7f7f7f7f7f7fu64) & enemy,
            push_done == !captures_only,
            enemy == board.bit_boards.occupancy[stm.spec_opposite().idx()],
            promotion_rank == if is_white {
                7int
            } else {
                0int
            },
            forall|j: u64| j < 64 && #[trigger] bit64(left_targets, j) ==> bit64(lword, j),
            n0 == old(moves).moves@.len(),
            moves.moves@.len() >= n0,
            moves.moves@.subrange(0, n0) == old(moves).moves@,
            all_ok_from(*board, moves.moves@, n0),
            captures_only ==> all_captures_from(moves.moves@, n0),
            push_done && is_white ==> forall|t: u64|
                t < 64 && #[trigger] bit64(pword, t) ==> spec_has_move(
                    moves.moves@,
                    t as int - 8,
                    t as int,
                ),
            push_done && !is_white ==> forall|t: u64|
                t < 64 && #[trigger] bit64(pword, t) ==> spec_has_move(
                    moves.moves@,
                    t as int + 8,
                    t as int,
                ),
            push_done && is_white ==> forall|t: u64|
                t < 64 && #[trigger] bit64(pword, t) && 8 <= t as int - 8 < 16 && t + 8 < 64
                    && !bit64(occ, (t + 8) as u64) ==> spec_has_move(
                    moves.moves@,
                    t as int - 8,
                    t as int + 8,
                ),
            push_done && !is_white ==> forall|t: u64|
                t < 64 && #[trigger] bit64(pword, t) && 48 <= t as int + 8 < 56 && t as int - 8 >= 0
                    && !bit64(occ, (t - 8) as u64) ==> spec_has_move(
                    moves.moves@,
                    t as int + 8,
                    t as int - 8,
                ),
            is_white ==> forall|t: u64|
                t < 64 && #[trigger] bit64(lword, t) && !bit64(left_targets, t) ==> spec_has_move(
                    moves.moves@,
                    t as int - 7,
                    t as int,
                ),
            !is_white ==> forall|t: u64|
                t < 64 && #[trigger] bit64(lword, t) && !bit64(left_targets, t) ==> spec_has_move(
                    moves.moves@,
                    t as int + 9,
                    t as int,
                ),
        decreases left_targets,
    {
        let ghost rest0 = left_targets;
        let to = pop_lowest(&mut left_targets);
        proof {
            assert forall|j: u64|
                j < 64 implies bit64(left_targets, j) == (j != to && bit64(rest0, j)) by {
                lemma_bit_clear_one(rest0, to as u64, j);
            }
            lemma_bit_and((shifted >> 1u64) & 0x7f7f7f7f7f7f7f7fu64, enemy, to as u64);
            if is_white {
                lemma_pawn_capture_white(pawns, to as u64);
            } else {
                lemma_pawn_capture_black(pawns, to as u64);
            }
        }
        let from = if is_white {
            to - 7
        } else {
            to + 9
        };
        proof {
            lemma_piece_roundtrip(board.pieces@[to as int]);
        }
        let cap_piece = board.piece_at(to);
        let cap_type = cap_piece.get_type();
        let ghost pre_h = moves.moves@;
        push_pawn_moves(board, moves, from, to, cap_type, promotion_rank);
        proof {
            lemma_extend_ok(*board, pre_h, moves.moves@, n0);
            if captures_only {
                lemma_extend_cap(pre_h, moves.moves@, n0);
            }
            lemma_has_move_extend(pre_h, moves.moves@);
        }
    }
    proof {
        assert forall|j: u64| j < 64 implies !bit64(left_targets, j) by {
            crate::bitboards::lemma_bit_zero(j);
        }
    }

    let mut right_targets = ((shifted << 1u64) & 0xfefefefefefefefeu64) & enemy;
    let ghost rword = ((shifted << 1u64) & 0xfefefefefefefefeu64) & enemy;
    while right_targets != 0
        invariant
            board.wf(),
            stm == board.current_color,
            is_white == (stm == PieceColor::White),
            pawn == Piece::spec_new(PieceType::Pawn, stm),
            pawns == board.bit_boards.pieces[pawn.idx()],
            occ == board.bit_boards.occupancy[0] | board.bit_boards.occupancy[1],
            shifted == if is_white {
                pawns << 8u64
            } else {
                pawns >> 8u64
            },
            pword == if is_white {
                (pawns << 8u64) & !occ
            } else {
                (pawns >> 8u64) & !occ
            },
            lword == ((shifted >> 1u64) & 0x7f7f7f7f7f7f7f7fu64) & enemy,
            rword == ((shifted << 1u64) & 0xfefefefefefefefeu64) & enemy,
            push_done == !captures_only,
            enemy == board.bit_boards.occupancy[stm.spec_opposite().idx()],
            promotion_rank == if is_white {
                7int
            } else {
                0int
            },
            forall|j: u64| j < 64 && #[trigger] bit64(right_targets, j) ==> bit64(rword, j),
            n0 == old(moves).moves@.len(),
            moves.moves@.len() >= n0,
            moves.moves@.subrange(0, n0) == old(moves).moves@,
            all_ok_from(*board, moves.moves@, n0),
            captures_only ==> all_captures_from(moves.moves@, n0),
            push_done && is_white ==> forall|t: u64|
                t < 64 && #[trigger] bit64(pword, t) ==> spec_has_move(
                    moves.moves@,
                    t as int - 8,
                    t as int,
                ),
            push_done && !is_white ==> forall|t: u64|
                t < 64 && #[trigger] bit64(pword, t) ==> spec_has_move(
                    moves.moves@,
                    t as int + 8,
                    t as int,
                ),
            push_done && is_white ==> forall|t: u64|
                t < 64 && #[trigger] bit64(pword, t) && 8 <= t as int - 8 < 16 && t + 8 < 64
                    && !bit64(occ, (t + 8) as u64) ==> spec_has_move(
                    moves.moves@,
                    t as int - 8,
                    t as int + 8,
                ),
            push_done && !is_white ==> forall|t: u64|
                t < 64 && #[trigger] bit64(pword, t) && 48 <= t as int + 8 < 56 && t as int - 8 >= 0
                    && !bit64(occ, (t - 8) as u64) ==> spec_has_move(
                    moves.moves@,
                    t as int + 8,
                    t as int - 8,
                ),
            is_white ==> forall|t: u64|
                t < 64 && #[trigger] bit64(lword, t) ==> spec_has_move(
                    moves.moves@,
                    t as int - 7,
                    t as int,
                ),
            !is_white ==> forall|t: u64|
                t < 64 && #[trigger] bit64(lword, t) ==> spec_has_move(
                    moves.moves@,
                    t as int + 9,
                    t as int,
                ),
            is_white ==> forall|t: u64|
                t < 64 && #[trigger] bit64(rword, t) && !bit64(right_targets, t) ==> spec_has_move(
                    moves.moves@,
                    t as int - 9,
                    t as int,
                ),
            !is_white ==> forall|t: u64|
                t < 64 && #[trigger] bit64(rword, t) && !bit64(right_targets, t) ==> spec_has_move(
                    moves.moves@,
                    t as int + 7,
                    t as int,
                ),
        decreases right_targets,
    {
        let ghost rest0 = right_targets;
        let to = pop_lowest(&mut right_targets);
        proof {
            assert forall|j: u64|
                j < 64 implies bit64(right_targets, j) == (j != to && bit64(rest0, j)) by {
                lemma_bit_clear_one(rest0, to as u64, j);
            }
            lemma_bit_and((shifted << 1u64) & 0xfefefefefefefefeu64, enemy, to as u64);
            if is_white {
                lemma_pawn_capture_white(pawns, to as u64);
            } else {
                lemma_pawn_capture_black(pawns, to as u64);
            }
        }
        let from = if is_white {
            to - 9
        } else {
            to + 7
        };
        proof {
            lemma_piece_roundtrip(board.pieces@[to as int]);
        }
        let cap_piece = board.piece_at(to);
        let cap_type = cap_piece.get_type();
        let ghost pre_h = moves.moves@;
        push_pawn_moves(board, moves, from, to, cap_type, promotion_rank);
        proof {
            lemma_extend_ok(*board, pre_h, moves.moves@, n0);
            if captures_only {
                lemma_extend_cap(pre_h, moves.moves@, n0);
            }
            lemma_has_move_extend(pre_h, moves.moves@);
        }
    }
    proof {
        assert forall|j: u64| j < 64 implies !bit64(right_targets, j) by {
            crate::bitboards::lemma_bit_zero(j);
        }
    }

    if let Some(last_double) = board.last_double {
        let ld = last_double as usize;
        let target = if is_white {
            ld + 8
        } else if ld >= 8 {
            ld - 8
        } else {
            64
        };
        let ep_file = ld % 8;
        let enemy_pawn = Piece::new(PieceType::Pawn, stm.opposite());

        if target < 64 && board.piece_at(ld) == enemy_pawn
            && board.piece_at(target) == Piece::Empty {
            if ep_file > 0 {
                let source = ld - 1;
                if board.piece_at(source) == pawn {
                    let m = Move::new(
                        source as u32,
                        target as u32,
                        MoveType::EnPassantCapture,
                        pawn,
                        PieceType::Pawn,
                    );
                    if board.move_applies(m) {
                        let ghost pre = moves.moves@;
                        moves.push(m);
                        proof {
                            lemma_push_ok(*board, pre, m, n0);
                            if captures_only {
                                lemma_push_cap(pre, m, n0);
                            }
                            assert(moves.moves@.subrange(0, pre.len() as int) =~= pre);
                            lemma_has_move_extend(pre, moves.moves@);
                            assert(moves.moves@[pre.len() as int] == m);
                            assert(spec_has_move(moves.moves@, source as int, target as int));
                        }
                    }
                }
            }
            if ep_file < 7 {
                let source = ld + 1;
                if board.piece_at(source) == pawn {
                    let m = Move::new(
                        source as u32,
                        target as u32,
                        MoveType::EnPassantCapture,
                        pawn,
                        PieceType::Pawn,
                    );
                    if board.move_applies(m) {
                        let ghost pre = moves.moves@;
                        moves.push(m);
                        proof {
                            lemma_push_ok(*board, pre, m, n0);
                            if captures_only {
                                lemma_push_cap(pre, m, n0);
                            }
                            assert(moves.moves@.subrange(0, pre.len() as int) =~= pre);
                            lemma_has_move_extend(pre, moves.moves@);
                            assert(moves.moves@[pre.len() as int] == m);
                            assert(spec_has_move(moves.moves@, source as int, target as int));
                        }
                    }
                }
            }
        }
    }
}

/// Castle moves whose squares check out: king on its home square, rook
/// in its corner, the squares between them empty, and the right held.
/// Whenever those conditions hold, the castle is in the list.
fn generate_castles(board: &Board, moves: &mut Moves)
    requires
        board.wf(),
    ensures
        final(moves).moves@.len() >= old(moves).moves@.len(),
        final(moves).moves@.subrange(0, old(moves).moves@.len() as int) == old(moves).moves@,
        all_ok_from(*board, final(moves).moves@, old(moves).moves@.len() as int),
        spec_castles_covered(*board, final(moves).moves@),
{
    let stm = board.current_color;
    let is_white = stm == PieceColor::White;
    let king = Piece::new(PieceType::King, stm);
    let ghost n0 = old(moves).moves@.len() as int;

    let kingside_flag: u8 = if is_white {
        WHITE_KINGSIDE_CASTLING
    } else {
        BLACK_KINGSIDE_CASTLING
    };
    let queenside_flag: u8 = if is_white {
        WHITE_QUEENSIDE_CASTLING
    } else {
        BLACK_QUEENSIDE_CASTLING
    };
    let from: usize = if is_white {
        4
    } else {
        60
    };

    if board.castle_flags & kingside_flag != 0 {
        let to: usize = if is_white {
            6
        } else {
            62
        };
        let transit: usize = if is_white {
            5
        } else {
            61
        };
        let m = Move::new(from as u32, to as u32, MoveType::KingCastle, king, PieceType::Empty);
        let _ = transit;
        if board.move_applies(m) {
            let ghost pre = moves.moves@;
            moves.push(m);
            proof {
                lemma_push_ok(*board, pre, m, n0);
                assert(moves.moves@[pre.len() as int] == m);
                assert(spec_has_move(moves.moves@, from as int, to as int));
            }
        }
    }

    if board.castle_flags & queenside_flag != 0 {
        let to: usize = if is_white {
            2
        } else {
            58
        };
        let between: usize = if is_white {
            1
        } else {
            57
        };
        let m = Move::new(from as u32, to as u32, MoveType::QueenCastle, king, PieceType::Empty);
        if board.piece_at(between) == Piece::Empty && board.move_applies(m) {
            let ghost pre = moves.moves@;
            moves.push(m);
            proof {
                lemma_push_ok(*board, pre, m, n0);
                assert(moves.moves@.subrange(0, pre.len() as int) =~= pre);
                lemma_has_move_extend(pre, moves.moves@);
                assert(moves.moves@[pre.len() as int] == m);
                assert(spec_has_move(moves.moves@, from as int, to as int));
            }
        }
    }
}

/// One piece family: walk its bitboard and emit its attack-set moves.
/// The family ends up covered: every piece of the family gets a move to
/// every attack-set target free of own pieces (for the captures
/// variant, to every enemy-held such target).
fn generate_for_piece(
    board: &Board,
    tables: &AttackLookup,
    moves: &mut Moves,
    piece_type: PieceType,
    captures_only: bool,
)
    requires
        board.wf(),
        tables.wf(),
        piece_type != PieceType::Empty,
    ensures
        final(moves).moves@.len() >= old(moves).moves@.len(),
        final(moves).moves@.subrange(0, old(moves).moves@.len() as int) == old(moves).moves@,
        all_ok_from(*board, final(moves).moves@, old(moves).moves@.len() as int),
        captures_only ==> all_captures_from(final(moves).moves@, old(moves).moves@.len() as int),
        !captures_only ==> spec_family_covered(*board, piece_type, final(moves).moves@),
        captures_only ==> spec_family_captures_covered(
            *board,
            piece_type,
            final(moves).moves@,
        ),
{
    let stm = board.current_color;
    let piece = Piece::new(piece_type, stm);
    let own = board.bit_boards.col_occupancy(stm);
    let enemy = board.bit_boards.col_occupancy(stm.opposite());
    let occ = board.bit_boards.occupancy();
    let ghost n0 = old(moves).moves@.len() as int;
    let ghost bb = board.bit_boards.pieces[piece.idx()];

    let mut rest = board.bit_boards.pieces[piece.index()];
    while rest != 0
        invariant
            board.wf(),
            tables.wf(),
            stm == board.current_color,
            piece == Piece::spec_new(piece_type, stm),
            piece != Piece::Empty,
            piece.spec_color() == stm,
            own == board.bit_boards.occupancy[stm.idx()],
            enemy == board.bit_boards.occupancy[stm.spec_opposite().idx()],
            occ == board.bit_boards.occupancy[0] | board.bit_boards.occupancy[1],
            bb == board.bit_boards.pieces[piece.idx()],
            forall|j: u64| j < 64 && #[trigger] bit64(rest, j) ==> bit64(bb, j),
            n0 == old(moves).moves@.len(),
            moves.moves@.len() >= n0,
            moves.moves@.subrange(0, n0) == old(moves).moves@,
            all_ok_from(*board, moves.moves@, n0),
            captures_only ==> all_captures_from(moves.moves@, n0),
            !captures_only ==> forall|sq2: u64, t: u64|
                sq2 < 64 && t < 64 && #[trigger] bit64(bb, sq2) && !bit64(rest, sq2)
                    && #[trigger] bit64(
                    spec_family_attacks(piece_type, sq2 as int, occ),
                    t,
                ) && !bit64(own, t) && t != sq2 ==> spec_has_move(
                    moves.moves@,
                    sq2 as int,
                    t as int,
                ),
            captures_only ==> forall|sq2: u64, t: u64|
                sq2 < 64 && t < 64 && #[trigger] bit64(bb, sq2) && !bit64(rest, sq2)
                    && #[trigger] bit64(
                    spec_family_attacks(piece_type, sq2 as int, occ),
                    t,
                ) && bit64(enemy, t) && !bit64(own, t) && t != sq2 ==> spec_has_move(
                    moves.moves@,
                    sq2 as int,
                    t as int,
                ),
        decreases rest,
    {
        let ghost rest0 = rest;
        let square = pop_lowest(&mut rest);
        proof {
            assert forall|j: u64|
                j < 64 implies bit64(rest, j) == (j != square && bit64(rest0, j)) by {
                lemma_bit_clear_one(rest0, square as u64, j);
            }
        }

        let base = if piece_type == PieceType::Knight {
            tables.knight[square]
        } else if piece_type == PieceType::King {
            tables.king[square]
        } else if piece_type == PieceType::Bishop {
            bishop_attacks(tables, square, occ)
        } else if piece_type == PieceType::Rook {
            rook_attacks(tables, square, occ)
        } else {
            rook_attacks(tables, square, occ) | bishop_attacks(tables, square, occ)
        };
        proof {
            assert(base == spec_family_attacks(piece_type, square as int, occ));
        }

        let attacks = if captures_only {
            (base & !own) & enemy
        } else {
            base & !own
        };
        proof {
            lemma_targets_not_own(*board, base, own, stm);
            if captures_only {
                lemma_targets_enemy(*board, base & !own, enemy, stm);
                assert forall|j: u64| j < 64 && #[trigger] bit64(attacks, j) implies (
                board.pieces@[j as int] == Piece::Empty || board.pieces@[j as int].spec_color()
                    == stm.spec_opposite()) by {
                    lemma_bit_and(base & !own, enemy, j);
                }
                assert forall|j: u64|
                    j < 64 && #[trigger] bit64(attacks, j) implies board.pieces@[j as int]
                    != Piece::Empty by {
                    lemma_bit_and(base & !own, enemy, j);
                }
            }
            assert forall|t: u64|
                t < 64 implies bit64(attacks, t) == if captures_only {
                bit64(base, t) && !bit64(own, t) && bit64(enemy, t)
            } else {
                bit64(base, t) && !bit64(own, t)
            } by {
                lemma_bit_not(own, t);
                lemma_bit_and(base, !own, t);
                if captures_only {
                    lemma_bit_and(base & !own, enemy, t);
                }
            }
        }
        let ghost pre_h = moves.moves@;
        generate_piece_moves(board, moves, square, attacks);
        proof {
            lemma_extend_ok(*board, pre_h, moves.moves@, n0);
            if captures_only {
                lemma_extend_cap(pre_h, moves.moves@, n0);
            }
            lemma_has_move_extend(pre_h, moves.moves@);
        }
    }
    proof {
        assert forall|j: u64| j < 64 implies !bit64(rest, j) by {
            crate::bitboards::lemma_bit_zero(j);
        }
    }
}

/// All pseudo-legal moves for the side to move. Every move in the list
/// fits the board in the sense `make_move` requires, and every knight,
/// king, bishop, rook and queen move of the position is in the list:
/// for each such piece and each attack-set target free of own pieces,
/// the move from that square to that target is a member.
pub fn generate_moves(board: &Board, tables: &AttackLookup) -> (r: Moves)
    requires
        board.wf(),
        tables.wf(),
    ensures
        all_ok_from(*board, r.moves@, 0),
        spec_pawn_covered(*board, r.moves@, false),
        spec_ep_covered(*board, r.moves@),
        spec_castles_covered(*board, r.moves@),
        spec_family_covered(*board, PieceType::Knight, r.moves@),
        spec_family_covered(*board, PieceType::King, r.moves@),
        spec_family_covered(*board, PieceType::Bishop, r.moves@),
        spec_family_covered(*board, PieceType::Rook, r.moves@),
        spec_family_covered(*board, PieceType::Queen, r.moves@),
{
    let mut moves = Moves::new();
    generate_pawn_moves(board, &mut moves, false);
    let ghost p1 = moves.moves@;
    generate_for_piece(board, tables, &mut moves, PieceType::Knight, false);
    proof {
        lemma_extend_ok(*board, p1, moves.moves@, 0);
        lemma_pawn_covered_extend(*board, p1, moves.moves@, false);
    }
    let ghost p2 = moves.moves@;
    generate_castles(board, &mut moves);
    proof {
        lemma_extend_ok(*board, p2, moves.moves@, 0);
        lemma_covered_extend(*board, PieceType::Knight, p2, moves.moves@);
        lemma_pawn_covered_extend(*board, p2, moves.moves@, false);
    }
    let ghost p3 = moves.moves@;
    generate_for_piece(board, tables, &mut moves, PieceType::King, false);
    proof {
        lemma_extend_ok(*board, p3, moves.moves@, 0);
        lemma_covered_extend(*board, PieceType::Knight, p3, moves.moves@);
        lemma_pawn_covered_extend(*board, p3, moves.moves@, false);
    }
    let ghost p4 = moves.moves@;
    generate_for_piece(board, tables, &mut moves, PieceType::Bishop, false);
    proof {
        lemma_extend_ok(*board, p4, moves.moves@, 0);
        lemma_covered_extend(*board, PieceType::Knight, p4, moves.moves@);
        lemma_pawn_covered_extend(*board, p4, moves.moves@, false);
        lemma_covered_extend(*board, PieceType::King, p4, moves.moves@);
    }
    let ghost p5 = moves.moves@;
    generate_for_piece(board, tables, &mut moves, PieceType::Rook, false);
    proof {
        lemma_extend_ok(*board, p5, moves.moves@, 0);
        lemma_covered_extend(*board, PieceType::Knight, p5, moves.moves@);
        lemma_pawn_covered_extend(*board, p5, moves.moves@, false);
        lemma_covered_extend(*board, PieceType::King, p5, moves.moves@);
        lemma_covered_extend(*board, PieceType::Bishop, p5, moves.moves@);
    }
    let ghost p6 = moves.moves@;
    generate_for_piece(board, tables, &mut moves, PieceType::Queen, false);
    proof {
        lemma_extend_ok(*board, p6, moves.moves@, 0);
        lemma_covered_extend(*board, PieceType::Knight, p6, moves.moves@);
        lemma_pawn_covered_extend(*board, p6, moves.moves@, false);
        lemma_covered_extend(*board, PieceType::King, p6, moves.moves@);
        lemma_covered_extend(*board, PieceType::Bishop, p6, moves.moves@);
        lemma_covered_extend(*board, PieceType::Rook, p6, moves.moves@);
    }
    moves
}

/// The capturing subset of the pseudo-legal moves, for the quiescence
/// search: slider, knight, pawn and king captures, capture promotions
/// and en passant. Every move in the list takes something, and every
/// knight, king, bishop, rook and queen capture of the position is in
/// the list.
pub fn generate_captures(board: &Board, tables: &AttackLookup) -> (r: Moves)
    requires
        board.wf(),
        tables.wf(),
    ensures
        all_ok_from(*board, r.moves@, 0),
        all_captures_from(r.moves@, 0),
        spec_pawn_covered(*board, r.moves@, true),
        spec_ep_covered(*board, r.moves@),
        spec_family_captures_covered(*board, PieceType::Knight, r.moves@),
        spec_family_captures_covered(*board, PieceType::King, r.moves@),
        spec_family_captures_covered(*board, PieceType::Bishop, r.moves@),
        spec_family_captures_covered(*board, PieceType::Rook, r.moves@),
        spec_family_captures_covered(*board, PieceType::Queen, r.moves@),
{
    let mut moves = Moves::new();
    generate_for_piece(board, tables, &mut moves, PieceType::Bishop, true);
    let ghost p1 = moves.moves@;
    generate_for_piece(board, tables, &mut moves, PieceType::Rook, true);
    proof {
        lemma_extend_ok(*board, p1, moves.moves@, 0);
        lemma_extend_cap(p1, moves.moves@, 0);
        lemma_covered_extend(*board, PieceType::Bishop, p1, moves.moves@);
    }
    let ghost p2 = moves.moves@;
    generate_for_piece(board, tables, &mut moves, PieceType::Queen, true);
    proof {
        lemma_extend_ok(*board, p2, moves.moves@, 0);
        lemma_extend_cap(p2, moves.moves@, 0);
        lemma_covered_extend(*board, PieceType::Bishop, p2, moves.moves@);
        lemma_covered_extend(*board, PieceType::Rook, p2, moves.moves@);
    }
    let ghost p3 = moves.moves@;
    generate_for_piece(board, tables, &mut moves, PieceType::Knight, true);
    proof {
        lemma_extend_ok(*board, p3, moves.moves@, 0);
        lemma_extend_cap(p3, moves.moves@, 0);
        lemma_covered_extend(*board, PieceType::Bishop, p3, moves.moves@);
        lemma_covered_extend(*board, PieceType::Rook, p3, moves.moves@);
        lemma_covered_extend(*board, PieceType::Queen, p3, moves.moves@);
    }
    let ghost p4 = moves.moves@;
    generate_pawn_moves(board, &mut moves, true);
    proof {
        lemma_extend_ok(*board, p4, moves.moves@, 0);
        lemma_extend_cap(p4, moves.moves@, 0);
        lemma_covered_extend(*board, PieceType::Bishop, p4, moves.moves@);
        lemma_covered_extend(*board, PieceType::Rook, p4, moves.moves@);
        lemma_covered_extend(*board, PieceType::Queen, p4, moves.moves@);
        lemma_covered_extend(*board, PieceType::Knight, p4, moves.moves@);
    }
    let ghost p5 = moves.moves@;
    generate_for_piece(board, tables, &mut moves, PieceType::King, true);
    proof {
        lemma_extend_ok(*board, p5, moves.moves@, 0);
        lemma_extend_cap(p5, moves.moves@, 0);
        lemma_pawn_covered_extend(*board, p5, moves.moves@, true);
        lemma_covered_extend(*board, PieceType::Bishop, p5, moves.moves@);
        lemma_covered_extend(*board, PieceType::Rook, p5, moves.moves@);
        lemma_covered_extend(*board, PieceType::Queen, p5, moves.moves@);
        lemma_covered_extend(*board, PieceType::Knight, p5, moves.moves@);
    }
    moves
}

} // verus!
