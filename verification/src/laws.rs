//! The global laws of the board representation, as public proof
//! functions: what well-formedness buys at the mask level, that the
//! cached state determines the whole board, and that a move's recorded
//! piece movements undo it.

use vstd::prelude::*;

use crate::bitboards::bit64;
use crate::bitboards::lemma_all_bits_clear;
use crate::bitboards::lemma_bit_and;
use crate::bitboards::lemma_bit_or;
use crate::bitboards::lemma_bits_eq;
use crate::board::Board;
use crate::board::PieceDelta;
use crate::make_move::spec_deltas_of;
use crate::make_move::spec_ep_capture_sq;
use crate::make_move::spec_mb_after;
use crate::make_move::spec_move_ok;
use crate::make_move::spec_rook_from;
use crate::make_move::spec_rook_to;
use crate::moves::Move;
use crate::moves::MoveType;
use crate::piece::Piece;
use crate::zobrist::ZobristKeys;

verus! {

/// On a well-formed board the twelve piece masks are pairwise disjoint,
/// each occupancy mask is the union of its colour's six piece masks, and
/// the two occupancy masks together cover exactly the occupied squares.
pub proof fn lemma_bitboards_partition(b: Board)
    requires
        b.wf(),
    ensures
        forall|p: int, q: int|
            0 <= p < q < 12 ==> #[trigger] (b.bit_boards.pieces[p] & b.bit_boards.pieces[q]) == 0,
        b.bit_boards.occupancy[0] == b.bit_boards.pieces[0] | b.bit_boards.pieces[2]
            | b.bit_boards.pieces[4] | b.bit_boards.pieces[6] | b.bit_boards.pieces[8]
            | b.bit_boards.pieces[10],
        b.bit_boards.occupancy[1] == b.bit_boards.pieces[1] | b.bit_boards.pieces[3]
            | b.bit_boards.pieces[5] | b.bit_boards.pieces[7] | b.bit_boards.pieces[9]
            | b.bit_boards.pieces[11],
{
    let bb = b.bit_boards;
    let mb = b.pieces@;
    assert forall|p: int, q: int|
        0 <= p < q < 12 implies #[trigger] (bb.pieces[p] & bb.pieces[q]) == 0 by {
        assert forall|j: u64| j < 64 implies !bit64(bb.pieces[p] & bb.pieces[q], j) by {
            lemma_bit_and(bb.pieces[p], bb.pieces[q], j);
            assert(bit64(bb.pieces[p], (j as int) as u64) <==> mb[j as int]
                == Piece::spec_from_index(p));
            assert(bit64(bb.pieces[q], (j as int) as u64) <==> mb[j as int]
                == Piece::spec_from_index(q));
        }
        lemma_all_bits_clear(bb.pieces[p] & bb.pieces[q]);
    }

    let white_union = bb.pieces[0] | bb.pieces[2] | bb.pieces[4] | bb.pieces[6] | bb.pieces[8]
        | bb.pieces[10];
    assert forall|j: u64| j < 64 implies bit64(bb.occupancy[0], j) == bit64(white_union, j) by {
        lemma_bit_or(bb.pieces[0], bb.pieces[2], j);
        lemma_bit_or(bb.pieces[0] | bb.pieces[2], bb.pieces[4], j);
        lemma_bit_or(bb.pieces[0] | bb.pieces[2] | bb.pieces[4], bb.pieces[6], j);
        lemma_bit_or(bb.pieces[0] | bb.pieces[2] | bb.pieces[4] | bb.pieces[6], bb.pieces[8], j);
        lemma_bit_or(
            bb.pieces[0] | bb.pieces[2] | bb.pieces[4] | bb.pieces[6] | bb.pieces[8],
            bb.pieces[10],
            j,
        );
        let ji = j as int;
        assert(bit64(bb.occupancy[0], ji as u64) <==> (mb[ji] != Piece::Empty
            && mb[ji].spec_color().idx() == 0));
        assert(bit64(bb.pieces[0], ji as u64) <==> mb[ji] == Piece::spec_from_index(0));
        assert(bit64(bb.pieces[2], ji as u64) <==> mb[ji] == Piece::spec_from_index(2));
        assert(bit64(bb.pieces[4], ji as u64) <==> mb[ji] == Piece::spec_from_index(4));
        assert(bit64(bb.pieces[6], ji as u64) <==> mb[ji] == Piece::spec_from_index(6));
        assert(bit64(bb.pieces[8], ji as u64) <==> mb[ji] == Piece::spec_from_index(8));
        assert(bit64(bb.pieces[10], ji as u64) <==> mb[ji] == Piece::spec_from_index(10));
    }
    lemma_bits_eq(bb.occupancy[0], white_union);

    let black_union = bb.pieces[1] | bb.pieces[3] | bb.pieces[5] | bb.pieces[7] | bb.pieces[9]
        | bb.pieces[11];
    assert forall|j: u64| j < 64 implies bit64(bb.occupancy[1], j) == bit64(black_union, j) by {
        lemma_bit_or(bb.pieces[1], bb.pieces[3], j);
        lemma_bit_or(bb.pieces[1] | bb.pieces[3], bb.pieces[5], j);
        lemma_bit_or(bb.pieces[1] | bb.pieces[3] | bb.pieces[5], bb.pieces[7], j);
        lemma_bit_or(bb.pieces[1] | bb.pieces[3] | bb.pieces[5] | bb.pieces[7], bb.pieces[9], j);
        lemma_bit_or(
            bb.pieces[1] | bb.pieces[3] | bb.pieces[5] | bb.pieces[7] | bb.pieces[9],
            bb.pieces[11],
            j,
        );
        let ji = j as int;
        assert(bit64(bb.occupancy[1], ji as u64) <==> (mb[ji] != Piece::Empty
            && mb[ji].spec_color().idx() == 1));
        assert(bit64(bb.pieces[1], ji as u64) <==> mb[ji] == Piece::spec_from_index(1));
        assert(bit64(bb.pieces[3], ji as u64) <==> mb[ji] == Piece::spec_from_index(3));
        assert(bit64(bb.pieces[5], ji as u64) <==> mb[ji] == Piece::spec_from_index(5));
        assert(bit64(bb.pieces[7], ji as u64) <==> mb[ji] == Piece::spec_from_index(7));
        assert(bit64(bb.pieces[9], ji as u64) <==> mb[ji] == Piece::spec_from_index(9));
        assert(bit64(bb.pieces[11], ji as u64) <==> mb[ji] == Piece::spec_from_index(11));
    }
    lemma_bits_eq(bb.occupancy[1], black_union);
}

/// The mailbox, castle rights, en-passant square and side to move
/// determine everything else: two well-formed boards that agree on them
/// carry the same bitboards, the same hash and the same evaluation. With
/// `make_move` pinning those four fields as functions of the old board
/// and the move, repeating a move sequence on an equal board reproduces
/// the whole state.
pub proof fn lemma_board_determined(b1: Board, b2: Board, keys: ZobristKeys)
    requires
        b1.wf(),
        b2.wf(),
        b1.hash_ok(keys),
        b2.hash_ok(keys),
        b1.eval_ok(),
        b2.eval_ok(),
        b1.pieces@ == b2.pieces@,
        b1.castle_flags == b2.castle_flags,
        b1.last_double == b2.last_double,
        b1.current_color == b2.current_color,
    ensures
        b1.hash == b2.hash,
        b1.eval == b2.eval,
        b1.bit_boards.pieces@ == b2.bit_boards.pieces@,
        b1.bit_boards.occupancy@ == b2.bit_boards.occupancy@,
{
    assert forall|p: int| 0 <= p < 12 implies b1.bit_boards.pieces[p] == b2.bit_boards.pieces[p] by {
        assert forall|j: u64|
            j < 64 implies bit64(b1.bit_boards.pieces[p], j) == bit64(
            b2.bit_boards.pieces[p],
            j,
        ) by {
            let ji = j as int;
            assert(bit64(b1.bit_boards.pieces[p], ji as u64) <==> b1.pieces@[ji]
                == Piece::spec_from_index(p));
            assert(bit64(b2.bit_boards.pieces[p], ji as u64) <==> b2.pieces@[ji]
                == Piece::spec_from_index(p));
        }
        lemma_bits_eq(b1.bit_boards.pieces[p], b2.bit_boards.pieces[p]);
    }
    assert(b1.bit_boards.pieces@ =~= b2.bit_boards.pieces@);
    assert forall|c: int|
        0 <= c < 2 implies b1.bit_boards.occupancy[c] == b2.bit_boards.occupancy[c] by {
        assert forall|j: u64|
            j < 64 implies bit64(b1.bit_boards.occupancy[c], j) == bit64(
            b2.bit_boards.occupancy[c],
            j,
        ) by {
            let ji = j as int;
            assert(bit64(b1.bit_boards.occupancy[c], ji as u64) <==> (b1.pieces@[ji]
                != Piece::Empty && b1.pieces@[ji].spec_color().idx() == c));
            assert(bit64(b2.bit_boards.occupancy[c], ji as u64) <==> (b2.pieces@[ji]
                != Piece::Empty && b2.pieces@[ji].spec_color().idx() == c));
        }
        lemma_bits_eq(b1.bit_boards.occupancy[c], b2.bit_boards.occupancy[c]);
    }
    assert(b1.bit_boards.occupancy@ =~= b2.bit_boards.occupancy@);
}

/// Undo one piece movement: what appeared leaves, what vanished comes
/// back, what moved moves back.
pub open spec fn spec_undelta(mb: Seq<Piece>, d: PieceDelta) -> Seq<Piece> {
    if d.from == 64 {
        mb.update(d.to as int, Piece::Empty)
    } else if d.to == 64 {
        mb.update(d.from as int, d.piece)
    } else {
        mb.update(d.to as int, Piece::Empty).update(d.from as int, d.piece)
    }
}

/// Undo a whole list of piece movements, last first.
pub open spec fn spec_apply_inverse(mb: Seq<Piece>, deltas: Seq<PieceDelta>) -> Seq<Piece>
    decreases deltas.len(),
{
    if deltas.len() == 0 {
        mb
    } else {
        spec_apply_inverse(spec_undelta(mb, deltas.last()), deltas.drop_last())
    }
}

/// A move's recorded piece movements, applied inversely to the board
/// after the move, restore the mailbox it started from — and with it,
/// by `lemma_board_determined`, the bitboards.
pub proof fn lemma_delta_inverse(b: Board, m: Move)
    requires
        b.wf(),
        spec_move_ok(b, m),
    ensures
        spec_apply_inverse(
            spec_mb_after(b.pieces@, m, b.current_color),
            spec_deltas_of(m, b.current_color),
        ) == b.pieces@,
{
    reveal_with_fuel(spec_apply_inverse, 5);
    crate::moves::lemma_move_fields_small(m.0);
    let mb = b.pieces@;
    let stm = b.current_color;
    let from = m.spec_from() as int;
    let to = m.spec_to() as int;
    let mt = m.spec_move_type();
    let piece = m.spec_piece();
    let cap = m.spec_captured();
    let after = spec_mb_after(mb, m, stm);
    let ds = spec_deltas_of(m, stm);

    if mt == MoveType::KingCastle || mt == MoveType::QueenCastle {
        let rf = spec_rook_from(to);
        let rt = spec_rook_to(to);
        let d_king = PieceDelta { to: to as u32, from: from as u32, piece };
        let d_rook = PieceDelta {
            to: rt as u32,
            from: rf as u32,
            piece: Piece::spec_new(crate::piece::PieceType::Rook, stm),
        };
        assert(ds =~= seq![d_king, d_rook]);
        assert(ds.last() == d_rook);
        assert(ds.drop_last() =~= seq![d_king]);
        assert(ds.drop_last().last() == d_king);
        assert(ds.drop_last().drop_last() =~= Seq::<PieceDelta>::empty());
        let s1 = spec_undelta(after, d_rook);
        let s2 = spec_undelta(s1, d_king);
        assert(spec_apply_inverse(after, ds) == s2);
        assert forall|i: int| 0 <= i < 64 implies s2[i] == mb[i] by {}
        assert(s2 =~= mb);
    } else if mt == MoveType::Promote {
        let pawn = Piece::spec_new(crate::piece::PieceType::Pawn, stm);
        let d_vanish = PieceDelta { to: 64, from: from as u32, piece: pawn };
        let d_appear = PieceDelta { to: to as u32, from: 64, piece };
        if cap == crate::piece::PieceType::Empty {
            assert(ds =~= seq![d_vanish, d_appear]);
            assert(ds.last() == d_appear);
            assert(ds.drop_last() =~= seq![d_vanish]);
            assert(ds.drop_last().last() == d_vanish);
            assert(ds.drop_last().drop_last() =~= Seq::<PieceDelta>::empty());
            let s1 = spec_undelta(after, d_appear);
            let s2 = spec_undelta(s1, d_vanish);
            assert(spec_apply_inverse(after, ds) == s2);
            assert forall|i: int| 0 <= i < 64 implies s2[i] == mb[i] by {}
        assert(s2 =~= mb);
        } else {
            let d_cap = PieceDelta {
                to: 64,
                from: to as u32,
                piece: Piece::spec_new(cap, stm.spec_opposite()),
            };
            assert(ds =~= seq![d_cap, d_vanish, d_appear]);
            assert(ds.last() == d_appear);
            assert(ds.drop_last() =~= seq![d_cap, d_vanish]);
            assert(ds.drop_last().last() == d_vanish);
            assert(ds.drop_last().drop_last() =~= seq![d_cap]);
            assert(ds.drop_last().drop_last().last() == d_cap);
            assert(ds.drop_last().drop_last().drop_last() =~= Seq::<PieceDelta>::empty());
            let s1 = spec_undelta(after, d_appear);
            let s2 = spec_undelta(s1, d_vanish);
            let s3 = spec_undelta(s2, d_cap);
            assert(spec_apply_inverse(after, ds) == s3);
            assert forall|i: int| 0 <= i < 64 implies s3[i] == mb[i] by {}
        assert(s3 =~= mb);
        }
    } else if mt == MoveType::EnPassantCapture {
        let cap_sq = spec_ep_capture_sq(m);
        let d_cap = PieceDelta {
            to: 64,
            from: cap_sq as u32,
            piece: Piece::spec_new(crate::piece::PieceType::Pawn, stm.spec_opposite()),
        };
        let d_move = PieceDelta { to: to as u32, from: from as u32, piece };
        assert(ds =~= seq![d_cap, d_move]);
        assert(ds.last() == d_move);
        assert(ds.drop_last() =~= seq![d_cap]);
        assert(ds.drop_last().last() == d_cap);
        assert(ds.drop_last().drop_last() =~= Seq::<PieceDelta>::empty());
        let s1 = spec_undelta(after, d_move);
        let s2 = spec_undelta(s1, d_cap);
        assert(spec_apply_inverse(after, ds) == s2);
        assert forall|i: int| 0 <= i < 64 implies s2[i] == mb[i] by {}
        assert(s2 =~= mb);
    } else {
        let d_move = PieceDelta { to: to as u32, from: from as u32, piece };
        if cap == crate::piece::PieceType::Empty {
            assert(ds =~= seq![d_move]);
            assert(ds.last() == d_move);
            assert(ds.drop_last() =~= Seq::<PieceDelta>::empty());
            let s1 = spec_undelta(after, d_move);
            assert(spec_apply_inverse(after, ds) == s1);
            assert forall|i: int| 0 <= i < 64 implies s1[i] == mb[i] by {}
        assert(s1 =~= mb);
        } else {
            let d_cap = PieceDelta {
                to: 64,
                from: to as u32,
                piece: Piece::spec_new(cap, stm.spec_opposite()),
            };
            assert(ds =~= seq![d_cap, d_move]);
            assert(ds.last() == d_move);
            assert(ds.drop_last() =~= seq![d_cap]);
            assert(ds.drop_last().last() == d_cap);
            assert(ds.drop_last().drop_last() =~= Seq::<PieceDelta>::empty());
            let s1 = spec_undelta(after, d_move);
            let s2 = spec_undelta(s1, d_cap);
            assert(spec_apply_inverse(after, ds) == s2);
            assert forall|i: int| 0 <= i < 64 implies s2[i] == mb[i] by {}
        assert(s2 =~= mb);
        }
    }
}

} // verus!
