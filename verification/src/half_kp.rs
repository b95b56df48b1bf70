//! The HalfKP feature set: one feature per (own king square, non-king
//! piece, square), seen separately from each colour's perspective with
//! Black's squares rank-and-file flipped.

use vstd::prelude::*;

use crate::board::Board;
use crate::board::PiecesDelta;
use crate::moves::Move;
use crate::piece::Piece;
use crate::piece::PieceColor;
use crate::piece::PieceType;

verus! {

/// Which perspectives need a full accumulator rebuild after a move.
#[derive(Debug, Clone, Copy, PartialEq, Eq, Structural)]
pub struct RefreshFlags {
    pub white: bool,
    pub black: bool,
}

impl RefreshFlags {
    /// The flags that mark exactly one colour.
    pub fn from_color(color: PieceColor) -> (r: RefreshFlags)
        ensures
            r.white == (color == PieceColor::White),
            r.black == (color == PieceColor::Black),
    {
        match color {
            PieceColor::White => RefreshFlags { white: true, black: false },
            PieceColor::Black => RefreshFlags { black: true, white: false },
        }
    }
}

/// A list of feature indices.
pub struct FeatureList {
    pub features: Vec<usize>,
}

impl FeatureList {
    pub fn new() -> (r: FeatureList)
        ensures
            r.features@ == Seq::<usize>::empty(),
    {
        let r = FeatureList { features: Vec::new() };
        proof {
            assert(r.features@ =~= Seq::<usize>::empty());
        }
        r
    }

    pub fn push(&mut self, feature: usize)
        ensures
            final(self).features@ == old(self).features@.push(feature),
    {
        self.features.push(feature);
    }
}

/// A square as one perspective reads it: Black flips the board.
pub open spec fn spec_persp_sq(perspective: PieceColor, sq: int) -> int {
    if perspective == PieceColor::Black {
        63 - sq
    } else {
        sq
    }
}

/// The HalfKP index of a non-king piece on a square, under a king
/// square, for one perspective.
pub open spec fn spec_half_kp_index(
    king_sq: int,
    piece_sq: int,
    piece: Piece,
    perspective: PieceColor,
) -> int {
    let plane = (piece.idx() / 2) * 2 + if piece.spec_color() != perspective {
        1int
    } else {
        0int
    };
    plane * 64 + spec_persp_sq(perspective, piece_sq) + 1 + spec_persp_sq(perspective, king_sq)
        * 641
}

/// Compute a HalfKP feature index; it always lands inside the set.
pub fn half_kp_index(king_sq: usize, piece_sq: usize, piece: Piece, perspective: PieceColor) -> (r:
    usize)
    requires
        king_sq < 64,
        piece_sq < 64,
        piece.idx() < 10,
    ensures
        r == spec_half_kp_index(king_sq as int, piece_sq as int, piece, perspective),
        r < 41024,
{
    let flipped_sq = if perspective == PieceColor::Black {
        63 - piece_sq
    } else {
        piece_sq
    };
    let flipped_king = if perspective == PieceColor::Black {
        63 - king_sq
    } else {
        king_sq
    };
    let plane = (piece.index() / 2) * 2 + if piece.get_color() != perspective {
        1
    } else {
        0
    };
    plane * 64 + flipped_sq + 1 + flipped_king * 641
}

/// The HalfKP feature set.
pub struct HalfKP {
}

/// Every index in the list fits the feature-transformer table.
pub open spec fn features_in_range(s: Seq<usize>) -> bool {
    forall|k: int| 0 <= k < s.len() ==> #[trigger] s[k] < 41024
}

/// The highest square below `n` holding the perspective's king, or 64
/// when there is none.
pub open spec fn spec_king_square(mb: Seq<Piece>, perspective: PieceColor, n: int) -> int
    decreases n,
{
    if n <= 0 {
        64
    } else if mb[n - 1] == Piece::spec_new(PieceType::King, perspective) {
        n - 1
    } else {
        spec_king_square(mb, perspective, n - 1)
    }
}

/// The active features of the first `n` squares: one HalfKP index per
/// non-king piece, in square order, keyed by `king_sq`.
pub open spec fn spec_active_features(
    mb: Seq<Piece>,
    king_sq: int,
    perspective: PieceColor,
    n: int,
) -> Seq<usize>
    decreases n,
{
    if n <= 0 {
        Seq::empty()
    } else {
        let prefix = spec_active_features(mb, king_sq, perspective, n - 1);
        let p = mb[n - 1];
        if p != Piece::Empty && p.spec_type() != PieceType::King {
            prefix.push(spec_half_kp_index(king_sq, n - 1, p, perspective) as usize)
        } else {
            prefix
        }
    }
}

/// The whole board's active features for one perspective; a board
/// without that king has none.
pub open spec fn spec_board_features(mb: Seq<Piece>, perspective: PieceColor) -> Seq<usize> {
    let ksq = spec_king_square(mb, perspective, 64);
    if ksq < 64 {
        spec_active_features(mb, ksq, perspective, 64)
    } else {
        Seq::empty()
    }
}

/// The features the listed piece movements add for one perspective:
/// every non-king piece that appeared or landed somewhere, in order.
pub open spec fn spec_diff_added(
    ds: Seq<crate::board::PieceDelta>,
    king_sq: int,
    perspective: PieceColor,
) -> Seq<usize>
    decreases ds.len(),
{
    if ds.len() == 0 {
        Seq::empty()
    } else {
        let prefix = spec_diff_added(ds.drop_last(), king_sq, perspective);
        let d = ds.last();
        if d.piece != Piece::Empty && d.piece.spec_type() != PieceType::King && d.to != 64 && d.to
            < 64 {
            prefix.push(spec_half_kp_index(king_sq, d.to as int, d.piece, perspective) as usize)
        } else {
            prefix
        }
    }
}

/// The features the listed piece movements take away: every non-king
/// piece that vanished or left a square, in order.
pub open spec fn spec_diff_removed(
    ds: Seq<crate::board::PieceDelta>,
    king_sq: int,
    perspective: PieceColor,
) -> Seq<usize>
    decreases ds.len(),
{
    if ds.len() == 0 {
        Seq::empty()
    } else {
        let prefix = spec_diff_removed(ds.drop_last(), king_sq, perspective);
        let d = ds.last();
        if d.piece != Piece::Empty && d.piece.spec_type() != PieceType::King && d.from != 64
            && d.from < 64 {
            prefix.push(spec_half_kp_index(king_sq, d.from as int, d.piece, perspective) as usize)
        } else {
            prefix
        }
    }
}

/// The added features of a move for a perspective, keyed by the king
/// square of the board after the move; none when that king is gone.
pub open spec fn spec_move_added(
    mb_after: Seq<Piece>,
    ds: Seq<crate::board::PieceDelta>,
    perspective: PieceColor,
) -> Seq<usize> {
    let ksq = spec_king_square(mb_after, perspective, 64);
    if ksq < 64 {
        spec_diff_added(ds, ksq, perspective)
    } else {
        Seq::empty()
    }
}

/// The removed features of a move for a perspective, likewise.
pub open spec fn spec_move_removed(
    mb_after: Seq<Piece>,
    ds: Seq<crate::board::PieceDelta>,
    perspective: PieceColor,
) -> Seq<usize> {
    let ksq = spec_king_square(mb_after, perspective, 64);
    if ksq < 64 {
        spec_diff_removed(ds, ksq, perspective)
    } else {
        Seq::empty()
    }
}

impl HalfKP {
    /// A king move invalidates its own side's accumulator; everything
    /// else updates incrementally.
    pub fn needs_refresh(m: Move) -> (r: RefreshFlags)
        ensures
            m.spec_piece().spec_type() == PieceType::King ==> (r.white == (
            m.spec_piece().spec_color() == PieceColor::White) && r.black == (
            m.spec_piece().spec_color() == PieceColor::Black)),
            m.spec_piece().spec_type() != PieceType::King ==> (!r.white && !r.black),
    {
        let piece = m.piece();
        if piece.get_type() == PieceType::King {
            RefreshFlags::from_color(piece.get_color())
        } else {
            RefreshFlags { black: false, white: false }
        }
    }

    /// The features active for one perspective: exactly one HalfKP
    /// index per non-king piece on the board, in square order, keyed by
    /// that perspective's king square. A board without that king has no
    /// active features.
    pub fn active_features(board: &Board, perspective: PieceColor) -> (r: FeatureList)
        requires
            board.wf(),
        ensures
            features_in_range(r.features@),
            r.features@ == spec_board_features(board.pieces@, perspective),
    {
        let mut list = FeatureList::new();
        let king = Piece::new(PieceType::King, perspective);

        let mut king_sq: usize = 64;
        let mut sq: usize = 0;
        while sq < 64
            invariant
                sq <= 64,
                board.wf(),
                king == Piece::spec_new(PieceType::King, perspective),
                king_sq as int == spec_king_square(board.pieces@, perspective, sq as int),
                king_sq <= 64,
            decreases 64 - sq,
        {
            if board.piece_at(sq) == king {
                king_sq = sq;
            }
            sq = sq + 1;
        }
        if king_sq >= 64 {
            proof {
                assert(list.features@ =~= spec_board_features(board.pieces@, perspective));
            }
            return list;
        }

        let mut s: usize = 0;
        while s < 64
            invariant
                s <= 64,
                board.wf(),
                king_sq < 64,
                king_sq as int == spec_king_square(board.pieces@, perspective, 64),
                features_in_range(list.features@),
                list.features@ == spec_active_features(
                    board.pieces@,
                    king_sq as int,
                    perspective,
                    s as int,
                ),
            decreases 64 - s,
        {
            let p = board.piece_at(s);
            if p != Piece::Empty && p.get_type() != PieceType::King {
                let f = half_kp_index(king_sq, s, p, perspective);
                let ghost pre = list.features@;
                list.push(f);
                proof {
                    assert forall|k: int|
                        0 <= k < list.features@.len() implies #[trigger] list.features@[k]
                        < 41024 by {
                        if k < pre.len() {
                            assert(list.features@[k] == pre[k]);
                        }
                    }
                }
            }
            s = s + 1;
        }
        list
    }

    /// The feature changes a move's piece movements cause for one
    /// perspective, appended to the given lists: exactly the HalfKP
    /// indices of the non-king entries of the delta list, arrivals to
    /// `added_features`, departures to `removed_features`, keyed by the
    /// post-move king square. A board without that king changes nothing.
    pub fn features_diff(
        delta: &PiecesDelta,
        added_features: &mut FeatureList,
        removed_features: &mut FeatureList,
        board: &Board,
        perspective: PieceColor,
    )
        requires
            board.wf(),
            features_in_range(old(added_features).features@),
            features_in_range(old(removed_features).features@),
        ensures
            features_in_range(final(added_features).features@),
            features_in_range(final(removed_features).features@),
            ({
                let ksq = spec_king_square(board.pieces@, perspective, 64);
                &&& ksq < 64 ==> final(added_features).features@ == old(
                    added_features,
                ).features@ + spec_diff_added(delta.pieces@, ksq, perspective)
                &&& ksq < 64 ==> final(removed_features).features@ == old(
                    removed_features,
                ).features@ + spec_diff_removed(delta.pieces@, ksq, perspective)
                &&& ksq >= 64 ==> final(added_features).features@ == old(
                    added_features,
                ).features@ && final(removed_features).features@ == old(
                    removed_features,
                ).features@
            }),
    {
        let king = Piece::new(PieceType::King, perspective);
        let mut king_sq: usize = 64;
        let mut sq: usize = 0;
        while sq < 64
            invariant
                sq <= 64,
                board.wf(),
                king == Piece::spec_new(PieceType::King, perspective),
                king_sq as int == spec_king_square(board.pieces@, perspective, sq as int),
                king_sq <= 64,
            decreases 64 - sq,
        {
            if board.piece_at(sq) == king {
                king_sq = sq;
            }
            sq = sq + 1;
        }
        if king_sq >= 64 {
            return ;
        }

        let n = delta.len();
        let mut i: usize = 0;
        while i < n
            invariant
                i <= n,
                n == delta.pieces@.len(),
                king_sq < 64,
                king_sq as int == spec_king_square(board.pieces@, perspective, 64),
                features_in_range(added_features.features@),
                features_in_range(removed_features.features@),
                added_features.features@ == old(added_features).features@ + spec_diff_added(
                    delta.pieces@.subrange(0, i as int),
                    king_sq as int,
                    perspective,
                ),
                removed_features.features@ == old(removed_features).features@ + spec_diff_removed(
                    delta.pieces@.subrange(0, i as int),
                    king_sq as int,
                    perspective,
                ),
            decreases n - i,
        {
            let d = delta.get(i);
            proof {
                assert(delta.pieces@.subrange(0, i + 1).drop_last() =~= delta.pieces@.subrange(
                    0,
                    i as int,
                ));
                assert(delta.pieces@.subrange(0, i + 1).last() == delta.pieces@[i as int]);
            }
            if d.piece != Piece::Empty && d.piece.get_type() != PieceType::King {
                if d.to != 64 && d.to < 64 {
                    let f = half_kp_index(king_sq, d.to as usize, d.piece, perspective);
                    let ghost pre = added_features.features@;
                    added_features.push(f);
                    proof {
                        assert forall|k: int|
                            0 <= k < added_features.features@.len() implies
                            #[trigger] added_features.features@[k] < 41024 by {
                            if k < pre.len() {
                                assert(added_features.features@[k] == pre[k]);
                            }
                        }
                    }
                }
                if d.from != 64 && d.from < 64 {
                    let f = half_kp_index(king_sq, d.from as usize, d.piece, perspective);
                    let ghost pre = removed_features.features@;
                    removed_features.push(f);
                    proof {
                        assert forall|k: int|
                            0 <= k < removed_features.features@.len() implies
                            #[trigger] removed_features.features@[k] < 41024 by {
                            if k < pre.len() {
                                assert(removed_features.features@[k] == pre[k]);
                            }
                        }
                    }
                }
            }
            i = i + 1;
        }
        proof {
            assert(delta.pieces@.subrange(0, n as int) =~= delta.pieces@);
        }
    }

    /// The feature-set identifier of HalfKP in the network file.
    pub fn hash() -> (r: u32)
        ensures
            r == 0x5D69D5B9u32 ^ 1u32,
    {
        0x5D69D5B9u32 ^ 1u32
    }
}

} // verus!
