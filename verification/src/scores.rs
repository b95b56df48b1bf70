//! Material values and piece-square tables for the incremental evaluation.
//!
//! Each occupied square contributes its piece's material value plus a
//! positional bonus; the bonus is read with the square rank-flipped for
//! White so that one table serves both colours. The cached board
//! evaluation is the signed sum of these contributions, positive for the
//! side to move.

use vstd::prelude::*;

use crate::piece::Piece;
use crate::piece::PieceColor;
use crate::piece::PieceType;

verus! {

/// Material worth of a piece type, in centipawns.
pub open spec fn spec_piece_score(t: PieceType) -> int {
    match t {
        PieceType::Pawn => 100,
        PieceType::Knight => 300,
        PieceType::Bishop => 350,
        PieceType::Rook => 500,
        PieceType::Queen => 1000,
        PieceType::King => 10000,
        PieceType::Empty => 0,
    }
}

/// Distance-from-edge helpers for the positional tables.
pub open spec fn spec_edge_dist(x: int) -> int {
    if x < 8 - 1 - x {
        x
    } else {
        8 - 1 - x
    }
}

/// Positional bonus of a piece type on a square (0..63), from the
/// perspective the square has already been flipped into.
pub open spec fn spec_positional_score(t: PieceType, sq: int) -> int {
    let file = sq % 8;
    let rank = sq / 8;
    let cf = spec_edge_dist(file);
    let cr = spec_edge_dist(rank);
    match t {
        PieceType::Pawn => 2 * (7 - rank) + cf,
        PieceType::Knight => 4 * (cf + cr),
        PieceType::Bishop => 3 * (cf + cr),
        PieceType::Rook => 2 * cf,
        PieceType::Queen => cf + cr,
        PieceType::King => 0,
        PieceType::Empty => 0,
    }
}

/// The square a colour reads its positional table through: White
/// rank-flips, Black reads it as is.
pub open spec fn spec_view_sq(c: PieceColor, sq: int) -> int {
    if c == PieceColor::White {
        56 - 8 * (sq / 8) + sq % 8
    } else {
        sq
    }
}

/// Material plus positional worth of a colored piece on a square.
pub open spec fn spec_piece_worth(p: Piece, sq: int) -> int {
    spec_piece_score(p.spec_type()) + spec_positional_score(
        p.spec_type(),
        spec_view_sq(p.spec_color(), sq),
    )
}

/// Contribution of a square to the evaluation seen from `stm`:
/// positive for `stm`'s own pieces, negative for the opponent's.
pub open spec fn spec_signed_worth(p: Piece, sq: int, stm: PieceColor) -> int {
    if p == Piece::Empty {
        0
    } else if p.spec_color() == stm {
        spec_piece_worth(p, sq)
    } else {
        -spec_piece_worth(p, sq)
    }
}

/// Evaluation of the first `n` squares of a mailbox, from `stm`'s view.
pub open spec fn spec_eval_upto(mb: Seq<Piece>, n: int, stm: PieceColor) -> int
    decreases n,
{
    if n <= 0 {
        0
    } else {
        spec_eval_upto(mb, n - 1, stm) + spec_signed_worth(mb[n - 1], n - 1, stm)
    }
}

/// Evaluation of a whole 64-square mailbox, from `stm`'s view.
pub open spec fn spec_eval_of(mb: Seq<Piece>, stm: PieceColor) -> int {
    spec_eval_upto(mb, 64, stm)
}

pub proof fn lemma_piece_worth_bounds(p: Piece, sq: int)
    requires
        0 <= sq < 64,
    ensures
        0 <= spec_piece_worth(p, sq) <= 10030,
        -10030 <= spec_signed_worth(p, sq, PieceColor::White) <= 10030,
        -10030 <= spec_signed_worth(p, sq, PieceColor::Black) <= 10030,
{
}

pub proof fn lemma_eval_upto_bounds(mb: Seq<Piece>, n: int, stm: PieceColor)
    requires
        0 <= n <= 64,
    ensures
        -10030 * n <= spec_eval_upto(mb, n, stm) <= 10030 * n,
    decreases n,
{
    if n > 0 {
        lemma_eval_upto_bounds(mb, n - 1, stm);
        lemma_piece_worth_bounds(mb[n - 1], n - 1);
    }
}

/// Changing one square changes the evaluation sum by exactly the
/// difference of that square's contributions.
pub proof fn lemma_eval_upto_update(mb1: Seq<Piece>, mb2: Seq<Piece>, s: int, n: int, stm: PieceColor)
    requires
        0 <= s < n <= 64,
        mb1.len() == 64,
        mb2.len() == 64,
        forall|j: int| 0 <= j < 64 && j != s ==> mb1[j] == mb2[j],
    ensures
        spec_eval_upto(mb2, n, stm) == spec_eval_upto(mb1, n, stm) - spec_signed_worth(
            mb1[s],
            s,
            stm,
        ) + spec_signed_worth(mb2[s], s, stm),
    decreases n,
{
    if n - 1 > s {
        lemma_eval_upto_update(mb1, mb2, s, n - 1, stm);
    } else {
        lemma_eval_upto_congruence(mb1, mb2, s, stm);
    }
}

/// The evaluation of the first `n` squares reads only those squares.
pub proof fn lemma_eval_upto_congruence(mb1: Seq<Piece>, mb2: Seq<Piece>, n: int, stm: PieceColor)
    requires
        forall|j: int| 0 <= j < n ==> mb1[j] == mb2[j],
    ensures
        spec_eval_upto(mb1, n, stm) == spec_eval_upto(mb2, n, stm),
    decreases n,
{
    if n > 0 {
        lemma_eval_upto_congruence(mb1, mb2, n - 1, stm);
    }
}

/// The evaluation from one side is the negation of the evaluation from
/// the other: flipping the viewer flips every contribution's sign.
pub proof fn lemma_eval_upto_negate(mb: Seq<Piece>, n: int, stm: PieceColor)
    requires
        0 <= n <= 64,
    ensures
        spec_eval_upto(mb, n, stm) == -spec_eval_upto(mb, n, stm.spec_opposite()),
    decreases n,
{
    if n > 0 {
        lemma_eval_upto_negate(mb, n - 1, stm);
    }
}

/// Material worth of a piece type.
pub fn piece_score(t: PieceType) -> (r: i32)
    ensures
        r == spec_piece_score(t),
{
    match t {
        PieceType::Pawn => 100,
        PieceType::Knight => 300,
        PieceType::Bishop => 350,
        PieceType::Rook => 500,
        PieceType::Queen => 1000,
        PieceType::King => 10000,
        PieceType::Empty => 0,
    }
}

/// Positional bonus of a piece type on an already-flipped square.
pub fn positional_score(t: PieceType, sq: usize) -> (r: i32)
    requires
        sq < 64,
    ensures
        r == spec_positional_score(t, sq as int),
{
    let file = (sq % 8) as i32;
    let rank = (sq / 8) as i32;
    let cf = if file < 7 - file {
        file
    } else {
        7 - file
    };
    let cr = if rank < 7 - rank {
        rank
    } else {
        7 - rank
    };
    match t {
        PieceType::Pawn => 2 * (7 - rank) + cf,
        PieceType::Knight => 4 * (cf + cr),
        PieceType::Bishop => 3 * (cf + cr),
        PieceType::Rook => 2 * cf,
        PieceType::Queen => cf + cr,
        PieceType::King => 0,
        PieceType::Empty => 0,
    }
}

/// Material plus positional worth of a colored piece standing on `sq`.
pub fn piece_worth(p: Piece, sq: usize) -> (r: i32)
    requires
        sq < 64,
    ensures
        r == spec_piece_worth(p, sq as int),
        0 <= r <= 10030,
{
    let t = p.get_type();
    let view = if p.get_color() == PieceColor::White {
        56 - 8 * (sq / 8) + sq % 8
    } else {
        sq
    };
    proof {
        lemma_piece_worth_bounds(p, sq as int);
    }
    piece_score(t) + positional_score(t, view)
}

} // verus!
