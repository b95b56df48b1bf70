//! The NNUE evaluator: HalfKP features into an incrementally updated
//! feature transformer, then the fixed quantized network. One
//! accumulator per search ply; a move derives the next ply's
//! accumulator from the previous one, unless its own king moved, which
//! forces a rebuild.

use vstd::prelude::*;

use crate::board::Board;
use crate::board::PiecesDelta;
use crate::feature_transformer::Accumulator;
use crate::feature_transformer::FeatureTransformer;
use crate::half_kp::FeatureList;
use crate::half_kp::HalfKP;
use crate::moves::Move;
use crate::network::LayersBuffer;
use crate::network::spec_net_eval;
use crate::network::TripleLayerNetwork;
use crate::piece::PieceColor;
use crate::piece::PieceType;
use crate::quant::read_i16_vec;
use crate::quant::read_i32_vec;
use crate::quant::read_i8_vec;
use crate::quant::read_u32;
use crate::quant::spec_le_i32;
use crate::quant::spec_le32;
use crate::quant::read_i32;
use crate::zobrist::ZobristKeys;

verus! {

/// What can be wrong with a network file: too short for its fields.
#[derive(Debug, Clone, Copy, PartialEq, Eq, Structural)]
pub enum NnueError {
    Truncated,
}

/// Bytes the network file needs after its description field.
pub const NNUE_FIXED_BYTES: u64 = 21022508;

/// Whether a byte sequence is long enough to hold the whole network:
/// twelve header bytes, the description it announces, and the fixed
/// remainder.
pub open spec fn spec_nnue_len_ok(s: Seq<u8>) -> bool {
    &&& s.len() >= 12
    &&& spec_le_i32(s[8], s[9], s[10], s[11]) >= 0
    &&& s.len() >= 12 + spec_le_i32(s[8], s[9], s[10], s[11]) + 21022508
}

/// The signed byte at one position of the wire data.
pub open spec fn spec_i8_at(s: Seq<u8>, pos: int) -> i8 {
    let b = s[pos];
    if b >= 0x80 {
        (b - 0x100) as i8
    } else {
        b as i8
    }
}

/// Load one linear layer: `out` 32-bit biases, then `out` rows of `inn`
/// 8-bit weights.
fn load_linear(data: &Vec<u8>, pos: usize, inn: usize, out: usize) -> (r: (
    crate::layers::LinearLayer,
    usize,
))
    requires
        out >= 1,
        inn >= 1,
        pos + 4 * out + inn * out <= data.len(),
    ensures
        r.0.wf(inn as int, out as int),
        r.1 == pos + 4 * out + inn * out,
        forall|o: int|
            0 <= o < out ==> #[trigger] r.0.bias[o] == crate::quant::spec_le_i32(
                data@[pos + 4 * o],
                data@[pos + 4 * o + 1],
                data@[pos + 4 * o + 2],
                data@[pos + 4 * o + 3],
            ),
        forall|o: int, j: int|
            0 <= o < out && 0 <= j < inn ==> #[trigger] r.0.weights[o]@[j] == spec_i8_at(
                data@,
                pos + 4 * out + o * inn + j,
            ),
{
    let bias = read_i32_vec(data, pos, out);
    let mut weights: Vec<Vec<i8>> = Vec::new();
    let mut o: usize = 0;
    while o < out
        invariant
            o <= out,
            weights.len() == o,
            pos + 4 * out + inn * out <= data.len(),
            inn >= 1,
            out >= 1,
            forall|k: int| 0 <= k < o ==> #[trigger] weights[k]@.len() == inn,
            forall|k: int, j: int|
                0 <= k < o && 0 <= j < inn ==> #[trigger] weights[k]@[j] == spec_i8_at(
                    data@,
                    pos + 4 * out + k * inn + j,
                ),
        decreases out - o,
    {
        proof {
            assert(pos + 4 * out + (o as int) * inn + inn <= pos + 4 * out + inn * out)
                by (nonlinear_arith)
                requires
                    0 <= o < out,
                    inn >= 1,
            ;
        }
        let row = read_i8_vec(data, pos + 4 * out + o * inn, inn);
        weights.push(row);
        o = o + 1;
    }
    (crate::layers::LinearLayer { bias, weights }, pos + 4 * out + inn * out)
}

/// One lane of a rebuilt accumulator: bias plus the weight columns of
/// the features, wrapped at 16 bits.
pub open spec fn spec_refresh_row(ft: FeatureTransformer, feats: Seq<usize>, i: int) -> i16 {
    crate::quant::wrap16(
        ft.bias[i] + crate::feature_transformer::spec_feat_sum(ft.weights@, feats, i),
    )
}

/// One lane of an incrementally derived accumulator: the previous lane
/// plus the added columns minus the removed ones, wrapped at 16 bits.
pub open spec fn spec_incremental_row(
    ft: FeatureTransformer,
    prev: Seq<i16>,
    added: Seq<usize>,
    removed: Seq<usize>,
    i: int,
) -> i16 {
    crate::quant::wrap16(
        prev[i] + crate::feature_transformer::spec_feat_sum(ft.weights@, added, i)
            - crate::feature_transformer::spec_feat_sum(ft.weights@, removed, i),
    )
}

/// The evaluator: transformer, network, and one accumulator per ply.
pub struct Nnue {
    pub transformer: FeatureTransformer,
    pub net: TripleLayerNetwork,
    pub acc_stack: Vec<Accumulator>,
}

impl Nnue {
    pub open spec fn wf(self) -> bool {
        &&& self.transformer.wf()
        &&& self.net.wf()
        &&& self.acc_stack.len() == 129
        &&& forall|p: int| 0 <= p < 129 ==> (#[trigger] self.acc_stack[p]).wf()
    }

    /// An evaluator with all-zero weights; every position scores zero
    /// until a network file loads.
    pub fn new_zero() -> (r: Nnue)
        ensures
            r.wf(),
    {
        let transformer = FeatureTransformer::new_zero();
        let net = TripleLayerNetwork::new_zero();
        let mut acc_stack: Vec<Accumulator> = Vec::new();
        while acc_stack.len() < 129
            invariant
                acc_stack.len() <= 129,
                forall|p: int| 0 <= p < acc_stack.len() ==> (#[trigger] acc_stack[p]).wf(),
            decreases 129 - acc_stack.len(),
        {
            acc_stack.push(Accumulator::new_zero());
        }
        Nnue { transformer, net, acc_stack }
    }

    /// Load the wire-format network: version, hashes, description,
    /// feature transformer, then the three layers. A file too short for
    /// its fields is refused, leaving the evaluator as it was; hash
    /// mismatches are tolerated, and the answer says whether all three
    /// hash fields matched their expected values, so the caller can
    /// warn.
    pub fn load(&mut self, data: &Vec<u8>) -> (r: Result<bool, NnueError>)
        requires
            old(self).wf(),
        ensures
            final(self).wf(),
            r is Ok <==> spec_nnue_len_ok(data@),
            r is Err ==> *final(self) == *old(self),
            r is Ok ==> r.unwrap() == ({
                let p0 = 12 + spec_le_i32(data@[8], data@[9], data@[10], data@[11]);
                let p3 = p0 + 4 + 512 + 41024 * 512;
                &&& crate::quant::spec_le32(data@[4], data@[5], data@[6], data@[7]) == ((
                0x5D69D5B9u32 ^ 1u32) ^ 512u32) ^ crate::network::spec_net_arch_hash()
                &&& crate::quant::spec_le32(
                    data@[p0],
                    data@[p0 + 1],
                    data@[p0 + 2],
                    data@[p0 + 3],
                ) == (0x5D69D5B9u32 ^ 1u32) ^ 512u32
                &&& crate::quant::spec_le32(
                    data@[p3],
                    data@[p3 + 1],
                    data@[p3 + 2],
                    data@[p3 + 3],
                ) == crate::network::spec_net_arch_hash()
            }),
            r is Ok ==> ({
                let p4 = 12 + spec_le_i32(data@[8], data@[9], data@[10], data@[11]) + 4 + 512
                    + 41024 * 512 + 4;
                let p5 = p4 + 128 + 16384;
                let p6 = p5 + 128 + 1024;
                &&& forall|o: int|
                    0 <= o < 32 ==> #[trigger] final(self).net.l_1.bias[o]
                        == crate::quant::spec_le_i32(
                        data@[p4 + 4 * o],
                        data@[p4 + 4 * o + 1],
                        data@[p4 + 4 * o + 2],
                        data@[p4 + 4 * o + 3],
                    )
                &&& forall|o: int, j: int|
                    0 <= o < 32 && 0 <= j < 512 ==> #[trigger] final(self).net.l_1.weights[o]@[j]
                        == spec_i8_at(data@, p4 + 128 + o * 512 + j)
                &&& forall|o: int|
                    0 <= o < 32 ==> #[trigger] final(self).net.l_2.bias[o]
                        == crate::quant::spec_le_i32(
                        data@[p5 + 4 * o],
                        data@[p5 + 4 * o + 1],
                        data@[p5 + 4 * o + 2],
                        data@[p5 + 4 * o + 3],
                    )
                &&& forall|o: int, j: int|
                    0 <= o < 32 && 0 <= j < 32 ==> #[trigger] final(self).net.l_2.weights[o]@[j]
                        == spec_i8_at(data@, p5 + 128 + o * 32 + j)
                &&& forall|o: int|
                    0 <= o < 1 ==> #[trigger] final(self).net.l_3.bias[o]
                        == crate::quant::spec_le_i32(
                        data@[p6 + 4 * o],
                        data@[p6 + 4 * o + 1],
                        data@[p6 + 4 * o + 2],
                        data@[p6 + 4 * o + 3],
                    )
                &&& forall|o: int, j: int|
                    0 <= o < 1 && 0 <= j < 32 ==> #[trigger] final(self).net.l_3.weights[o]@[j]
                        == spec_i8_at(data@, p6 + 4 + o * 32 + j)
            }),
            r is Ok ==> ({
                let p1 = 16 + spec_le_i32(data@[8], data@[9], data@[10], data@[11]);
                let p2 = p1 + 512;
                &&& forall|k: int|
                    0 <= k < 256 ==> #[trigger] final(self).transformer.bias[k] == crate::quant::spec_le_i16(
                        data@[p1 + 2 * k],
                        data@[p1 + 2 * k + 1],
                    )
                &&& forall|f: int, i: int|
                    0 <= f < 41024 && 0 <= i < 256 ==> #[trigger] final(self).transformer.weights[f]@[i]
                        == crate::quant::spec_le_i16(
                        data@[p2 + 512 * f + 2 * i],
                        data@[p2 + 512 * f + 2 * i + 1],
                    )
            }),
    {
        if data.len() < 12 {
            return Err(NnueError::Truncated);
        }
        let _version = read_i32(data, 0);
        let file_hash = read_u32(data, 4);
        let desc_len = read_i32(data, 8);
        if desc_len < 0 {
            return Err(NnueError::Truncated);
        }
        let needed: u64 = 12u64 + (desc_len as u64) + NNUE_FIXED_BYTES;
        if (data.len() as u64) < needed {
            return Err(NnueError::Truncated);
        }
        let p0: usize = 12 + (desc_len as usize);
        let feature_hash = read_u32(data, p0);
        let p1 = p0 + 4;
        let bias = read_i16_vec(data, p1, 256);
        let p2 = p1 + 512;
        let mut weights: Vec<Vec<i16>> = Vec::new();
        let mut f: usize = 0;
        while f < 41024
            invariant
                f <= 41024,
                weights.len() == f,
                p2 + 41024 * 512 <= data.len(),
                forall|k: int| 0 <= k < f ==> #[trigger] weights[k]@.len() == 256,
                forall|k: int, i: int|
                    0 <= k < f && 0 <= i < 256 ==> #[trigger] weights[k]@[i]
                        == crate::quant::spec_le_i16(
                        data@[p2 + 512 * k + 2 * i],
                        data@[p2 + 512 * k + 2 * i + 1],
                    ),
            decreases 41024 - f,
        {
            proof {
                assert(p2 + (f as int) * 512 + 512 <= p2 + 41024 * 512) by (nonlinear_arith)
                    requires
                        0 <= f < 41024,
                ;
            }
            let row = read_i16_vec(data, p2 + f * 512, 256);
            weights.push(row);
            f = f + 1;
        }
        let p3 = p2 + 41024 * 512;
        let net_hash = read_u32(data, p3);
        let p4 = p3 + 4;
        let (l_1, p5) = load_linear(data, p4, 512, 32);
        let (l_2, p6) = load_linear(data, p5, 32, 32);
        let (l_3, _p7) = load_linear(data, p6, 32, 1);

        self.transformer = FeatureTransformer { bias, weights };
        self.net = TripleLayerNetwork {
            l_1,
            r_1: crate::layers::ReluLayer::new(),
            l_2,
            r_2: crate::layers::ReluLayer::new(),
            l_3,
        };

        let kp_hash: u32 = HalfKP::hash() ^ 512u32;
        let net_expected: u32 = TripleLayerNetwork::hash();
        let total_expected: u32 = kp_hash ^ net_expected;
        let hashes_match = file_hash == total_expected && feature_hash == kp_hash && net_hash
            == net_expected;
        Ok(hashes_match)
    }

    /// Rebuild both perspectives' accumulators for `board` at `ply`:
    /// each lane becomes bias plus the weight columns of the board's
    /// active HalfKP features for that perspective. Other plies keep
    /// their accumulators.
    pub fn refresh_board(&mut self, board: &Board, ply: usize)
        requires
            old(self).wf(),
            board.wf(),
            ply < 129,
        ensures
            final(self).wf(),
            final(self).transformer == old(self).transformer,
            final(self).net == old(self).net,
            forall|q: int|
                0 <= q < 129 && q != ply ==> final(self).acc_stack[q] == old(self).acc_stack[q],
            forall|i: int|
                0 <= i < 256 ==> #[trigger] final(self).acc_stack[ply as int].accumulators[0]@[i]
                    == spec_refresh_row(
                    old(self).transformer,
                    crate::half_kp::spec_board_features(board.pieces@, PieceColor::White),
                    i,
                ),
            forall|i: int|
                0 <= i < 256 ==> #[trigger] final(self).acc_stack[ply as int].accumulators[1]@[i]
                    == spec_refresh_row(
                    old(self).transformer,
                    crate::half_kp::spec_board_features(board.pieces@, PieceColor::Black),
                    i,
                ),
    {
        let white = HalfKP::active_features(board, PieceColor::White);
        let mut acc = Accumulator::new_zero();
        self.transformer.refresh(&mut acc, &white.features, PieceColor::White);
        let black = HalfKP::active_features(board, PieceColor::Black);
        self.transformer.refresh(&mut acc, &black.features, PieceColor::Black);
        self.acc_stack[ply] = acc;
    }

    /// An equal copy of one accumulator.
    fn acc_copy(acc: &Accumulator) -> (r: Accumulator)
        requires
            acc.wf(),
        ensures
            r.wf(),
            r.accumulators[0]@ == acc.accumulators[0]@,
            r.accumulators[1]@ == acc.accumulators[1]@,
    {
        let mut rows: Vec<Vec<i16>> = Vec::new();
        let mut c: usize = 0;
        while c < 2
            invariant
                c <= 2,
                rows.len() == c,
                acc.wf(),
                forall|k: int| 0 <= k < c ==> #[trigger] rows[k]@ == acc.accumulators[k]@,
            decreases 2 - c,
        {
            let src = &acc.accumulators[c];
            let mut row: Vec<i16> = Vec::new();
            while row.len() < src.len()
                invariant
                    row.len() <= src@.len(),
                    src == acc.accumulators[c as int],
                    c < 2,
                    acc.wf(),
                    forall|j: int| 0 <= j < row.len() ==> #[trigger] row[j] == src[j],
                decreases src@.len() - row.len(),
            {
                row.push(src[row.len()]);
            }
            proof {
                assert(row@ =~= acc.accumulators[c as int]@);
            }
            rows.push(row);
            c = c + 1;
        }
        Accumulator { accumulators: rows }
    }

    /// Pass the move on the board and copy the accumulator up one ply:
    /// a null move changes no feature.
    pub fn make_null_move(&mut self, keys: &ZobristKeys, board: &mut Board, ply: usize)
        requires
            old(self).wf(),
            old(board).wf(),
            old(board).hash_ok(*keys),
            old(board).eval_ok(),
            keys.wf(),
            ply + 1 < 129,
        ensures
            final(self).wf(),
            final(board).wf(),
            final(board).hash_ok(*keys),
            final(board).eval_ok(),
            final(board).pieces@ == old(board).pieces@,
            final(board).castle_flags == old(board).castle_flags,
            final(board).last_double is None,
            final(board).current_color == old(board).current_color.spec_opposite(),
            final(self).transformer == old(self).transformer,
            final(self).net == old(self).net,
            forall|q: int|
                0 <= q < 129 && q != ply + 1 ==> final(self).acc_stack[q] == old(self).acc_stack[q],
            final(self).acc_stack[ply + 1].accumulators[0]@ == old(self).acc_stack[
                ply as int
            ].accumulators[0]@,
            final(self).acc_stack[ply + 1].accumulators[1]@ == old(self).acc_stack[
                ply as int
            ].accumulators[1]@,
    {
        board.make_null_move(keys);
        let copy = Self::acc_copy(&self.acc_stack[ply]);
        self.acc_stack[ply + 1] = copy;
    }

    /// Make the move on the board and derive ply + 1's accumulator: a
    /// rebuild for a perspective whose king moved, an incremental update
    /// from the recorded piece movements otherwise.
    pub fn make_move(&mut self, keys: &ZobristKeys, m: Move, board: &mut Board, ply: usize)
        requires
            old(self).wf(),
            old(board).wf(),
            old(board).hash_ok(*keys),
            old(board).eval_ok(),
            keys.wf(),
            crate::make_move::spec_move_ok(*old(board), m),
            ply + 1 < 129,
        ensures
            final(self).wf(),
            final(board).wf(),
            final(board).hash_ok(*keys),
            final(board).eval_ok(),
            final(board).pieces@ == crate::make_move::spec_mb_after(
                old(board).pieces@,
                m,
                old(board).current_color,
            ),
            final(board).castle_flags == crate::make_move::spec_flags_after(
                old(board).castle_flags,
                m,
            ),
            final(board).last_double == crate::make_move::spec_ep_after(m),
            final(board).current_color == old(board).current_color.spec_opposite(),
            final(self).transformer == old(self).transformer,
            final(self).net == old(self).net,
            forall|q: int|
                0 <= q < 129 && q != ply + 1 ==> final(self).acc_stack[q] == old(self).acc_stack[q],
            ({
                let mb_after = crate::make_move::spec_mb_after(
                    old(board).pieces@,
                    m,
                    old(board).current_color,
                );
                let ds = crate::make_move::spec_deltas_of(m, old(board).current_color);
                let king_moved = m.spec_piece().spec_type() == PieceType::King;
                let needs_w = king_moved && m.spec_piece().spec_color() == PieceColor::White;
                let needs_b = king_moved && m.spec_piece().spec_color() == PieceColor::Black;
                &&& needs_w ==> forall|i: int|
                    0 <= i < 256 ==> #[trigger] final(self).acc_stack[ply + 1].accumulators[0]@[i]
                        == spec_refresh_row(
                        old(self).transformer,
                        crate::half_kp::spec_board_features(mb_after, PieceColor::White),
                        i,
                    )
                &&& !needs_w ==> forall|i: int|
                    0 <= i < 256 ==> #[trigger] final(self).acc_stack[ply + 1].accumulators[0]@[i]
                        == spec_incremental_row(
                        old(self).transformer,
                        old(self).acc_stack[ply as int].accumulators[0]@,
                        crate::half_kp::spec_move_added(mb_after, ds, PieceColor::White),
                        crate::half_kp::spec_move_removed(mb_after, ds, PieceColor::White),
                        i,
                    )
                &&& needs_b ==> forall|i: int|
                    0 <= i < 256 ==> #[trigger] final(self).acc_stack[ply + 1].accumulators[1]@[i]
                        == spec_refresh_row(
                        old(self).transformer,
                        crate::half_kp::spec_board_features(mb_after, PieceColor::Black),
                        i,
                    )
                &&& !needs_b ==> forall|i: int|
                    0 <= i < 256 ==> #[trigger] final(self).acc_stack[ply + 1].accumulators[1]@[i]
                        == spec_incremental_row(
                        old(self).transformer,
                        old(self).acc_stack[ply as int].accumulators[1]@,
                        crate::half_kp::spec_move_added(mb_after, ds, PieceColor::Black),
                        crate::half_kp::spec_move_removed(mb_after, ds, PieceColor::Black),
                        i,
                    )
            }),
    {
        let mut delta = PiecesDelta::new();
        board.make_move(keys, m, &mut delta);
        proof {
            assert(delta.pieces@ =~= crate::make_move::spec_deltas_of(
                m,
                old(board).current_color,
            ));
        }

        let needs_refresh = HalfKP::needs_refresh(m);

        let prev = Self::acc_copy(&self.acc_stack[ply]);
        let mut acc = Self::acc_copy(&self.acc_stack[ply + 1]);

        if needs_refresh.white {
            let features = HalfKP::active_features(board, PieceColor::White);
            self.transformer.refresh(&mut acc, &features.features, PieceColor::White);
        } else {
            let mut added = FeatureList::new();
            let mut removed = FeatureList::new();
            HalfKP::features_diff(&delta, &mut added, &mut removed, board, PieceColor::White);
            self.transformer.update_incremental(
                &mut acc,
                &prev,
                &added.features,
                &removed.features,
                PieceColor::White,
            );
        }

        if needs_refresh.black {
            let features = HalfKP::active_features(board, PieceColor::Black);
            self.transformer.refresh(&mut acc, &features.features, PieceColor::Black);
        } else {
            let mut added = FeatureList::new();
            let mut removed = FeatureList::new();
            HalfKP::features_diff(&delta, &mut added, &mut removed, board, PieceColor::Black);
            self.transformer.update_incremental(
                &mut acc,
                &prev,
                &added.features,
                &removed.features,
                PieceColor::Black,
            );
        }

        self.acc_stack[ply + 1] = acc;
    }

    /// The network's verdict on the position at `ply`, from `side`'s
    /// point of view.
    pub fn eval(&self, ply: usize, side: PieceColor) -> (r: i32)
        requires
            self.wf(),
            ply < 129,
        ensures
            r == spec_net_eval(
                self.net,
                self.transformer.spec_transformed(self.acc_stack[ply as int], side),
            ),
    {
        let input = self.transformer.transform(&self.acc_stack[ply], side);
        let mut buffer = LayersBuffer {
            l_1: Vec::new(),
            r_1: Vec::new(),
            l_2: Vec::new(),
            r_2: Vec::new(),
            out: Vec::new(),
        };
        let r = self.net.eval(&input, &mut buffer);
        proof {
            assert(input@ =~= self.transformer.spec_transformed(
                self.acc_stack[ply as int],
                side,
            ));
        }
        r
    }
}

} // verus!
