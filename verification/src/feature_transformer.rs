//! The feature transformer: a 16-bit accumulator per perspective, equal
//! to the bias plus the weight columns of the active features, summed
//! with 16-bit wrapping.

use vstd::prelude::*;

use crate::piece::PieceColor;
use crate::quant::add16;
use crate::quant::lemma_wrap16_absorb;
use crate::quant::lemma_wrap16_id;
use crate::quant::sub16;
use crate::quant::wrap16;

verus! {

/// Width of one perspective's accumulator.
pub const FEATURES: usize = 256;

/// Features per perspective in the HalfKP set.
pub const HALF_KP_FEATURES: usize = 41024;

/// One accumulator per perspective: White first, Black second.
pub struct Accumulator {
    pub accumulators: Vec<Vec<i16>>,
}

impl Accumulator {
    pub open spec fn wf(self) -> bool {
        &&& self.accumulators.len() == 2
        &&& self.accumulators[0]@.len() == 256
        &&& self.accumulators[1]@.len() == 256
    }

    pub fn new_zero() -> (r: Accumulator)
        ensures
            r.wf(),
    {
        let mut rows: Vec<Vec<i16>> = Vec::new();
        let mut c: usize = 0;
        while c < 2
            invariant
                c <= 2,
                rows.len() == c,
                forall|k: int| 0 <= k < c ==> #[trigger] rows[k]@.len() == 256,
            decreases 2 - c,
        {
            let mut row: Vec<i16> = Vec::new();
            while row.len() < 256
                invariant
                    row.len() <= 256,
                decreases 256 - row.len(),
            {
                row.push(0);
            }
            rows.push(row);
            c = c + 1;
        }
        Accumulator { accumulators: rows }
    }
}

/// The weighted sum of one accumulator lane over a feature list.
pub open spec fn spec_feat_sum(weights: Seq<Vec<i16>>, feats: Seq<usize>, i: int) -> int
    decreases feats.len(),
{
    if feats.len() == 0 {
        0
    } else {
        spec_feat_sum(weights, feats.drop_last(), i) + weights[feats.last() as int]@[i]
    }
}

/// Bias and weight matrix of the transformer: one weight row of 256
/// lanes per HalfKP feature.
pub struct FeatureTransformer {
    pub bias: Vec<i16>,
    pub weights: Vec<Vec<i16>>,
}

impl FeatureTransformer {
    pub open spec fn wf(self) -> bool {
        &&& self.bias.len() == 256
        &&& self.weights.len() == 41024
        &&& forall|f: int| 0 <= f < 41024 ==> #[trigger] self.weights[f]@.len() == 256
    }

    /// An all-zero transformer, the starting point before a file loads.
    pub fn new_zero() -> (r: FeatureTransformer)
        ensures
            r.wf(),
    {
        let mut bias: Vec<i16> = Vec::new();
        while bias.len() < 256
            invariant
                bias.len() <= 256,
            decreases 256 - bias.len(),
        {
            bias.push(0);
        }
        let mut weights: Vec<Vec<i16>> = Vec::new();
        while weights.len() < 41024
            invariant
                weights.len() <= 41024,
                forall|f: int| 0 <= f < weights.len() ==> #[trigger] weights[f]@.len() == 256,
            decreases 41024 - weights.len(),
        {
            let mut row: Vec<i16> = Vec::new();
            while row.len() < 256
                invariant
                    row.len() <= 256,
                decreases 256 - row.len(),
            {
                row.push(0);
            }
            weights.push(row);
        }
        FeatureTransformer { bias, weights }
    }

    /// Rebuild one perspective's accumulator from scratch: bias plus the
    /// weight columns of every listed feature, wrapped at 16 bits.
    pub fn refresh(&self, acc: &mut Accumulator, features: &Vec<usize>, perspective: PieceColor)
        requires
            self.wf(),
            old(acc).wf(),
            forall|k: int| 0 <= k < features.len() ==> #[trigger] features[k] < 41024,
        ensures
            final(acc).wf(),
            final(acc).accumulators[1 - perspective.idx()] == old(acc).accumulators[1
                - perspective.idx()],
            forall|i: int|
                0 <= i < 256 ==> #[trigger] final(acc).accumulators[perspective.idx()]@[i]
                    == wrap16(self.bias[i] + spec_feat_sum(self.weights@, features@, i)),
    {
        let mut row: Vec<i16> = Vec::new();
        while row.len() < 256
            invariant
                row.len() <= 256,
                self.wf(),
                forall|i: int| 0 <= i < row.len() ==> #[trigger] row[i] == self.bias[i],
            decreases 256 - row.len(),
        {
            row.push(self.bias[row.len()]);
        }

        let mut k: usize = 0;
        while k < features.len()
            invariant
                k <= features.len(),
                self.wf(),
                row.len() == 256,
                forall|j: int| 0 <= j < features.len() ==> #[trigger] features[j] < 41024,
                forall|i: int|
                    0 <= i < 256 ==> #[trigger] row[i] == wrap16(
                        self.bias[i] + spec_feat_sum(
                            self.weights@,
                            features@.subrange(0, k as int),
                            i,
                        ),
                    ),
            decreases features.len() - k,
        {
            let f = features[k];
            let w = &self.weights[f];
            let ghost pre = row@;
            let mut i: usize = 0;
            while i < 256
                invariant
                    i <= 256,
                    self.wf(),
                    row.len() == 256,
                    k < features.len(),
                    f == features[k as int],
                    f < 41024,
                    w == self.weights[f as int],
                    pre.len() == 256,
                    forall|j: int| i <= j < 256 ==> #[trigger] row[j] == pre[j],
                    forall|j: int|
                        0 <= j < i ==> #[trigger] row[j] == wrap16(pre[j] + self.weights[f as int]@[j]),
                decreases 256 - i,
            {
                let v = add16(row[i], w[i]);
                row[i] = v;
                i = i + 1;
            }
            proof {
                assert(features@.subrange(0, k + 1).drop_last() =~= features@.subrange(
                    0,
                    k as int,
                ));
                assert forall|j: int|
                    0 <= j < 256 implies row[j] == wrap16(
                    self.bias[j] + spec_feat_sum(self.weights@, features@.subrange(0, k + 1), j),
                ) by {
                    lemma_wrap16_absorb(
                        self.bias[j] + spec_feat_sum(
                            self.weights@,
                            features@.subrange(0, k as int),
                            j,
                        ),
                        self.weights[f as int]@[j] as int,
                    );
                }
            }
            k = k + 1;
        }
        proof {
            assert(features@.subrange(0, features@.len() as int) =~= features@);
        }
        let p = perspective.index();
        self.accum_store(acc, p, row);
    }

    /// Replace one accumulator row.
    fn accum_store(&self, acc: &mut Accumulator, p: usize, row: Vec<i16>)
        requires
            old(acc).wf(),
            p < 2,
            row.len() == 256,
        ensures
            final(acc).wf(),
            final(acc).accumulators[p as int] == row,
            final(acc).accumulators[1 - p] == old(acc).accumulators[1 - p],
    {
        acc.accumulators[p] = row;
    }

    /// Derive one perspective's accumulator from the previous ply's:
    /// subtract the removed features' columns, add the added ones.
    pub fn update_incremental(
        &self,
        acc: &mut Accumulator,
        prev: &Accumulator,
        added: &Vec<usize>,
        removed: &Vec<usize>,
        perspective: PieceColor,
    )
        requires
            self.wf(),
            old(acc).wf(),
            prev.wf(),
            forall|k: int| 0 <= k < added.len() ==> #[trigger] added[k] < 41024,
            forall|k: int| 0 <= k < removed.len() ==> #[trigger] removed[k] < 41024,
        ensures
            final(acc).wf(),
            final(acc).accumulators[1 - perspective.idx()] == old(acc).accumulators[1
                - perspective.idx()],
            forall|i: int|
                0 <= i < 256 ==> #[trigger] final(acc).accumulators[perspective.idx()]@[i]
                    == wrap16(
                    prev.accumulators[perspective.idx()]@[i] + spec_feat_sum(
                        self.weights@,
                        added@,
                        i,
                    ) - spec_feat_sum(self.weights@, removed@, i),
                ),
    {
        let p = perspective.index();
        let ghost p0 = prev.accumulators[p as int]@;
        let mut row: Vec<i16> = Vec::new();
        let prev_row = &prev.accumulators[p];
        while row.len() < 256
            invariant
                row.len() <= 256,
                prev_row@.len() == 256,
                prev_row@ == p0,
                forall|i: int| 0 <= i < row.len() ==> #[trigger] row[i] == p0[i],
            decreases 256 - row.len(),
        {
            row.push(prev_row[row.len()]);
        }
        proof {
            assert forall|j: int| 0 <= j < 256 implies row[j] == wrap16(
                p0[j] + spec_feat_sum(self.weights@, removed@.subrange(0, 0), j),
            ) by {
                assert(removed@.subrange(0, 0) =~= Seq::<usize>::empty());
                lemma_wrap16_id(p0[j] as int);
            }
        }

        let mut k: usize = 0;
        while k < removed.len()
            invariant
                k <= removed.len(),
                self.wf(),
                row.len() == 256,
                p0.len() == 256,
                forall|j: int| 0 <= j < removed.len() ==> #[trigger] removed[j] < 41024,
                forall|i: int|
                    0 <= i < 256 ==> #[trigger] row[i] == wrap16(
                        p0[i] - spec_feat_sum(self.weights@, removed@.subrange(0, k as int), i),
                    ),
            decreases removed.len() - k,
        {
            let f = removed[k];
            let w = &self.weights[f];
            let ghost pre = row@;
            let mut i: usize = 0;
            while i < 256
                invariant
                    i <= 256,
                    self.wf(),
                    row.len() == 256,
                    k < removed.len(),
                    f == removed[k as int],
                    f < 41024,
                    w == self.weights[f as int],
                    pre.len() == 256,
                    forall|j: int| i <= j < 256 ==> #[trigger] row[j] == pre[j],
                    forall|j: int|
                        0 <= j < i ==> #[trigger] row[j] == wrap16(pre[j] - self.weights[f as int]@[j]),
                decreases 256 - i,
            {
                let v = sub16(row[i], w[i]);
                row[i] = v;
                i = i + 1;
            }
            proof {
                assert(removed@.subrange(0, k + 1).drop_last() =~= removed@.subrange(0, k as int));
                assert forall|j: int|
                    0 <= j < 256 implies row[j] == wrap16(
                    p0[j] - spec_feat_sum(self.weights@, removed@.subrange(0, k + 1), j),
                ) by {
                    lemma_wrap16_absorb(
                        p0[j] - spec_feat_sum(self.weights@, removed@.subrange(0, k as int), j),
                        -(self.weights[f as int]@[j] as int),
                    );
                }
            }
            k = k + 1;
        }
        proof {
            assert(removed@.subrange(0, removed@.len() as int) =~= removed@);
            assert forall|j: int| 0 <= j < 256 implies row[j] == wrap16(
                p0[j] - spec_feat_sum(self.weights@, removed@, j) + spec_feat_sum(
                    self.weights@,
                    added@.subrange(0, 0),
                    j,
                ),
            ) by {
                assert(added@.subrange(0, 0) =~= Seq::<usize>::empty());
            }
        }

        let mut k2: usize = 0;
        while k2 < added.len()
            invariant
                k2 <= added.len(),
                self.wf(),
                row.len() == 256,
                p0.len() == 256,
                forall|j: int| 0 <= j < added.len() ==> #[trigger] added[j] < 41024,
                forall|i: int|
                    0 <= i < 256 ==> #[trigger] row[i] == wrap16(
                        p0[i] - spec_feat_sum(self.weights@, removed@, i) + spec_feat_sum(
                            self.weights@,
                            added@.subrange(0, k2 as int),
                            i,
                        ),
                    ),
            decreases added.len() - k2,
        {
            let f = added[k2];
            let w = &self.weights[f];
            let ghost pre = row@;
            let mut i: usize = 0;
            while i < 256
                invariant
                    i <= 256,
                    self.wf(),
                    row.len() == 256,
                    k2 < added.len(),
                    f == added[k2 as int],
                    f < 41024,
                    w == self.weights[f as int],
                    pre.len() == 256,
                    forall|j: int| i <= j < 256 ==> #[trigger] row[j] == pre[j],
                    forall|j: int|
                        0 <= j < i ==> #[trigger] row[j] == wrap16(pre[j] + self.weights[f as int]@[j]),
                decreases 256 - i,
            {
                let v = add16(row[i], w[i]);
                row[i] = v;
                i = i + 1;
            }
            proof {
                assert(added@.subrange(0, k2 + 1).drop_last() =~= added@.subrange(0, k2 as int));
                assert forall|j: int|
                    0 <= j < 256 implies row[j] == wrap16(
                    p0[j] - spec_feat_sum(self.weights@, removed@, j) + spec_feat_sum(
                        self.weights@,
                        added@.subrange(0, k2 + 1),
                        j,
                    ),
                ) by {
                    lemma_wrap16_absorb(
                        p0[j] - spec_feat_sum(self.weights@, removed@, j) + spec_feat_sum(
                            self.weights@,
                            added@.subrange(0, k2 as int),
                            j,
                        ),
                        self.weights[f as int]@[j] as int,
                    );
                }
            }
            k2 = k2 + 1;
        }
        proof {
            assert(added@.subrange(0, added@.len() as int) =~= added@);
        }
        self.accum_store(acc, p, row);
    }

    /// The clipped 8-bit view of an accumulator lane.
    pub open spec fn spec_clip(x: i16) -> i8 {
        if x < 0 {
            0
        } else if x > 127 {
            127
        } else {
            x as i8
        }
    }

    /// The 512-wide clipped input the network sees: the perspective's
    /// own accumulator first, the opponent's second.
    pub open spec fn spec_transformed(self, acc: Accumulator, perspective: PieceColor) -> Seq<i8> {
        Seq::new(
            512,
            |i: int|
                if i < 256 {
                    Self::spec_clip(acc.accumulators[perspective.idx()]@[i])
                } else {
                    Self::spec_clip(acc.accumulators[perspective.spec_opposite().idx()]@[i - 256])
                },
        )
    }

    /// Concatenate the side to move's accumulator and the opponent's,
    /// each lane clamped into 0..127.
    pub fn transform(&self, acc: &Accumulator, perspective: PieceColor) -> (r: Vec<i8>)
        requires
            acc.wf(),
        ensures
            r.len() == 512,
            forall|i: int|
                0 <= i < 256 ==> #[trigger] r[i] == Self::spec_clip(
                    acc.accumulators[perspective.idx()]@[i],
                ),
            forall|i: int|
                256 <= i < 512 ==> #[trigger] r[i] == Self::spec_clip(
                    acc.accumulators[perspective.spec_opposite().idx()]@[i - 256],
                ),
    {
        let mut out: Vec<i8> = Vec::new();
        let p0 = perspective.index();
        let p1 = perspective.opposite().index();
        let row0 = &acc.accumulators[p0];
        let mut i: usize = 0;
        while i < 256
            invariant
                i <= 256,
                out.len() == i,
                row0@.len() == 256,
                row0 == acc.accumulators[p0 as int],
                p0 == perspective.idx(),
                forall|j: int|
                    0 <= j < i ==> #[trigger] out[j] == Self::spec_clip(
                        acc.accumulators[p0 as int]@[j],
                    ),
            decreases 256 - i,
        {
            let x = row0[i];
            let c: i8 = if x < 0 {
                0
            } else if x > 127 {
                127
            } else {
                x as i8
            };
            out.push(c);
            i = i + 1;
        }
        let row1 = &acc.accumulators[p1];
        let mut j: usize = 0;
        while j < 256
            invariant
                j <= 256,
                out.len() == 256 + j,
                row1@.len() == 256,
                row1 == acc.accumulators[p1 as int],
                p0 == perspective.idx(),
                p1 == perspective.spec_opposite().idx(),
                forall|t: int|
                    0 <= t < 256 ==> #[trigger] out[t] == Self::spec_clip(
                        acc.accumulators[p0 as int]@[t],
                    ),
                forall|t: int|
                    256 <= t < 256 + j ==> #[trigger] out[t] == Self::spec_clip(
                        acc.accumulators[p1 as int]@[t - 256],
                    ),
            decreases 256 - j,
        {
            let x = row1[j];
            let c: i8 = if x < 0 {
                0
            } else if x > 127 {
                127
            } else {
                x as i8
            };
            out.push(c);
            j = j + 1;
        }
        out
    }
}

} // verus!
