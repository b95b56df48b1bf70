//! The quantized network layers: a linear layer over int8 inputs with
//! int32 accumulation, and the clipped activation between layers.

use vstd::prelude::*;

use crate::quant::lemma_wrap32_id;
use crate::quant::wrap32;

verus! {

/// A layer contributes its piece to the network architecture hash.
pub trait Layer {
    fn get_hash(prev_hash: u32) -> u32;
}

/// The clipped activation: shift six bits out, clamp into 0..127.
pub open spec fn spec_crelu(x: i32) -> i8 {
    let y = x >> 6;
    if y < 0 {
        0
    } else if y > 127 {
        127
    } else {
        y as i8
    }
}

/// The activation applied across a vector.
pub open spec fn spec_crelu_seq(s: Seq<i32>) -> Seq<i8> {
    Seq::new(s.len(), |i: int| spec_crelu(s[i]))
}

#[derive(Debug, Clone, Copy)]
pub struct ReluLayer {
}

impl ReluLayer {
    pub fn new() -> ReluLayer {
        ReluLayer {  }
    }

    /// Apply the activation to every element.
    pub fn propagate(&self, input: &Vec<i32>) -> (r: Vec<i8>)
        ensures
            r@ == spec_crelu_seq(input@),
    {
        let mut r: Vec<i8> = Vec::new();
        let n = input.len();
        while r.len() < n
            invariant
                r.len() <= n,
                n == input.len(),
                forall|i: int| 0 <= i < r.len() ==> #[trigger] r[i] == spec_crelu(input[i]),
            decreases n - r.len(),
        {
            let x = input[r.len()];
            let y = x >> 6u32;
            proof {
                assert(-0x0200_0000 <= (x >> 6u32) <= 0x0200_0000) by (bit_vector);
            }
            let c: i8 = if y < 0 {
                0
            } else if y > 127 {
                127
            } else {
                y as i8
            };
            r.push(c);
        }
        proof {
            assert(r@ =~= spec_crelu_seq(input@));
        }
        r
    }
}

impl Layer for ReluLayer {
    fn get_hash(prev_hash: u32) -> (r: u32)
        ensures
            r == vstd::wrapping::u32_specs::wrapping_add(0x538D24C7u32, prev_hash),
    {
        0x538D24C7u32.wrapping_add(prev_hash)
    }
}

/// The dot product of a weight row and an input vector, first `n` terms.
pub open spec fn spec_dot(ws: Seq<i8>, input: Seq<i8>, n: int) -> int
    decreases n,
{
    if n <= 0 {
        0
    } else {
        spec_dot(ws, input, n - 1) + ws[n - 1] * input[n - 1]
    }
}

/// One output of a linear layer before reduction: bias plus dot product.
pub open spec fn spec_linear_out(bias: int, ws: Seq<i8>, input: Seq<i8>) -> int {
    bias + spec_dot(ws, input, input.len() as int)
}

/// A full linear layer output vector, wrapped into 32 bits.
pub open spec fn spec_linear_seq(bias: Seq<i32>, weights: Seq<Vec<i8>>, input: Seq<i8>) -> Seq<
    i32,
> {
    Seq::new(bias.len(), |o: int| wrap32(spec_linear_out(bias[o] as int, weights[o]@, input)))
}

proof fn lemma_dot_bound(ws: Seq<i8>, input: Seq<i8>, n: int)
    requires
        0 <= n <= ws.len(),
        n <= input.len(),
    ensures
        -16384 * n <= spec_dot(ws, input, n) <= 16384 * n,
    decreases n,
{
    if n > 0 {
        lemma_dot_bound(ws, input, n - 1);
        assert(-16384 <= ws[n - 1] * input[n - 1] <= 16384) by (nonlinear_arith)
            requires
                -128 <= ws[n - 1] <= 127,
                -128 <= input[n - 1] <= 127,
        ;
    }
}

/// A linear transform: int8 inputs, int8 weights, int32 bias and
/// accumulation; the accumulation wraps as 32-bit addition does.
pub struct LinearLayer {
    pub bias: Vec<i32>,
    pub weights: Vec<Vec<i8>>,
}

impl LinearLayer {
    /// Rows as long as the input, one per output beside its bias.
    pub open spec fn wf(self, in_dim: int, out_dim: int) -> bool {
        &&& self.bias.len() == out_dim
        &&& self.weights.len() == out_dim
        &&& forall|o: int| 0 <= o < out_dim ==> #[trigger] self.weights[o]@.len() == in_dim
    }

    /// A zero layer of the given shape.
    pub fn new_zero(in_dim: usize, out_dim: usize) -> (r: LinearLayer)
        ensures
            r.wf(in_dim as int, out_dim as int),
    {
        let mut bias: Vec<i32> = Vec::new();
        while bias.len() < out_dim
            invariant
                bias.len() <= out_dim,
            decreases out_dim - bias.len(),
        {
            bias.push(0);
        }
        let mut weights: Vec<Vec<i8>> = Vec::new();
        while weights.len() < out_dim
            invariant
                weights.len() <= out_dim,
                forall|o: int| 0 <= o < weights.len() ==> #[trigger] weights[o]@.len() == in_dim,
            decreases out_dim - weights.len(),
        {
            let mut row: Vec<i8> = Vec::new();
            while row.len() < in_dim
                invariant
                    row.len() <= in_dim,
                decreases in_dim - row.len(),
            {
                row.push(0);
            }
            weights.push(row);
        }
        LinearLayer { bias, weights }
    }

    /// Output = bias + weights · input, each lane wrapped to 32 bits.
    pub fn propagate(&self, input: &Vec<i8>) -> (r: Vec<i32>)
        requires
            self.wf(input.len() as int, self.bias.len() as int),
            input.len() <= 1024,
        ensures
            r@ == spec_linear_seq(self.bias@, self.weights@, input@),
    {
        let out_dim = self.bias.len();
        let in_dim = input.len();
        let mut r: Vec<i32> = Vec::new();
        while r.len() < out_dim
            invariant
                r.len() <= out_dim,
                out_dim == self.bias.len(),
                in_dim == input.len(),
                in_dim <= 1024,
                self.wf(in_dim as int, out_dim as int),
                forall|o: int|
                    0 <= o < r.len() ==> #[trigger] r[o] == wrap32(
                        spec_linear_out(self.bias[o] as int, self.weights[o]@, input@),
                    ),
            decreases out_dim - r.len(),
        {
            let o = r.len();
            let mut sum: i64 = self.bias[o] as i64;
            let mut j: usize = 0;
            while j < in_dim
                invariant
                    j <= in_dim,
                    in_dim == input.len(),
                    in_dim <= 1024,
                    o < out_dim,
                    out_dim == self.bias.len(),
                    self.wf(in_dim as int, out_dim as int),
                    sum == self.bias[o as int] + spec_dot(self.weights[o as int]@, input@, j as int),
                    -0x8000_0000 - 16384 * (j as int) <= sum <= 0x7fff_ffff + 16384 * (j as int),
                decreases in_dim - j,
            {
                proof {
                    lemma_dot_bound(self.weights[o as int]@, input@, j as int);
                    assert(-16384 <= self.weights[o as int]@[j as int] * input@[j as int] <= 16384)
                        by (nonlinear_arith)
                        requires
                            -128 <= self.weights[o as int]@[j as int] <= 127,
                            -128 <= input@[j as int] <= 127,
                    ;
                }
                let row = &self.weights[o];
                sum = sum + (row[j] as i64) * (input[j] as i64);
                j = j + 1;
            }
            let w: i32 = if sum >= -0x8000_0000i64 && sum <= 0x7fff_ffffi64 {
                proof {
                    lemma_wrap32_id(sum as int);
                }
                sum as i32
            } else if sum > 0x7fff_ffffi64 {
                proof {
                    crate::quant::lemma_wrap32_shift(sum as int);
                }
                (sum - 0x1_0000_0000i64) as i32
            } else {
                proof {
                    crate::quant::lemma_wrap32_shift(sum as int);
                }
                (sum + 0x1_0000_0000i64) as i32
            };
            r.push(w);
        }
        proof {
            assert(r@ =~= spec_linear_seq(self.bias@, self.weights@, input@));
        }
        r
    }
}

impl Layer for LinearLayer {
    fn get_hash(prev_hash: u32) -> (r: u32)
        ensures
            r == (vstd::wrapping::u32_specs::wrapping_add(0xCC03DAE4u32, 0) ^ (prev_hash >> 1) ^ (
            prev_hash << 31u32)),
    {
        let mut hash_value: u32 = 0xCC03DAE4u32;
        hash_value = hash_value.wrapping_add(0);
        hash_value = hash_value ^ (prev_hash >> 1u32);
        hash_value = hash_value ^ (prev_hash << 31u32);
        hash_value
    }
}

impl LinearLayer {
    /// The architecture hash of a linear layer with `out` outputs.
    pub fn hash_with_out(prev_hash: u32, out: u32) -> (r: u32)
        ensures
            r == (vstd::wrapping::u32_specs::wrapping_add(0xCC03DAE4u32, out) ^ (prev_hash >> 1) ^ (
            prev_hash << 31u32)),
    {
        let mut hash_value: u32 = 0xCC03DAE4u32;
        hash_value = hash_value.wrapping_add(out);
        hash_value = hash_value ^ (prev_hash >> 1u32);
        hash_value = hash_value ^ (prev_hash << 31u32);
        hash_value
    }
}

} // verus!
