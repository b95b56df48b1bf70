//! The fixed three-layer quantized network behind the feature
//! transformer: 512 clipped inputs, two hidden layers of 32, one
//! scalar output scaled down by sixteen.

use vstd::prelude::*;

use crate::layers::spec_crelu_seq;
use crate::layers::Layer;
use crate::layers::spec_linear_seq;
use crate::layers::LinearLayer;
use crate::layers::ReluLayer;

verus! {

/// A positive or negative 32-bit value scaled down by sixteen,
/// rounding toward zero.
pub open spec fn spec_div16(x: i32) -> int {
    if x >= 0 {
        x / 16
    } else {
        -((-(x as int)) / 16)
    }
}

/// Scale a score down by sixteen, rounding toward zero.
pub fn div16(x: i32) -> (r: i32)
    ensures
        r == spec_div16(x),
{
    if x >= 0 {
        ((x as u64) / 16) as i32
    } else {
        -((((-(x as i64)) as u64) / 16) as i32)
    }
}

/// Scratch space for one evaluation, layer by layer.
pub struct LayersBuffer {
    pub l_1: Vec<i32>,
    pub r_1: Vec<i8>,
    pub l_2: Vec<i32>,
    pub r_2: Vec<i8>,
    pub out: Vec<i32>,
}

/// The architecture hash of the fixed three-layer shape, combining the
/// two hidden widths and the scalar output as the file format chains
/// them.
pub open spec fn spec_net_arch_hash() -> u32 {
    let h0 = 0xEC42E90Du32 ^ 512u32;
    let h1 = vstd::wrapping::u32_specs::wrapping_add(0xCC03DAE4u32, 32u32) ^ (h0 >> 1u32) ^ (h0
        << 31u32);
    let h2 = vstd::wrapping::u32_specs::wrapping_add(0x538D24C7u32, h1);
    let h3 = vstd::wrapping::u32_specs::wrapping_add(0xCC03DAE4u32, 32u32) ^ (h2 >> 1u32) ^ (h2
        << 31u32);
    let h4 = vstd::wrapping::u32_specs::wrapping_add(0x538D24C7u32, h3);
    vstd::wrapping::u32_specs::wrapping_add(0xCC03DAE4u32, 1u32) ^ (h4 >> 1u32) ^ (h4 << 31u32)
}

/// The three linear layers with their activations.
pub struct TripleLayerNetwork {
    pub l_1: LinearLayer,
    pub r_1: ReluLayer,
    pub l_2: LinearLayer,
    pub r_2: ReluLayer,
    pub l_3: LinearLayer,
}

/// What the network computes on a 512-wide clipped input.
pub open spec fn spec_net_eval(net: TripleLayerNetwork, input: Seq<i8>) -> int {
    let a = spec_linear_seq(net.l_1.bias@, net.l_1.weights@, input);
    let b = spec_crelu_seq(a);
    let c = spec_linear_seq(net.l_2.bias@, net.l_2.weights@, b);
    let d = spec_crelu_seq(c);
    let e = spec_linear_seq(net.l_3.bias@, net.l_3.weights@, d);
    spec_div16(e[0])
}

impl TripleLayerNetwork {
    pub open spec fn wf(self) -> bool {
        &&& self.l_1.wf(512, 32)
        &&& self.l_2.wf(32, 32)
        &&& self.l_3.wf(32, 1)
    }

    /// An all-zero network of the right shape.
    pub fn new_zero() -> (r: TripleLayerNetwork)
        ensures
            r.wf(),
    {
        TripleLayerNetwork {
            l_1: LinearLayer::new_zero(512, 32),
            r_1: ReluLayer::new(),
            l_2: LinearLayer::new_zero(32, 32),
            r_2: ReluLayer::new(),
            l_3: LinearLayer::new_zero(32, 1),
        }
    }

    /// The architecture hash the file format expects for this shape.
    pub fn hash() -> (r: u32)
        ensures
            r == spec_net_arch_hash(),
    {
        let mut hash: u32 = 0xEC42E90Du32 ^ 512u32;
        hash = LinearLayer::hash_with_out(hash, 32);
        hash = ReluLayer::get_hash(hash);
        hash = LinearLayer::hash_with_out(hash, 32);
        hash = ReluLayer::get_hash(hash);
        hash = LinearLayer::hash_with_out(hash, 1);
        hash
    }

    /// Run the network; the buffer keeps each layer's output.
    pub fn eval(&self, input: &Vec<i8>, buffer: &mut LayersBuffer) -> (r: i32)
        requires
            self.wf(),
            input.len() == 512,
        ensures
            r == spec_net_eval(*self, input@),
    {
        buffer.l_1 = self.l_1.propagate(input);
        buffer.r_1 = self.r_1.propagate(&buffer.l_1);
        buffer.l_2 = self.l_2.propagate(&buffer.r_1);
        buffer.r_2 = self.r_2.propagate(&buffer.l_2);
        buffer.out = self.l_3.propagate(&buffer.r_2);
        div16(buffer.out[0])
    }
}

} // verus!
