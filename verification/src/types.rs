//! Common auxiliary types of the scheduler core.

use vstd::prelude::*;

verus! {

/// Bytes of an expert id field in a payload header.
pub const EXPERT_ID_SIZE: usize = 4;

/// Bytes of a layer id field in a payload header.
pub const LAYER_ID_SIZE: usize = 4;

/// Bytes of one gate weight in a payload header.
pub const GATE_WEIGHT_SIZE: usize = 4;

/// Mapping of one expert onto a device.
#[derive(Debug, Clone)]
pub struct ExpertGpuMapping {
    pub expert_id: usize,
    pub gpu_id: i32,
    /// Memory the expert needs on that device, in MB.
    pub memory_required: u64,
}

/// Gate weights for a weighted expert merge, supplied by the caller or an
/// external routing component.
///
/// Each weight is the bit pattern of an IEEE-754 binary32 value, as
/// `f32::to_bits` would give it; the merger's arithmetic is carried out on
/// these bit patterns.
#[derive(Debug, Clone)]
pub struct GateWeights {
    /// One weight per expert considered.
    pub weights: Vec<u32>,
    /// How many experts the router keeps per token.
    pub top_k: usize,
}

} // verus!
