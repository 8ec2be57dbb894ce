//! Building self-describing sub-payloads: a fixed-layout header is put in
//! front of the raw input bytes of each sub-task.

use vstd::prelude::*;
use crate::bytes::{push_u32_le, u32_le};
use crate::config::ModelInfo;
use crate::error::Error;
use crate::float_bits::F32_ONE_BITS;

verus! {

/// The one-hot gate vector over `num_experts` experts: one binary32 value
/// per expert, little-endian, 1.0 at `expert_id` and 0.0 elsewhere.
pub open spec fn gate_vec_bytes(num_experts: int, expert_id: int) -> Seq<u8>
    decreases num_experts,
{
    if num_experts <= 0 {
        Seq::empty()
    } else {
        gate_vec_bytes(num_experts - 1, expert_id) + u32_le(
            if num_experts - 1 == expert_id {
                F32_ONE_BITS
            } else {
                0u32
            },
        )
    }
}

/// The expert header: the expert id as `u32` little-endian, then the
/// one-hot gate vector.
pub open spec fn expert_header(m: ModelInfo, expert_id: int) -> Seq<u8> {
    u32_le(expert_id as u32) + gate_vec_bytes(m.num_experts as int, expert_id)
}

/// The layer header: layer id, hidden size, intermediate size and expert
/// count, each as `u32` little-endian.
pub open spec fn layer_header(m: ModelInfo, layer_id: int) -> Seq<u8> {
    u32_le(layer_id as u32) + u32_le(m.hidden_size as u32) + u32_le(m.intermediate_size as u32)
        + u32_le(m.num_experts as u32)
}

/// The payload of one expert sub-task: expert header, then the raw input.
pub open spec fn expert_payload(m: ModelInfo, input: Seq<u8>, expert_id: int) -> Seq<u8> {
    expert_header(m, expert_id) + input
}

/// The payload of one layer sub-task: layer header, then the raw input.
pub open spec fn layer_payload(m: ModelInfo, input: Seq<u8>, layer_id: int) -> Seq<u8> {
    layer_header(m, layer_id) + input
}

/// The payload of one combined sub-task: expert header, then layer
/// header, then the raw input.
pub open spec fn layer_expert_payload(
    m: ModelInfo,
    input: Seq<u8>,
    layer_id: int,
    expert_id: int,
) -> Seq<u8> {
    expert_header(m, expert_id) + layer_header(m, layer_id) + input
}

/// The one-hot gate vector over `n` experts is `4 * n` bytes long.
pub proof fn lemma_gate_vec_len(n: int, e: int)
    requires
        n >= 0,
    ensures
        gate_vec_bytes(n, e).len() == 4 * n,
    decreases n,
{
    if n > 0 {
        lemma_gate_vec_len(n - 1, e);
    }
}

/// An expert payload is `4 + 4 * num_experts` header bytes, then the input.
pub proof fn lemma_expert_payload_len(m: ModelInfo, input: Seq<u8>, k: int)
    ensures
        expert_payload(m, input, k).len() == 4 + 4 * m.num_experts + input.len(),
{
    lemma_gate_vec_len(m.num_experts as int, k);
}

/// A layer payload is 16 header bytes, then the input.
pub proof fn lemma_layer_payload_len(m: ModelInfo, input: Seq<u8>, k: int)
    ensures
        layer_payload(m, input, k).len() == 16 + input.len(),
{
}

/// Whether the model's counts fit the `u32` header fields.
pub open spec fn fits_header_fields(m: ModelInfo) -> bool {
    &&& m.num_experts <= u32::MAX
    &&& m.num_layers <= u32::MAX
    &&& m.hidden_size <= u32::MAX
    &&& m.intermediate_size <= u32::MAX
}

/// Prepares the input data of sub-tasks: validates the target id and
/// prepends the fixed-layout header. A pure function of its inputs; no
/// side effect beyond allocation.
pub struct DataPreparator {
    pub model_info: ModelInfo,
}

impl DataPreparator {
    pub fn new(model_info: ModelInfo) -> (p: Self)
        ensures
            p.model_info == model_info,
    {
        DataPreparator { model_info }
    }

    /// The one-hot gate vector for `expert_id`, a placeholder gate signal
    /// consumed by downstream tooling.
    pub fn generate_gate_info(&self, expert_id: usize) -> (r: Vec<u8>)
        ensures
            r@ == gate_vec_bytes(self.model_info.num_experts as int, expert_id as int),
    {
        let mut gate_info: Vec<u8> = Vec::new();
        let num_experts = self.model_info.num_experts;
        for i in 0..num_experts
            invariant
                gate_info@ == gate_vec_bytes(i as int, expert_id as int),
        {
            let w: u32 = if i == expert_id {
                F32_ONE_BITS
            } else {
                0
            };
            push_u32_le(&mut gate_info, w);
        }
        gate_info
    }

    /// The layer header for `layer_id`.
    pub fn generate_layer_config(&self, layer_id: usize) -> (r: Vec<u8>)
        requires
            fits_header_fields(self.model_info),
            layer_id <= u32::MAX,
        ensures
            r@ == layer_header(self.model_info, layer_id as int),
    {
        let mut layer_config: Vec<u8> = Vec::new();
        push_u32_le(&mut layer_config, layer_id as u32);
        push_u32_le(&mut layer_config, self.model_info.hidden_size as u32);
        push_u32_le(&mut layer_config, self.model_info.intermediate_size as u32);
        push_u32_le(&mut layer_config, self.model_info.num_experts as u32);
        layer_config
    }

    /// The payload of one expert sub-task. Returns `OutOfRange` exactly
    /// when `expert_id` is not below the model's expert count.
    pub fn prepare_expert_data(&self, input_data: &Vec<u8>, expert_id: usize) -> (r: Result<
        Vec<u8>,
        Error,
    >)
        requires
            fits_header_fields(self.model_info),
        ensures
            expert_id < self.model_info.num_experts ==> (r matches Ok(d) && d@ == expert_payload(
                self.model_info,
                input_data@,
                expert_id as int,
            )),
            expert_id >= self.model_info.num_experts ==> (r matches Err(e) && e is OutOfRange),
    {
        if expert_id >= self.model_info.num_experts {
            return Err(Error::OutOfRange("expert id is not below the expert count".to_string()));
        }
        let mut expert_data: Vec<u8> = Vec::new();
        push_u32_le(&mut expert_data, expert_id as u32);
        let gate_info = self.generate_gate_info(expert_id);
        expert_data.extend_from_slice(gate_info.as_slice());
        expert_data.extend_from_slice(input_data.as_slice());
        proof {
            assert(expert_data@ =~= expert_payload(
                self.model_info,
                input_data@,
                expert_id as int,
            ));
        }
        Ok(expert_data)
    }

    /// The payload of one layer sub-task. Returns `OutOfRange` exactly
    /// when `layer_id` is not below the model's layer count.
    pub fn prepare_layer_data(&self, input_data: &Vec<u8>, layer_id: usize) -> (r: Result<
        Vec<u8>,
        Error,
    >)
        requires
            fits_header_fields(self.model_info),
        ensures
            layer_id < self.model_info.num_layers ==> (r matches Ok(d) && d@ == layer_payload(
                self.model_info,
                input_data@,
                layer_id as int,
            )),
            layer_id >= self.model_info.num_layers ==> (r matches Err(e) && e is OutOfRange),
    {
        if layer_id >= self.model_info.num_layers {
            return Err(Error::OutOfRange("layer id is not below the layer count".to_string()));
        }
        let mut layer_data = self.generate_layer_config(layer_id);
        layer_data.extend_from_slice(input_data.as_slice());
        proof {
            assert(layer_data@ =~= layer_payload(self.model_info, input_data@, layer_id as int));
        }
        Ok(layer_data)
    }

    /// The payload of one combined layer-and-expert sub-task: expert
    /// header first, then layer header. Checks the layer id, then the
    /// expert id.
    pub fn prepare_layer_expert_data(
        &self,
        input_data: &Vec<u8>,
        layer_id: usize,
        expert_id: usize,
    ) -> (r: Result<Vec<u8>, Error>)
        requires
            fits_header_fields(self.model_info),
        ensures
            layer_id < self.model_info.num_layers && expert_id < self.model_info.num_experts
                ==> (r matches Ok(d) && d@ == layer_expert_payload(
                self.model_info,
                input_data@,
                layer_id as int,
                expert_id as int,
            )),
            layer_id >= self.model_info.num_layers || expert_id >= self.model_info.num_experts
                ==> (r matches Err(e) && e is OutOfRange),
    {
        if layer_id >= self.model_info.num_layers {
            return Err(Error::OutOfRange("layer id is not below the layer count".to_string()));
        }
        if expert_id >= self.model_info.num_experts {
            return Err(Error::OutOfRange("expert id is not below the expert count".to_string()));
        }
        let mut data: Vec<u8> = Vec::new();
        push_u32_le(&mut data, expert_id as u32);
        let gate_info = self.generate_gate_info(expert_id);
        data.extend_from_slice(gate_info.as_slice());
        let layer_config = self.generate_layer_config(layer_id);
        data.extend_from_slice(layer_config.as_slice());
        data.extend_from_slice(input_data.as_slice());
        proof {
            assert(data@ =~= layer_expert_payload(
                self.model_info,
                input_data@,
                layer_id as int,
                expert_id as int,
            ));
        }
        Ok(data)
    }
}

} // verus!
