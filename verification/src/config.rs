//! Model shape and scheduler configuration.

use vstd::prelude::*;

verus! {

/// Immutable facts about the model shape, supplied by an external loader.
///
/// All four counts must be at least 1; `wf` states that invariant and the
/// splitter and merger require it.
#[derive(Debug, Clone)]
pub struct ModelInfo {
    pub model_type: String,
    pub num_experts: usize,
    pub hidden_size: usize,
    pub intermediate_size: usize,
    pub num_layers: usize,
}

impl ModelInfo {
    /// The positivity invariant of a model descriptor.
    pub open spec fn wf(&self) -> bool {
        &&& self.num_experts >= 1
        &&& self.hidden_size >= 1
        &&& self.intermediate_size >= 1
        &&& self.num_layers >= 1
    }
}

/// Whether two model descriptors carry the same facts.
pub open spec fn same_model(a: ModelInfo, b: ModelInfo) -> bool {
    &&& a.model_type@ == b.model_type@
    &&& a.num_experts == b.num_experts
    &&& a.hidden_size == b.hidden_size
    &&& a.intermediate_size == b.intermediate_size
    &&& a.num_layers == b.num_layers
}

/// Global scheduler configuration: task concurrency, batch size and the
/// available compute units.
#[derive(Debug, Clone)]
pub struct SchedulerConfig {
    /// Most tasks allowed to run at once.
    pub max_concurrent_tasks: usize,
    /// Batch size used when the caller gives none.
    pub default_batch_size: usize,
    /// Device ids of the available compute units.
    pub gpu_ids: Vec<i32>,
}

impl Default for SchedulerConfig {
    /// The default configuration: at most 4 concurrent tasks, batch size 1,
    /// only unit 0.
    fn default() -> (c: Self)
        ensures
            c.max_concurrent_tasks == 4,
            c.default_batch_size == 1,
            c.gpu_ids@ == seq![0i32],
    {
        let mut gpu_ids: Vec<i32> = Vec::new();
        gpu_ids.push(0);
        proof {
            assert(gpu_ids@ =~= seq![0i32]);
        }
        SchedulerConfig { max_concurrent_tasks: 4, default_batch_size: 1, gpu_ids }
    }
}

/// Configuration of one model adapter instance.
#[derive(Debug, Clone)]
pub struct MoeConfig {
    pub model_path: String,
    pub batch_size: usize,
    pub input_dim: usize,
    pub output_dim: usize,
    pub hidden_dim: usize,
    pub num_experts: usize,
    pub top_k: usize,
    pub device_type: String,
    pub device_id: i32,
    pub use_quantization: bool,
    pub quantization_bits: u8,
}

} // verus!
