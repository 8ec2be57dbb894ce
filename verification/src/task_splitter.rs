//! Splitting one Mixture-of-Experts request into sub-tasks, and deriving
//! their execution dependency graph.

use vstd::prelude::*;
use vstd::arithmetic::div_mod::lemma_fundamental_div_mod_converse;
use vstd::string::StringExecFns;
use crate::config::{same_model, ModelInfo};
use crate::data_preparator::{
    expert_payload, fits_header_fields, layer_expert_payload, layer_payload,
    lemma_expert_payload_len, lemma_layer_payload_len, DataPreparator,
};
use crate::error::Error;
use crate::numtext::{append_decimal, task_id_seq};
use crate::result_merger::{byte_views, merge_post, merge_req, ResultMerger};
use crate::task::{MoeTask, TaskPriority, TaskStatus};
use crate::types::GateWeights;

verus! {

/// How one request is decomposed into sub-tasks.
///
/// The ratios of the hybrid strategy select a prefix subset of the
/// experts or layers to actually split over; they are carried in
/// hundredths, so `50` stands for the ratio one half. The count actually
/// used is the ratio times the total, rounded half up.
#[derive(Debug, Clone)]
pub enum SplitStrategy {
    /// One sub-task per expert; fully parallel.
    ByExpert,
    /// One sub-task per layer, in layer order, with residual dependencies.
    ByLayer,
    /// Fixed-size chunks of the input, the last chunk zero-padded.
    ByBatch { batch_size: usize },
    /// Any combination of the axes above; `batch_size` must always be
    /// positive and the ratios must be at most 100 hundredths.
    Hybrid {
        expert_split: bool,
        layer_split: bool,
        batch_size: usize,
        /// Prefix ratio over the experts, in hundredths (0 ..= 100).
        expert_ratio: u32,
        /// Prefix ratio over the layers, in hundredths (0 ..= 100).
        layer_ratio: u32,
    },
}

/// How many of `total` items a prefix ratio of `ratio_pct` hundredths
/// selects: the product rounded to the nearest integer, halves up.
pub open spec fn used_count(total: int, ratio_pct: int) -> int {
    (total * ratio_pct + 50) / 100
}

/// The number of `b`-sized chunks that cover `n` bytes.
pub open spec fn ceil_div(n: int, b: int) -> int {
    n / b + if n % b == 0 {
        0int
    } else {
        1int
    }
}

impl SplitStrategy {
    /// Whether the strategy parameters are valid for model `m`: a batch
    /// size must be positive, and a ratio must be at most one.
    pub open spec fn valid(&self, m: ModelInfo) -> bool {
        match *self {
            SplitStrategy::ByExpert => true,
            SplitStrategy::ByLayer => true,
            SplitStrategy::ByBatch { batch_size } => batch_size >= 1,
            SplitStrategy::Hybrid { batch_size, expert_ratio, layer_ratio, .. } => {
                &&& batch_size >= 1
                &&& expert_ratio <= 100
                &&& layer_ratio <= 100
            },
        }
    }

    /// Checks the strategy parameters; `ConfigError` exactly when they
    /// are invalid for `m`.
    pub fn validate(&self, m: &ModelInfo) -> (r: Result<(), Error>)
        ensures
            r is Ok <==> self.valid(*m),
            r matches Err(e) ==> e is ConfigError,
    {
        match self {
            SplitStrategy::ByExpert => Ok(()),
            SplitStrategy::ByLayer => Ok(()),
            SplitStrategy::ByBatch { batch_size } => {
                if *batch_size == 0 {
                    Err(Error::ConfigError("batch size must be positive".to_string()))
                } else {
                    Ok(())
                }
            },
            SplitStrategy::Hybrid { batch_size, expert_ratio, layer_ratio, .. } => {
                if *batch_size == 0 {
                    Err(Error::ConfigError("batch size must be positive".to_string()))
                } else if *expert_ratio > 100 || *layer_ratio > 100 {
                    Err(Error::ConfigError("a split ratio must lie between 0 and 1".to_string()))
                } else {
                    Ok(())
                }
            },
        }
    }
}

/// Whether the raw input of a split is acceptable: non-empty and at least
/// one vector of hidden width (4 bytes per element).
pub open spec fn input_valid(m: ModelInfo, input: Seq<u8>) -> bool {
    &&& input.len() != 0
    &&& input.len() >= m.hidden_size * 4
}

/// The fields every sub-task of one split shares.
pub open spec fn task_core(t: MoeTask, pri: TaskPriority, parent: Seq<char>) -> bool {
    &&& t.status is Pending
    &&& t.result is None
    &&& t.priority == pri
    &&& (t.parent_task_id matches Some(p) && p@ == parent)
}

/// The `k`-th sub-task of an expert split of `input` under `parent`.
pub open spec fn is_expert_task(
    t: MoeTask,
    m: ModelInfo,
    input: Seq<u8>,
    parent: Seq<char>,
    pri: TaskPriority,
    k: int,
) -> bool {
    &&& t.task_id@ == task_id_seq(parent, "expert"@, k)
    &&& t.input_data@ == expert_payload(m, input, k)
    &&& t.stream_id == Some(k as usize)
    &&& task_core(t, pri, parent)
}

/// The `k`-th sub-task of a layer split of `input` under `parent`.
pub open spec fn is_layer_task(
    t: MoeTask,
    m: ModelInfo,
    input: Seq<u8>,
    parent: Seq<char>,
    pri: TaskPriority,
    k: int,
) -> bool {
    &&& t.task_id@ == task_id_seq(parent, "layer"@, k)
    &&& t.input_data@ == layer_payload(m, input, k)
    &&& t.stream_id == Some(k as usize)
    &&& task_core(t, pri, parent)
}

/// The `k`-th chunk of `source` under a batch size of `b`: exactly `b`
/// bytes, the part beyond the end of `source` filled with zeros.
pub open spec fn batch_chunk(source: Seq<u8>, b: int, k: int) -> Seq<u8> {
    let start = k * b;
    let end = if start + b <= source.len() {
        start + b
    } else {
        source.len() as int
    };
    source.subrange(start, end) + Seq::new((start + b - end) as nat, |i: int| 0u8)
}

/// The `k`-th sub-task of a batch split of `source` under `parent`.
pub open spec fn is_batch_task(
    t: MoeTask,
    source: Seq<u8>,
    parent: Seq<char>,
    pri: TaskPriority,
    b: int,
    k: int,
) -> bool {
    &&& t.task_id@ == task_id_seq(parent, "batch"@, k)
    &&& t.input_data@ == batch_chunk(source, b, k)
    &&& t.stream_id == Some(k as usize)
    &&& task_core(t, pri, parent)
}

/// What an expert split over the first `count` experts produces.
pub open spec fn expert_split_post(
    m: ModelInfo,
    input: Seq<u8>,
    parent: Seq<char>,
    pri: TaskPriority,
    count: int,
    ts: Seq<MoeTask>,
) -> bool {
    &&& ts.len() == count
    &&& forall|k: int| 0 <= k < count ==> is_expert_task(#[trigger] ts[k], m, input, parent, pri, k)
}

/// What a layer split over the first `count` layers produces.
pub open spec fn layer_split_post(
    m: ModelInfo,
    input: Seq<u8>,
    parent: Seq<char>,
    pri: TaskPriority,
    count: int,
    ts: Seq<MoeTask>,
) -> bool {
    &&& ts.len() == count
    &&& forall|k: int| 0 <= k < count ==> is_layer_task(#[trigger] ts[k], m, input, parent, pri, k)
}

/// What a batch split of `source` produces: one task per `b`-sized chunk.
pub open spec fn batch_split_post(
    source: Seq<u8>,
    parent: Seq<char>,
    pri: TaskPriority,
    b: int,
    ts: Seq<MoeTask>,
) -> bool {
    &&& ts.len() == ceil_div(source.len() as int, b)
    &&& forall|k: int|
        0 <= k < ts.len() ==> is_batch_task(#[trigger] ts[k], source, parent, pri, b, k)
}

/// The sub-task at `idx` of a two-axis hybrid split, with `eu` experts
/// used per layer: layer `idx / eu`, expert `idx % eu`.
pub open spec fn is_hybrid_task(
    t: MoeTask,
    m: ModelInfo,
    input: Seq<u8>,
    parent: Seq<char>,
    pri: TaskPriority,
    eu: int,
    idx: int,
) -> bool {
    let l = idx / eu;
    let e = idx % eu;
    &&& t.task_id@ == task_id_seq(task_id_seq(parent, "layer"@, l), "expert"@, e)
    &&& t.input_data@ == layer_expert_payload(m, input, l, e)
    &&& t.stream_id == Some((l * m.num_experts + e) as usize)
    &&& task_core(t, pri, parent)
}

/// What a two-axis hybrid split produces: `lu * eu` sub-tasks indexed by
/// layer (outer) and expert (inner).
pub open spec fn hybrid_two_axis_post(
    m: ModelInfo,
    input: Seq<u8>,
    parent: Seq<char>,
    pri: TaskPriority,
    lu: int,
    eu: int,
    ts: Seq<MoeTask>,
) -> bool {
    &&& ts.len() == lu * eu
    &&& forall|idx: int|
        0 <= idx < ts.len() ==> is_hybrid_task(#[trigger] ts[idx], m, input, parent, pri, eu, idx)
}

/// The sub-task at `idx` of an expert-and-batch hybrid split with `cb`
/// chunks per expert: chunk `idx % cb` of the payload of expert
/// `idx / cb`, filed under the expert task's id.
pub open spec fn is_expert_batch_task(
    t: MoeTask,
    m: ModelInfo,
    input: Seq<u8>,
    parent: Seq<char>,
    pri: TaskPriority,
    cb: int,
    b: int,
    idx: int,
) -> bool {
    let e = idx / cb;
    let j = idx % cb;
    is_batch_task(t, expert_payload(m, input, e), task_id_seq(parent, "expert"@, e), pri, b, j)
}

/// What an expert-and-batch hybrid split produces: each of the `eu` used
/// experts' payloads further subdivided into `b`-sized chunks.
pub open spec fn expert_batch_post(
    m: ModelInfo,
    input: Seq<u8>,
    parent: Seq<char>,
    pri: TaskPriority,
    eu: int,
    b: int,
    ts: Seq<MoeTask>,
) -> bool {
    let cb = ceil_div(4 + 4 * m.num_experts + input.len(), b);
    &&& ts.len() == eu * cb
    &&& forall|idx: int|
        0 <= idx < ts.len() ==> is_expert_batch_task(
            #[trigger] ts[idx],
            m,
            input,
            parent,
            pri,
            cb,
            b,
            idx,
        )
}

/// The sub-task at `idx` of a layer-and-batch hybrid split with `cb`
/// chunks per layer.
pub open spec fn is_layer_batch_task(
    t: MoeTask,
    m: ModelInfo,
    input: Seq<u8>,
    parent: Seq<char>,
    pri: TaskPriority,
    cb: int,
    b: int,
    idx: int,
) -> bool {
    let l = idx / cb;
    let j = idx % cb;
    is_batch_task(t, layer_payload(m, input, l), task_id_seq(parent, "layer"@, l), pri, b, j)
}

/// What a layer-and-batch hybrid split produces: each of the `lu` used
/// layers' payloads further subdivided into `b`-sized chunks.
pub open spec fn layer_batch_post(
    m: ModelInfo,
    input: Seq<u8>,
    parent: Seq<char>,
    pri: TaskPriority,
    lu: int,
    b: int,
    ts: Seq<MoeTask>,
) -> bool {
    let cb = ceil_div(16 + input.len() as int, b);
    &&& ts.len() == lu * cb
    &&& forall|idx: int|
        0 <= idx < ts.len() ==> is_layer_batch_task(
            #[trigger] ts[idx],
            m,
            input,
            parent,
            pri,
            cb,
            b,
            idx,
        )
}

/// What a split produces for each strategy, over the validated input.
pub open spec fn split_post(
    s: SplitStrategy,
    m: ModelInfo,
    input: Seq<u8>,
    parent: Seq<char>,
    pri: TaskPriority,
    ts: Seq<MoeTask>,
) -> bool {
    match s {
        SplitStrategy::ByExpert => expert_split_post(
            m,
            input,
            parent,
            pri,
            m.num_experts as int,
            ts,
        ),
        SplitStrategy::ByLayer => layer_split_post(m, input, parent, pri, m.num_layers as int, ts),
        SplitStrategy::ByBatch { batch_size } => batch_split_post(
            input,
            parent,
            pri,
            batch_size as int,
            ts,
        ),
        SplitStrategy::Hybrid { expert_split, layer_split, batch_size, expert_ratio, layer_ratio } => {
            let eu = used_count(m.num_experts as int, expert_ratio as int);
            let lu = used_count(m.num_layers as int, layer_ratio as int);
            if expert_split && layer_split {
                hybrid_two_axis_post(m, input, parent, pri, lu, eu, ts)
            } else if expert_split {
                expert_batch_post(m, input, parent, pri, eu, batch_size as int, ts)
            } else if layer_split {
                layer_batch_post(m, input, parent, pri, lu, batch_size as int, ts)
            } else {
                batch_split_post(input, parent, pri, batch_size as int, ts)
            }
        },
    }
}

/// Dependency entries that leave every sub-task independent.
pub open spec fn no_deps_post(tasks: Seq<MoeTask>, r: Seq<(String, Vec<String>)>) -> bool {
    &&& r.len() == tasks.len()
    &&& forall|i: int|
        0 <= i < r.len() ==> (#[trigger] r[i]).0@ == tasks[i].task_id@ && r[i].1@.len() == 0
}

/// Layer-order dependencies: sub-task `i` depends on its direct
/// predecessor and, from the third sub-task on, also on the one before
/// that (a residual skip connection).
pub open spec fn layer_deps_post(tasks: Seq<MoeTask>, r: Seq<(String, Vec<String>)>) -> bool {
    &&& r.len() == tasks.len()
    &&& forall|i: int|
        0 <= i < r.len() ==> {
            &&& (#[trigger] r[i]).0@ == tasks[i].task_id@
            &&& (i == 0 ==> r[i].1@.len() == 0)
            &&& (i == 1 ==> r[i].1@.len() == 1 && r[i].1@[0]@ == tasks[0].task_id@)
            &&& (i >= 2 ==> r[i].1@.len() == 2 && r[i].1@[0]@ == tasks[i - 1].task_id@ && r[
                i
            ].1@[1]@ == tasks[i - 2].task_id@)
        }
}

/// Two-axis hybrid dependencies: experts of one layer are independent,
/// and every sub-task of a layer after the first depends on all `eu`
/// sub-tasks of the previous layer (a fan-in barrier).
pub open spec fn hybrid_deps_post(
    tasks: Seq<MoeTask>,
    r: Seq<(String, Vec<String>)>,
    lu: int,
    eu: int,
) -> bool {
    let n = if tasks.len() < lu * eu {
        tasks.len() as int
    } else {
        lu * eu
    };
    &&& r.len() == n
    &&& forall|i: int|
        0 <= i < r.len() ==> {
            let l = i / eu;
            &&& (#[trigger] r[i]).0@ == tasks[i].task_id@
            &&& (l == 0 ==> r[i].1@.len() == 0)
            &&& (l > 0 ==> r[i].1@.len() == eu && forall|pe: int|
                0 <= pe < eu ==> (#[trigger] r[i].1@[pe])@ == tasks[(l - 1) * eu
                    + pe].task_id@)
        }
}

/// The dependency graph for each strategy, recomputable from the
/// strategy and the task list alone.
pub open spec fn deps_post(
    s: SplitStrategy,
    m: ModelInfo,
    tasks: Seq<MoeTask>,
    r: Seq<(String, Vec<String>)>,
) -> bool {
    match s {
        SplitStrategy::ByExpert => no_deps_post(tasks, r),
        SplitStrategy::ByLayer => layer_deps_post(tasks, r),
        SplitStrategy::ByBatch { .. } => no_deps_post(tasks, r),
        SplitStrategy::Hybrid { expert_split, layer_split, expert_ratio, layer_ratio, .. } => {
            if expert_split && layer_split {
                hybrid_deps_post(
                    tasks,
                    r,
                    used_count(m.num_layers as int, layer_ratio as int),
                    used_count(m.num_experts as int, expert_ratio as int),
                )
            } else {
                no_deps_post(tasks, r)
            }
        },
    }
}

/// The splitter: applies a strategy to one request, producing its ordered
/// set of sub-tasks via the data preparator, and computes their
/// dependency graph.
pub struct TaskSplitter {
    pub model_info: ModelInfo,
    pub strategy: SplitStrategy,
    pub data_preparator: DataPreparator,
    pub result_merger: ResultMerger,
}

/// The machine limits the splitter relies on: header fields fit `u32`,
/// and the derived counts fit `usize`.
pub open spec fn split_req(m: ModelInfo, s: SplitStrategy) -> bool {
    &&& fits_header_fields(m)
    &&& 4 * m.hidden_size <= usize::MAX
    &&& (s matches SplitStrategy::Hybrid { .. } ==> {
        &&& m.num_experts * 100 + 50 <= usize::MAX
        &&& m.num_layers * 100 + 50 <= usize::MAX
        &&& m.num_experts * m.num_layers <= usize::MAX
    })
}

impl TaskSplitter {
    pub fn new(model_info: ModelInfo, strategy: SplitStrategy) -> (s: Self)
        ensures
            s.model_info == model_info,
            s.strategy == strategy,
            s.wf(),
    {
        let own_copy = ModelInfo {
            model_type: model_info.model_type.clone(),
            num_experts: model_info.num_experts,
            hidden_size: model_info.hidden_size,
            intermediate_size: model_info.intermediate_size,
            num_layers: model_info.num_layers,
        };
        let merger_copy = ModelInfo {
            model_type: model_info.model_type.clone(),
            num_experts: model_info.num_experts,
            hidden_size: model_info.hidden_size,
            intermediate_size: model_info.intermediate_size,
            num_layers: model_info.num_layers,
        };
        let data_preparator = DataPreparator::new(own_copy);
        let result_merger = ResultMerger::new(merger_copy);
        TaskSplitter { model_info, strategy, data_preparator, result_merger }
    }

    /// The preparator and the merger carry the same model facts as the
    /// splitter.
    pub open spec fn wf(&self) -> bool {
        &&& same_model(self.data_preparator.model_info, self.model_info)
        &&& same_model(self.result_merger.model_info, self.model_info)
    }

    /// The id of one sub-task: `{parent}_{prefix}_{id}`.
    pub fn generate_task_id(&self, parent_id: &str, prefix: &str, id: usize) -> (r: String)
        ensures
            r@ == task_id_seq(parent_id@, prefix@, id as int),
    {
        let mut s = parent_id.to_owned();
        s.append("_");
        s.append(prefix);
        s.append("_");
        append_decimal(&mut s, id);
        proof {
            reveal_strlit("_");
            assert(s@ =~= task_id_seq(parent_id@, prefix@, id as int));
        }
        s
    }

    /// Checks the raw input: `ValidationError` exactly when it is empty
    /// or shorter than one hidden-width vector.
    pub fn validate_input_data(&self, input_data: &Vec<u8>) -> (r: Result<(), Error>)
        requires
            4 * self.model_info.hidden_size <= usize::MAX,
        ensures
            r is Ok <==> input_valid(self.model_info, input_data@),
            r matches Err(e) ==> e is ValidationError,
    {
        if input_data.len() == 0 {
            return Err(Error::ValidationError("input data is empty".to_string()));
        }
        let min_size = self.model_info.hidden_size * 4;
        if input_data.len() < min_size {
            return Err(Error::ValidationError(
                "input data is shorter than one hidden-width vector".to_string(),
            ));
        }
        Ok(())
    }

    /// One sub-task for each of the first `count` experts.
    fn split_by_expert(
        &self,
        input_data: &Vec<u8>,
        parent_task_id: &str,
        priority: TaskPriority,
        count: usize,
    ) -> (r: Result<Vec<MoeTask>, Error>)
        requires
            self.wf(),
            fits_header_fields(self.model_info),
            count <= self.model_info.num_experts,
        ensures
            r matches Ok(ts) && expert_split_post(
                self.model_info,
                input_data@,
                parent_task_id@,
                priority,
                count as int,
                ts@,
            ),
    {
        let mut tasks: Vec<MoeTask> = Vec::new();
        for expert_id in 0..count
            invariant
                self.wf(),
                count <= self.model_info.num_experts,
                fits_header_fields(self.model_info),
                tasks@.len() == expert_id,
                forall|k: int|
                    0 <= k < expert_id ==> is_expert_task(
                        #[trigger] tasks@[k],
                        self.model_info,
                        input_data@,
                        parent_task_id@,
                        priority,
                        k,
                    ),
        {
            let task_id = self.generate_task_id(parent_task_id, "expert", expert_id);
            let expert_data = match self.data_preparator.prepare_expert_data(
                input_data,
                expert_id,
            ) {
                Ok(d) => d,
                Err(e) => {
                    return Err(e);
                },
            };
            proof {
                assert(expert_data@ == expert_payload(
                    self.model_info,
                    input_data@,
                    expert_id as int,
                ));
            }
            let task = MoeTask {
                task_id,
                input_data: expert_data,
                status: TaskStatus::Pending,
                result: None,
                priority,
                stream_id: Some(expert_id),
                parent_task_id: Some(parent_task_id.to_owned()),
            };
            tasks.push(task);
        }
        Ok(tasks)
    }

    /// One sub-task for each of the first `count` layers, in layer order.
    fn split_by_layer(
        &self,
        input_data: &Vec<u8>,
        parent_task_id: &str,
        priority: TaskPriority,
        count: usize,
    ) -> (r: Result<Vec<MoeTask>, Error>)
        requires
            self.wf(),
            fits_header_fields(self.model_info),
            count <= self.model_info.num_layers,
        ensures
            r matches Ok(ts) && layer_split_post(
                self.model_info,
                input_data@,
                parent_task_id@,
                priority,
                count as int,
                ts@,
            ),
    {
        let mut tasks: Vec<MoeTask> = Vec::new();
        for layer_id in 0..count
            invariant
                self.wf(),
                count <= self.model_info.num_layers,
                fits_header_fields(self.model_info),
                tasks@.len() == layer_id,
                forall|k: int|
                    0 <= k < layer_id ==> is_layer_task(
                        #[trigger] tasks@[k],
                        self.model_info,
                        input_data@,
                        parent_task_id@,
                        priority,
                        k,
                    ),
        {
            let task_id = self.generate_task_id(parent_task_id, "layer", layer_id);
            let layer_data = match self.data_preparator.prepare_layer_data(input_data, layer_id) {
                Ok(d) => d,
                Err(e) => {
                    return Err(e);
                },
            };
            proof {
                assert(layer_data@ == layer_payload(
                    self.model_info,
                    input_data@,
                    layer_id as int,
                ));
            }
            let task = MoeTask {
                task_id,
                input_data: layer_data,
                status: TaskStatus::Pending,
                result: None,
                priority,
                stream_id: Some(layer_id),
                parent_task_id: Some(parent_task_id.to_owned()),
            };
            tasks.push(task);
        }
        Ok(tasks)
    }

    /// One sub-task per `batch_size`-sized chunk of `source`, the last
    /// chunk zero-padded to exactly `batch_size` bytes.
    fn split_by_batch(
        &self,
        source: &Vec<u8>,
        parent_task_id: &str,
        priority: TaskPriority,
        batch_size: usize,
    ) -> (r: Result<Vec<MoeTask>, Error>)
        requires
            batch_size >= 1,
        ensures
            r matches Ok(ts) && batch_split_post(
                source@,
                parent_task_id@,
                priority,
                batch_size as int,
                ts@,
            ),
    {
        let total_size = source.len();
        proof {
            if total_size as int % batch_size as int != 0 {
                lemma_div_plus_one_fits(total_size as int, batch_size as int);
            }
        }
        let num_batches = total_size / batch_size + if total_size % batch_size != 0 {
            1
        } else {
            0
        };
        let mut tasks: Vec<MoeTask> = Vec::new();
        for batch_id in 0..num_batches
            invariant
                batch_size >= 1,
                total_size == source@.len(),
                num_batches == ceil_div(total_size as int, batch_size as int),
                tasks@.len() == batch_id,
                forall|k: int|
                    0 <= k < batch_id ==> is_batch_task(
                        #[trigger] tasks@[k],
                        source@,
                        parent_task_id@,
                        priority,
                        batch_size as int,
                        k,
                    ),
        {
            let task_id = self.generate_task_id(parent_task_id, "batch", batch_id);
            proof {
                lemma_mul_le_ceil(total_size as int, batch_size as int, batch_id as int);
            }
            let start = batch_id * batch_size;
            let end = if total_size - start < batch_size {
                total_size
            } else {
                start + batch_size
            };
            let mut batch_data: Vec<u8> = Vec::new();
            for i in start..end
                invariant
                    start <= i <= end <= total_size == source@.len(),
                    batch_data@ == source@.subrange(start as int, i as int),
            {
                batch_data.push(source[i]);
                proof {
                    assert(batch_data@ =~= source@.subrange(start as int, i + 1));
                }
            }
            while batch_data.len() < batch_size
                invariant
                    start <= end <= total_size == source@.len(),
                    end - start <= batch_size,
                    batch_data@.len() >= end - start,
                    batch_data@.len() <= batch_size,
                    batch_data@.subrange(0, (end - start) as int) == source@.subrange(
                        start as int,
                        end as int,
                    ),
                    forall|j: int| end - start <= j < batch_data@.len() ==> batch_data@[j] == 0u8,
                decreases batch_size - batch_data@.len(),
            {
                batch_data.push(0u8);
                proof {
                    assert(batch_data@.subrange(0, (end - start) as int) =~= source@.subrange(
                        start as int,
                        end as int,
                    ));
                }
            }
            proof {
                assert(batch_data@ =~= batch_chunk(
                    source@,
                    batch_size as int,
                    batch_id as int,
                ));
            }
            let task = MoeTask {
                task_id,
                input_data: batch_data,
                status: TaskStatus::Pending,
                result: None,
                priority,
                stream_id: Some(batch_id),
                parent_task_id: Some(parent_task_id.to_owned()),
            };
            tasks.push(task);
        }
        Ok(tasks)
    }

    /// One sub-task per (layer, expert) pair over the used prefixes of
    /// both axes: layer outer, expert inner.
    fn split_hybrid_two_axis(
        &self,
        input_data: &Vec<u8>,
        parent_task_id: &str,
        priority: TaskPriority,
        expert_ratio: u32,
        layer_ratio: u32,
    ) -> (r: Result<Vec<MoeTask>, Error>)
        requires
            self.wf(),
            fits_header_fields(self.model_info),
            expert_ratio <= 100,
            layer_ratio <= 100,
            self.model_info.num_experts * 100 + 50 <= usize::MAX,
            self.model_info.num_layers * 100 + 50 <= usize::MAX,
            self.model_info.num_experts * self.model_info.num_layers <= usize::MAX,
        ensures
            r matches Ok(ts) && hybrid_two_axis_post(
                self.model_info,
                input_data@,
                parent_task_id@,
                priority,
                used_count(self.model_info.num_layers as int, layer_ratio as int),
                used_count(self.model_info.num_experts as int, expert_ratio as int),
                ts@,
            ),
    {
        let num_experts = self.model_info.num_experts;
        let num_layers = self.model_info.num_layers;
        let eu = compute_used(num_experts, expert_ratio);
        let lu = compute_used(num_layers, layer_ratio);
        let mut tasks: Vec<MoeTask> = Vec::new();
        proof {
            assert(0int * eu == 0) by (nonlinear_arith);
        }
        for layer_id in 0..lu
            invariant
                self.wf(),
                fits_header_fields(self.model_info),
                num_experts == self.model_info.num_experts,
                num_layers == self.model_info.num_layers,
                eu == used_count(num_experts as int, expert_ratio as int),
                lu == used_count(num_layers as int, layer_ratio as int),
                eu <= num_experts,
                lu <= num_layers,
                num_experts * num_layers <= usize::MAX,
                tasks@.len() == layer_id * eu,
                forall|idx: int|
                    0 <= idx < tasks@.len() ==> is_hybrid_task(
                        #[trigger] tasks@[idx],
                        self.model_info,
                        input_data@,
                        parent_task_id@,
                        priority,
                        eu as int,
                        idx,
                    ),
        {
            for expert_id in 0..eu
                invariant
                    self.wf(),
                    fits_header_fields(self.model_info),
                    num_experts == self.model_info.num_experts,
                    num_layers == self.model_info.num_layers,
                    eu == used_count(num_experts as int, expert_ratio as int),
                    lu == used_count(num_layers as int, layer_ratio as int),
                    eu <= num_experts,
                    lu <= num_layers,
                    layer_id < lu,
                    num_experts * num_layers <= usize::MAX,
                    tasks@.len() == layer_id * eu + expert_id,
                    forall|idx: int|
                        0 <= idx < tasks@.len() ==> is_hybrid_task(
                            #[trigger] tasks@[idx],
                            self.model_info,
                            input_data@,
                            parent_task_id@,
                            priority,
                            eu as int,
                            idx,
                        ),
            {
                let layer_prefix = self.generate_task_id(parent_task_id, "layer", layer_id);
                let task_id = self.generate_task_id(layer_prefix.as_str(), "expert", expert_id);
                let data = match self.data_preparator.prepare_layer_expert_data(
                    input_data,
                    layer_id,
                    expert_id,
                ) {
                    Ok(d) => d,
                    Err(e) => {
                        return Err(e);
                    },
                };
                proof {
                    assert(data@ == layer_expert_payload(
                        self.model_info,
                        input_data@,
                        layer_id as int,
                        expert_id as int,
                    ));
                    lemma_mul_step_below(layer_id as int, num_layers as int, num_experts as int);
                    assert(num_layers * num_experts == num_experts * num_layers) by (nonlinear_arith);
                }
                let stream = layer_id * num_experts + expert_id;
                let task = MoeTask {
                    task_id,
                    input_data: data,
                    status: TaskStatus::Pending,
                    result: None,
                    priority,
                    stream_id: Some(stream),
                    parent_task_id: Some(parent_task_id.to_owned()),
                };
                tasks.push(task);
                proof {
                    let idx = layer_id as int * eu as int + expert_id as int;
                    lemma_fundamental_div_mod_converse(
                        idx,
                        eu as int,
                        layer_id as int,
                        expert_id as int,
                    );
                    assert(is_hybrid_task(
                        tasks@[idx],
                        self.model_info,
                        input_data@,
                        parent_task_id@,
                        priority,
                        eu as int,
                        idx,
                    ));
                }
            }
            proof {
                assert((layer_id + 1) * eu == layer_id * eu + eu) by (nonlinear_arith);
            }
        }
        Ok(tasks)
    }

    /// The used-prefix expert split, each expert payload further
    /// subdivided into `batch_size`-sized chunks under the expert task's
    /// id.
    fn split_expert_batch(
        &self,
        input_data: &Vec<u8>,
        parent_task_id: &str,
        priority: TaskPriority,
        eu: usize,
        batch_size: usize,
    ) -> (r: Result<Vec<MoeTask>, Error>)
        requires
            self.wf(),
            fits_header_fields(self.model_info),
            eu <= self.model_info.num_experts,
            batch_size >= 1,
        ensures
            r matches Ok(ts) && expert_batch_post(
                self.model_info,
                input_data@,
                parent_task_id@,
                priority,
                eu as int,
                batch_size as int,
                ts@,
            ),
    {
        let expert_tasks = match self.split_by_expert(input_data, parent_task_id, priority, eu) {
            Ok(t) => t,
            Err(e) => {
                return Err(e);
            },
        };
        let ghost cb = ceil_div(
            4 + 4 * self.model_info.num_experts + input_data@.len(),
            batch_size as int,
        );
        proof {
            lemma_ceil_div_pos(4 + 4 * self.model_info.num_experts + input_data@.len(), batch_size as int);
        }
        let mut tasks: Vec<MoeTask> = Vec::new();
        proof {
            assert(0int * cb == 0) by (nonlinear_arith);
        }
        let n = expert_tasks.len();
        for i in 0..n
            invariant
                self.wf(),
                fits_header_fields(self.model_info),
                batch_size >= 1,
                n == expert_tasks@.len(),
                n == eu <= self.model_info.num_experts,
                expert_split_post(
                    self.model_info,
                    input_data@,
                    parent_task_id@,
                    priority,
                    eu as int,
                    expert_tasks@,
                ),
                cb == ceil_div(
                    4 + 4 * self.model_info.num_experts + input_data@.len(),
                    batch_size as int,
                ),
                cb >= 1,
                tasks@.len() == i * cb,
                forall|idx: int|
                    0 <= idx < tasks@.len() ==> is_expert_batch_task(
                        #[trigger] tasks@[idx],
                        self.model_info,
                        input_data@,
                        parent_task_id@,
                        priority,
                        cb,
                        batch_size as int,
                        idx,
                    ),
        {
            let et = &expert_tasks[i];
            proof {
                lemma_expert_payload_len(self.model_info, input_data@, i as int);
            }
            let mut batch_tasks = match self.split_by_batch(
                &et.input_data,
                et.task_id.as_str(),
                priority,
                batch_size,
            ) {
                Ok(t) => t,
                Err(e) => {
                    return Err(e);
                },
            };
            proof {
                assert(batch_tasks@.len() == cb);
            }
            tasks.append(&mut batch_tasks);
            proof {
                assert((i + 1) * cb == i * cb + cb) by (nonlinear_arith);
                assert forall|idx: int| 0 <= idx < tasks@.len() implies is_expert_batch_task(
                    #[trigger] tasks@[idx],
                    self.model_info,
                    input_data@,
                    parent_task_id@,
                    priority,
                    cb,
                    batch_size as int,
                    idx,
                ) by {
                    if idx >= i * cb {
                        let j = idx - i * cb;
                        lemma_fundamental_div_mod_converse(idx, cb, i as int, j);
                    }
                }
            }
        }
        proof {
            assert(tasks@.len() == eu * cb);
        }
        Ok(tasks)
    }

    /// The used-prefix layer split, each layer payload further subdivided
    /// into `batch_size`-sized chunks under the layer task's id.
    fn split_layer_batch(
        &self,
        input_data: &Vec<u8>,
        parent_task_id: &str,
        priority: TaskPriority,
        lu: usize,
        batch_size: usize,
    ) -> (r: Result<Vec<MoeTask>, Error>)
        requires
            self.wf(),
            fits_header_fields(self.model_info),
            lu <= self.model_info.num_layers,
            batch_size >= 1,
        ensures
            r matches Ok(ts) && layer_batch_post(
                self.model_info,
                input_data@,
                parent_task_id@,
                priority,
                lu as int,
                batch_size as int,
                ts@,
            ),
    {
        let layer_tasks = match self.split_by_layer(input_data, parent_task_id, priority, lu) {
            Ok(t) => t,
            Err(e) => {
                return Err(e);
            },
        };
        let ghost cb = ceil_div(16 + input_data@.len() as int, batch_size as int);
        proof {
            lemma_ceil_div_pos(16 + input_data@.len() as int, batch_size as int);
        }
        let mut tasks: Vec<MoeTask> = Vec::new();
        proof {
            assert(0int * cb == 0) by (nonlinear_arith);
        }
        let n = layer_tasks.len();
        for i in 0..n
            invariant
                self.wf(),
                fits_header_fields(self.model_info),
                batch_size >= 1,
                n == layer_tasks@.len(),
                n == lu <= self.model_info.num_layers,
                layer_split_post(
                    self.model_info,
                    input_data@,
                    parent_task_id@,
                    priority,
                    lu as int,
                    layer_tasks@,
                ),
                cb == ceil_div(16 + input_data@.len() as int, batch_size as int),
                cb >= 1,
                tasks@.len() == i * cb,
                forall|idx: int|
                    0 <= idx < tasks@.len() ==> is_layer_batch_task(
                        #[trigger] tasks@[idx],
                        self.model_info,
                        input_data@,
                        parent_task_id@,
                        priority,
                        cb,
                        batch_size as int,
                        idx,
                    ),
        {
            let lt = &layer_tasks[i];
            proof {
                lemma_layer_payload_len(self.model_info, input_data@, i as int);
            }
            let mut batch_tasks = match self.split_by_batch(
                &lt.input_data,
                lt.task_id.as_str(),
                priority,
                batch_size,
            ) {
                Ok(t) => t,
                Err(e) => {
                    return Err(e);
                },
            };
            proof {
                assert(batch_tasks@.len() == cb);
            }
            tasks.append(&mut batch_tasks);
            proof {
                assert((i + 1) * cb == i * cb + cb) by (nonlinear_arith);
                assert forall|idx: int| 0 <= idx < tasks@.len() implies is_layer_batch_task(
                    #[trigger] tasks@[idx],
                    self.model_info,
                    input_data@,
                    parent_task_id@,
                    priority,
                    cb,
                    batch_size as int,
                    idx,
                ) by {
                    if idx >= i * cb {
                        let j = idx - i * cb;
                        lemma_fundamental_div_mod_converse(idx, cb, i as int, j);
                    }
                }
            }
        }
        proof {
            assert(tasks@.len() == lu * cb);
        }
        Ok(tasks)
    }

    /// Entries with no dependencies, one per sub-task.
    fn no_deps(&self, tasks: &Vec<MoeTask>) -> (r: Vec<(String, Vec<String>)>)
        ensures
            no_deps_post(tasks@, r@),
    {
        let mut deps: Vec<(String, Vec<String>)> = Vec::new();
        let n = tasks.len();
        for i in 0..n
            invariant
                n == tasks@.len(),
                deps@.len() == i,
                forall|k: int|
                    0 <= k < i ==> (#[trigger] deps@[k]).0@ == tasks@[k].task_id@ && deps@[
                        k
                    ].1@.len() == 0,
        {
            let empty: Vec<String> = Vec::new();
            deps.push((tasks[i].task_id.clone(), empty));
        }
        deps
    }

    /// Dependencies of a two-axis hybrid split: every sub-task of a layer
    /// after the first depends on all sub-tasks of the previous layer.
    fn hybrid_deps(&self, tasks: &Vec<MoeTask>, lu: usize, eu: usize) -> (r: Vec<(
        String,
        Vec<String>,
    )>)
        requires
            lu * eu <= usize::MAX,
        ensures
            hybrid_deps_post(tasks@, r@, lu as int, eu as int),
    {
        proof {
            assert(0int * eu == 0 && lu * eu >= 0) by (nonlinear_arith);
        }
        let total = lu * eu;
        let n = if tasks.len() < total {
            tasks.len()
        } else {
            total
        };
        let mut deps: Vec<(String, Vec<String>)> = Vec::new();
        for i in 0..n
            invariant
                n <= tasks@.len(),
                n <= lu * eu,
                n == (if tasks@.len() < lu * eu {
                    tasks@.len() as int
                } else {
                    lu * eu
                }),
                deps@.len() == i,
                forall|k: int|
                    0 <= k < i ==> {
                        let l = k / (eu as int);
                        &&& (#[trigger] deps@[k]).0@ == tasks@[k].task_id@
                        &&& (l == 0 ==> deps@[k].1@.len() == 0)
                        &&& (l > 0 ==> deps@[k].1@.len() == eu && forall|pe: int|
                            0 <= pe < eu ==> (#[trigger] deps@[k].1@[pe])@ == tasks@[(l - 1) * (
                            eu as int) + pe].task_id@)
                    },
        {
            proof {
                assert(eu * ((i as int) / (eu as int)) <= i) by (nonlinear_arith)
                    requires eu > 0 && i >= 0,
                ;
            }
            let l = i / eu;
            let mut d: Vec<String> = Vec::new();
            if l > 0 {
                proof {
                    vstd::arithmetic::div_mod::lemma_fundamental_div_mod(i as int, eu as int);
                    assert((l - 1) * (eu as int) + eu == l * (eu as int) && l * (eu as int) == (
                    eu as int) * (l as int)) by (nonlinear_arith);
                }
                for pe in 0..eu
                    invariant
                        eu > 0,
                        l == i as int / eu as int,
                        l >= 1,
                        (l - 1) * (eu as int) + eu <= i < n <= tasks@.len(),
                        d@.len() == pe,
                        forall|q: int|
                            0 <= q < pe ==> (#[trigger] d@[q])@ == tasks@[(l - 1) * (eu as int)
                                + q].task_id@,
                {
                    proof {
                        assert((l - 1) * (eu as int) + pe < (l - 1) * (eu as int) + eu);
                    }
                    let prev = (l - 1) * eu + pe;
                    d.push(tasks[prev].task_id.clone());
                }
            }
            deps.push((tasks[i].task_id.clone(), d));
        }
        deps
    }

    /// The dependency graph of a task list: a pure function of the
    /// strategy and the tasks, recomputable independently of `split_task`.
    /// Expert and batch sub-tasks are independent; layer sub-task `i`
    /// depends on sub-tasks `i - 1` and `i - 2` when they exist; in a
    /// two-axis hybrid every sub-task of a layer after the first depends
    /// on all sub-tasks of the previous layer.
    pub fn get_task_dependencies(&self, tasks: &Vec<MoeTask>) -> (r: Result<
        Vec<(String, Vec<String>)>,
        Error,
    >)
        requires
            self.strategy.valid(self.model_info),
            split_req(self.model_info, self.strategy),
        ensures
            r matches Ok(d) && deps_post(self.strategy, self.model_info, tasks@, d@),
    {
        match &self.strategy {
            SplitStrategy::ByExpert => Ok(self.no_deps(tasks)),
            SplitStrategy::ByBatch { .. } => Ok(self.no_deps(tasks)),
            SplitStrategy::ByLayer => {
                let mut deps: Vec<(String, Vec<String>)> = Vec::new();
                let n = tasks.len();
                for i in 0..n
                    invariant
                        n == tasks@.len(),
                        deps@.len() == i,
                        forall|k: int|
                            0 <= k < i ==> {
                                &&& (#[trigger] deps@[k]).0@ == tasks@[k].task_id@
                                &&& (k == 0 ==> deps@[k].1@.len() == 0)
                                &&& (k == 1 ==> deps@[k].1@.len() == 1 && deps@[k].1@[0]@
                                    == tasks@[0].task_id@)
                                &&& (k >= 2 ==> deps@[k].1@.len() == 2 && deps@[k].1@[0]@
                                    == tasks@[k - 1].task_id@ && deps@[k].1@[1]@ == tasks@[k
                                    - 2].task_id@)
                            },
                {
                    let mut d: Vec<String> = Vec::new();
                    if i > 0 {
                        d.push(tasks[i - 1].task_id.clone());
                    }
                    if i >= 2 {
                        d.push(tasks[i - 2].task_id.clone());
                    }
                    deps.push((tasks[i].task_id.clone(), d));
                }
                Ok(deps)
            },
            SplitStrategy::Hybrid {
                expert_split,
                layer_split,
                expert_ratio,
                layer_ratio,
                ..
            } => {
                if *expert_split && *layer_split {
                    let eu = compute_used(self.model_info.num_experts, *expert_ratio);
                    let lu = compute_used(self.model_info.num_layers, *layer_ratio);
                    proof {
                        assert(lu * eu <= self.model_info.num_layers
                            * self.model_info.num_experts) by (nonlinear_arith)
                            requires
                                0 <= lu <= self.model_info.num_layers,
                                0 <= eu <= self.model_info.num_experts,
                        ;
                        assert(self.model_info.num_layers * self.model_info.num_experts
                            == self.model_info.num_experts * self.model_info.num_layers)
                            by (nonlinear_arith);
                    }
                    Ok(self.hybrid_deps(tasks, lu, eu))
                } else {
                    Ok(self.no_deps(tasks))
                }
            },
        }
    }

    /// Splits one request into sub-tasks.
    ///
    /// The input must be non-empty and at least one hidden-width vector,
    /// else `ValidationError`; the strategy parameters must be valid,
    /// else `ConfigError`, surfaced before any task is created. On
    /// success the sub-tasks are exactly what `split_post` states for the
    /// strategy; in particular `ByExpert` yields exactly `num_experts`
    /// sub-tasks whose payloads are each `4 + 4 * num_experts` header
    /// bytes plus the input, and `ByLayer` yields exactly `num_layers`
    /// sub-tasks in layer order.
    pub fn split_task(&self, input_data: &Vec<u8>, task_id: &str, priority: TaskPriority) -> (r:
        Result<Vec<MoeTask>, Error>)
        requires
            self.wf(),
            split_req(self.model_info, self.strategy),
        ensures
            !input_valid(self.model_info, input_data@) ==> (r matches Err(e)
                && e is ValidationError),
            input_valid(self.model_info, input_data@) && !self.strategy.valid(self.model_info)
                ==> (r matches Err(e) && e is ConfigError),
            input_valid(self.model_info, input_data@) && self.strategy.valid(self.model_info)
                ==> (r matches Ok(ts) && split_post(
                self.strategy,
                self.model_info,
                input_data@,
                task_id@,
                priority,
                ts@,
            )),
            input_valid(self.model_info, input_data@) && self.strategy is ByExpert ==> (r matches Ok(
                ts,
            ) && ts@.len() == self.model_info.num_experts && forall|k: int|
                0 <= k < ts@.len() ==> (#[trigger] ts@[k]).input_data@.len() == 4 + 4
                    * self.model_info.num_experts + input_data@.len()),
            input_valid(self.model_info, input_data@) && self.strategy is ByLayer ==> (r matches Ok(
                ts,
            ) && ts@.len() == self.model_info.num_layers),
    {
        if let Err(e) = self.validate_input_data(input_data) {
            return Err(e);
        }
        if let Err(e) = self.strategy.validate(&self.model_info) {
            return Err(e);
        }
        let result = match &self.strategy {
            SplitStrategy::ByExpert => self.split_by_expert(
                input_data,
                task_id,
                priority,
                self.model_info.num_experts,
            ),
            SplitStrategy::ByLayer => self.split_by_layer(
                input_data,
                task_id,
                priority,
                self.model_info.num_layers,
            ),
            SplitStrategy::ByBatch { batch_size } => self.split_by_batch(
                input_data,
                task_id,
                priority,
                *batch_size,
            ),
            SplitStrategy::Hybrid {
                expert_split,
                layer_split,
                batch_size,
                expert_ratio,
                layer_ratio,
            } => {
                if *expert_split && *layer_split {
                    self.split_hybrid_two_axis(
                        input_data,
                        task_id,
                        priority,
                        *expert_ratio,
                        *layer_ratio,
                    )
                } else if *expert_split {
                    let eu = compute_used(self.model_info.num_experts, *expert_ratio);
                    self.split_expert_batch(input_data, task_id, priority, eu, *batch_size)
                } else if *layer_split {
                    let lu = compute_used(self.model_info.num_layers, *layer_ratio);
                    self.split_layer_batch(input_data, task_id, priority, lu, *batch_size)
                } else {
                    self.split_by_batch(input_data, task_id, priority, *batch_size)
                }
            },
        };
        proof {
            if self.strategy is ByExpert {
                if let Ok(ts) = &result {
                    assert forall|k: int| 0 <= k < ts@.len() implies (#[trigger] ts@[k]).input_data@.len()
                        == 4 + 4 * self.model_info.num_experts + input_data@.len() by {
                        lemma_expert_payload_len(self.model_info, input_data@, k);
                    }
                }
            }
        }
        result
    }

    /// Merges the partial results of this splitter's request under its
    /// own strategy and model (see `ResultMerger::merge_results`).
    pub fn merge_results(&self, results: &Vec<Vec<u8>>, gate_weights: Option<GateWeights>) -> (r:
        Result<Vec<u8>, Error>)
        requires
            self.wf(),
            merge_req(self.model_info, self.strategy),
            self.strategy.valid(self.model_info),
        ensures
            results@.len() == 0 ==> (r matches Err(e) && e is MergeError),
            results@.len() >= 1 ==> merge_post(
                self.model_info,
                byte_views(results@),
                gate_weights,
                self.strategy,
                r,
            ),
    {
        let r = self.result_merger.merge_results(results, gate_weights, &self.strategy);
        proof {
            if results@.len() >= 1 {
                assert(merge_post(
                    self.model_info,
                    byte_views(results@),
                    gate_weights,
                    self.strategy,
                    r,
                ));
            }
        }
        r
    }
}

/// How many items a used-prefix ratio selects is between 0 and the total.
proof fn lemma_used_count_le(t: int, p: int)
    by (nonlinear_arith)
    requires
        t >= 0,
        0 <= p <= 100,
    ensures
        t * p <= t * 100,
        0 <= (t * p + 50) / 100 <= t,
{
}

/// A positive byte count has at least one chunk.
proof fn lemma_ceil_div_pos(n: int, b: int)
    by (nonlinear_arith)
    requires
        n >= 1,
        b >= 1,
    ensures
        ceil_div(n, b) >= 1,
{
}

/// Stepping one row of a `rows x cols` grid stays within the grid.
proof fn lemma_mul_step_below(r: int, rows: int, cols: int)
    by (nonlinear_arith)
    requires
        0 <= r < rows,
        cols >= 0,
    ensures
        r * cols + cols <= rows * cols,
{
}

/// The count of items a prefix ratio in hundredths selects.
pub fn compute_used(total: usize, ratio_pct: u32) -> (r: usize)
    requires
        total * 100 + 50 <= usize::MAX,
        ratio_pct <= 100,
    ensures
        r == used_count(total as int, ratio_pct as int),
        r <= total,
{
    proof {
        lemma_used_count_le(total as int, ratio_pct as int);
    }
    (total * (ratio_pct as usize) + 50) / 100
}

/// When `n` is not a multiple of `b`, the chunk count `n / b + 1` is at
/// most `n` (and so fits `usize`).
proof fn lemma_div_plus_one_fits(n: int, b: int)
    by (nonlinear_arith)
    requires
        b >= 1,
        n >= 0,
        n % b != 0,
    ensures
        n / b + 1 <= n,
{
}

/// For `k` below the chunk count of `n` bytes under chunk size `b`, the
/// `k`-th chunk starts before the end: `k * b < n` (and so fits `usize`).
proof fn lemma_mul_le_ceil(n: int, b: int, k: int)
    by (nonlinear_arith)
    requires
        b >= 1,
        n >= 0,
        0 <= k < ceil_div(n, b),
    ensures
        k * b < n,
{
}

} // verus!
