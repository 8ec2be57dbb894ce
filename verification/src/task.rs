//! Sub-tasks: the unit of split work.

use vstd::prelude::*;

verus! {

/// Life-cycle of one sub-task: `Pending -> Running -> Completed | Failed`.
/// A task is never mutated again after reaching `Completed` or `Failed`.
#[derive(Debug, Clone)]
pub enum TaskStatus {
    /// Waiting to be executed.
    Pending,
    /// Currently executing.
    Running,
    /// Finished; `result` of the task is set.
    Completed,
    /// Terminally failed, with the reason.
    Failed(String),
}

/// Priority of a task. Informational within the core: the queue keeps
/// first-in-first-out order and never reorders by priority.
#[derive(Debug, Clone, Copy, PartialEq, Eq, PartialOrd, Ord, Structural)]
pub enum TaskPriority {
    Low,
    Normal,
    High,
    Critical,
}

/// One sub-task of a split Mixture-of-Experts request.
#[derive(Debug, Clone)]
pub struct MoeTask {
    /// Unique id within one request, derived from the parent id.
    pub task_id: String,
    /// Self-describing input payload (header plus raw input bytes).
    pub input_data: Vec<u8>,
    /// Current life-cycle state.
    pub status: TaskStatus,
    /// Result bytes, set only once the task is `Completed`.
    pub result: Option<Vec<u8>>,
    /// Informational priority.
    pub priority: TaskPriority,
    /// Assigned stream or unit hint, set by the splitter.
    pub stream_id: Option<usize>,
    /// Id of the request this sub-task was split from.
    pub parent_task_id: Option<String>,
}

} // verus!
