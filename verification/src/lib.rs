//! Fan-out/fan-in execution of Mixture-of-Experts inference requests.
//!
//! One large request is split into independently dispatchable sub-tasks
//! (per expert, per layer, per batch chunk, or a hybrid of those), the
//! sub-tasks are executed against a pool of compute units under a bounded
//! memory budget, and the partial outputs are recombined into one result.

pub mod bytes;
pub mod config;
pub mod data_preparator;
pub mod error;
pub mod float_bits;
pub mod json;
pub mod model_downloader;
pub mod numtext;
pub mod result_merger;
pub mod scheduler;
pub mod task;
pub mod task_executor;
pub mod task_splitter;
pub mod types;
