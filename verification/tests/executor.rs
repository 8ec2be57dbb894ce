use std::cell::Cell;
use std::time::Instant;

use moe_scheduler::error::Error;
use moe_scheduler::task::{MoeTask, TaskPriority, TaskStatus};
use moe_scheduler::task_executor::{ExecPolicy, MoeAdapter, TaskExecutor};

struct EchoAdapter;

impl MoeAdapter for EchoAdapter {
    fn load_model(&mut self, _model_path: &str) -> Result<(), Error> {
        Ok(())
    }

    fn compute(&self, input_data: &[u8]) -> Result<Vec<u8>, Error> {
        Ok(input_data.to_vec())
    }

    fn release_model(&mut self) -> Result<(), Error> {
        Ok(())
    }

    fn get_model_id(&self) -> Option<&str> {
        Some("echo")
    }
}

struct FailingAdapter {
    calls: Cell<u32>,
}

impl MoeAdapter for FailingAdapter {
    fn load_model(&mut self, _model_path: &str) -> Result<(), Error> {
        Ok(())
    }

    fn compute(&self, _input_data: &[u8]) -> Result<Vec<u8>, Error> {
        self.calls.set(self.calls.get() + 1);
        Err(Error::ExecutionFailure("device fault".to_string()))
    }

    fn release_model(&mut self) -> Result<(), Error> {
        Ok(())
    }

    fn get_model_id(&self) -> Option<&str> {
        None
    }
}

fn pending_task(id: &str, input: Vec<u8>) -> MoeTask {
    MoeTask {
        task_id: id.to_string(),
        input_data: input,
        status: TaskStatus::Pending,
        result: None,
        priority: TaskPriority::Normal,
        stream_id: Some(0),
        parent_task_id: Some("parent".to_string()),
    }
}

#[test]
fn test_task_executor() {
    let mut executor = TaskExecutor::new(1024 * 1024, vec![0], ExecPolicy::default());

    let mut task = pending_task("test_expert_1", vec![1, 2, 3, 4]);

    let result = executor.execute_task(&mut task, &EchoAdapter);
    assert!(result.is_ok());
    assert!(matches!(task.status, TaskStatus::Completed));
    assert!(task.result.is_some());
}

#[test]
fn execute_returns_the_compute_output() {
    let mut executor = TaskExecutor::new(1024, vec![0], ExecPolicy::default());
    let mut task = pending_task("t", vec![10, 20, 30, 40]);
    let out = executor.execute_task(&mut task, &EchoAdapter).unwrap();
    assert_eq!(out, vec![10, 20, 30, 40]);
    assert_eq!(task.result, Some(out));
}

#[test]
fn always_failing_compute_fails_after_exactly_max_retries() {
    let policy = ExecPolicy { max_retries: 3, base_delay_ms: 1, timeout_ms: 30000 };
    let mut executor = TaskExecutor::new(1024, vec![0], policy);
    let adapter = FailingAdapter { calls: Cell::new(0) };
    let mut task = pending_task("t", vec![1, 2, 3, 4]);
    let started = Instant::now();
    let r = executor.execute_task(&mut task, &adapter);
    assert!(matches!(r, Err(Error::ExecutionFailure(_))));
    assert_eq!(adapter.calls.get(), 3);
    assert!(matches!(task.status, TaskStatus::Failed(_)));
    // Backoff is cooperative, so the whole run stays well inside the
    // timeout budget plus slack.
    assert!(started.elapsed().as_millis() < 30000 + 5000);
}

#[test]
fn spent_time_budget_fails_with_timeout() {
    // The first backoff (100 ms) already exceeds a zero budget.
    let policy = ExecPolicy { max_retries: 3, base_delay_ms: 100, timeout_ms: 0 };
    let mut executor = TaskExecutor::new(1024, vec![0], policy);
    let adapter = FailingAdapter { calls: Cell::new(0) };
    let mut task = pending_task("t", vec![1, 2, 3, 4]);
    let r = executor.execute_task(&mut task, &adapter);
    assert!(matches!(r, Err(Error::Timeout)));
    assert_eq!(adapter.calls.get(), 1);
    assert!(matches!(task.status, TaskStatus::Failed(_)));
}

#[test]
fn oversized_payload_exhausts_the_pool() {
    let mut executor = TaskExecutor::new(8, vec![0], ExecPolicy::default());
    let mut task = pending_task("t", vec![0u8; 64]);
    let r = executor.execute_task(&mut task, &EchoAdapter);
    assert!(matches!(r, Err(Error::ResourceExhausted(_))));
    assert!(matches!(task.status, TaskStatus::Failed(_)));
    // The pool is left exactly as it was, and the failed task keeps the
    // result it had.
    assert_eq!(executor.get_memory_status(), (0, 8));
    assert!(task.result.is_none());
}

#[test]
fn buffers_are_reused_between_tasks() {
    let mut executor = TaskExecutor::new(100, vec![0], ExecPolicy::default());
    let mut t1 = pending_task("a", vec![1u8; 40]);
    executor.execute_task(&mut t1, &EchoAdapter).unwrap();
    let (allocated, capacity) = executor.get_memory_status();
    assert_eq!((allocated, capacity), (40, 100));
    // The same payload size reuses the returned buffer: no growth.
    let mut t2 = pending_task("b", vec![2u8; 40]);
    executor.execute_task(&mut t2, &EchoAdapter).unwrap();
    assert_eq!(executor.get_memory_status().0, 40);
}

#[test]
fn unit_loads_are_restored_after_execution() {
    let mut executor = TaskExecutor::new(1024, vec![3, 7], ExecPolicy::default());
    let mut task = pending_task("t", vec![1, 2, 3, 4]);
    executor.execute_task(&mut task, &EchoAdapter).unwrap();
    for (_, load) in executor.get_load_status() {
        assert_eq!(load, 0);
    }
}

#[test]
fn execute_tasks_stops_at_the_first_failure() {
    let mut executor = TaskExecutor::new(1024, vec![0], ExecPolicy::default());
    let mut tasks = vec![
        pending_task("a", vec![1, 2, 3, 4]),
        pending_task("b", vec![5, 6, 7, 8]),
    ];
    let outs = executor.execute_tasks(&mut tasks, &EchoAdapter).unwrap();
    assert_eq!(outs.len(), 2);
    assert!(tasks.iter().all(|t| matches!(t.status, TaskStatus::Completed)));
    // Each returned entry is the matching task's recorded result.
    for (t, out) in tasks.iter().zip(outs.iter()) {
        assert_eq!(t.result.as_ref(), Some(out));
    }

    let adapter = FailingAdapter { calls: Cell::new(0) };
    let mut tasks = vec![
        pending_task("c", vec![1, 2, 3, 4]),
        pending_task("d", vec![5, 6, 7, 8]),
    ];
    let r = executor.execute_tasks(&mut tasks, &adapter);
    assert!(r.is_err());
    assert!(matches!(tasks[0].status, TaskStatus::Failed(_)));
    // The task after the failing one is untouched.
    assert!(matches!(tasks[1].status, TaskStatus::Pending));
    assert!(tasks[1].result.is_none());
}

#[test]
fn cleanup_resets_pool_and_balancer() {
    let mut executor = TaskExecutor::new(1024, vec![0], ExecPolicy::default());
    let mut task = pending_task("t", vec![1, 2, 3, 4]);
    executor.execute_task(&mut task, &EchoAdapter).unwrap();
    assert!(executor.get_memory_status().0 > 0);
    executor.cleanup().unwrap();
    assert_eq!(executor.get_memory_status(), (0, 1024));
    assert!(executor.get_load_status().is_empty());
}
