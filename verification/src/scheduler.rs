//! The thread-unaware core of the task queue: a FIFO of pending
//! sub-tasks, consumed by executors. First-in-first-out order is the only
//! ordering guarantee; a task's priority is informational and never
//! reorders the queue.

use vstd::prelude::*;
use crate::config::SchedulerConfig;
use crate::task::MoeTask;

verus! {

/// The task queue and its configuration.
pub struct TaskScheduler {
    pub config: SchedulerConfig,
    pub queue: Vec<MoeTask>,
}

impl TaskScheduler {
    pub fn new(config: SchedulerConfig) -> (s: Self)
        ensures
            s.config == config,
            s.queue@.len() == 0,
    {
        TaskScheduler { config, queue: Vec::new() }
    }

    /// Appends one task at the tail of the queue.
    pub fn submit_task(&mut self, task: MoeTask)
        ensures
            final(self).queue@ == old(self).queue@.push(task),
            final(self).config == old(self).config,
    {
        self.queue.push(task);
    }

    /// Removes and returns the task at the head of the queue; `None`
    /// exactly when the queue is empty. Tasks leave in the order they
    /// were submitted.
    pub fn fetch_next_task(&mut self) -> (r: Option<MoeTask>)
        ensures
            old(self).queue@.len() == 0 ==> r is None && final(self).queue@ == old(self).queue@,
            old(self).queue@.len() > 0 ==> (r matches Some(t) && t == old(self).queue@[0]
                && final(self).queue@ == old(self).queue@.subrange(
                1,
                old(self).queue@.len() as int,
            )),
            final(self).config == old(self).config,
    {
        if self.queue.len() == 0 {
            None
        } else {
            let head = self.queue.remove(0);
            proof {
                assert(self.queue@ =~= old(self).queue@.subrange(
                    1,
                    old(self).queue@.len() as int,
                ));
            }
            Some(head)
        }
    }
}

} // verus!
