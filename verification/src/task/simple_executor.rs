//! A bare-bones round-robin executor.
//!
//! Tasks wait in a double-ended queue.  The shell drives the loop: it takes
//! the task at the front, polls its future, and either drops the task (done)
//! or hands it back to be queued at the rear (still pending), until the
//! queue runs dry.  The queue discipline lives here, where it is verified;
//! the polling itself is the shell's.

use vstd::prelude::*;
use std::collections::VecDeque;
use crate::task::Task;

verus! {

/// Round-robin task queue: front is served next, re-queued tasks go to the
/// rear.
pub struct SimpleExecutor {
    task_queue: VecDeque<Task>,
}

impl View for SimpleExecutor {
    type V = Seq<Task>;

    closed spec fn view(&self) -> Seq<Task> {
        self.task_queue@
    }
}

impl SimpleExecutor {
    /// Creates an executor with an empty queue.
    pub fn new() -> (r: SimpleExecutor)
        ensures
            r@ == Seq::<Task>::empty(),
    {
        SimpleExecutor { task_queue: VecDeque::new() }
    }

    /// Queues a task at the rear, consuming it.
    pub fn spawn(&mut self, task: Task)
        ensures
            final(self)@ == old(self)@.push(task),
    {
        self.task_queue.push_back(task)
    }

    /// Hands out the task to be served next: the front of the queue, or
    /// nothing when the queue is empty and the run is over.
    pub fn next_task(&mut self) -> (t: Option<Task>)
        ensures
            match t {
                Some(task) => old(self)@.len() > 0 && task == old(self)@[0] && final(self)@
                    == old(self)@.skip(1),
                None => old(self)@.len() == 0 && final(self)@ == old(self)@,
            },
    {
        self.task_queue.pop_front()
    }

    /// Returns a task that polled pending to the rear of the queue, to be
    /// served again after every other waiting task.
    pub fn requeue(&mut self, task: Task)
        ensures
            final(self)@ == old(self)@.push(task),
    {
        self.task_queue.push_back(task)
    }
}

} // verus!
