//! Cooperative tasks.
//!
//! A task is a unit of cooperative work identified by a unique id.  In the
//! running kernel a task also owns the pinned future that does the work and
//! draws its id from a global atomic counter; the future and its polling are
//! machinery of the unverified shell, which keeps each future keyed by the
//! task's id and passes the id counter in explicitly.

pub mod executor;
pub mod simple_executor;

use vstd::prelude::*;

verus! {

/// Unique identity of a task.
#[derive(Clone, Copy, PartialEq, Eq, PartialOrd, Ord, Structural, Debug)]
pub struct TaskId(u64);

impl TaskId {
    /// Draws a fresh id from the counter, as the kernel's atomic
    /// fetch-and-add does: the counter's current value becomes the id and
    /// the counter moves past it, so no two draws agree.
    pub fn new(counter: &mut u64) -> (r: TaskId)
        requires
            *old(counter) < u64::MAX,
        ensures
            r.value() == *old(counter),
            *final(counter) == *old(counter) + 1,
    {
        let id = TaskId(*counter);
        *counter = *counter + 1;
        id
    }

    /// The id as a number.
    pub closed spec fn value(self) -> u64 {
        self.0
    }
}

/// One unit of cooperative work, named by its id.
pub struct Task {
    id: TaskId,
}

impl Task {
    /// The task's id, for specifications.
    pub closed spec fn spec_id(&self) -> TaskId {
        self.id
    }

    /// Creates a new task under a fresh id drawn from the counter.
    pub fn new(counter: &mut u64) -> (r: Task)
        requires
            *old(counter) < u64::MAX,
        ensures
            r.spec_id().value() == *old(counter),
            *final(counter) == *old(counter) + 1,
    {
        Task { id: TaskId::new(counter) }
    }

    /// The task's id.
    pub fn id(&self) -> (r: TaskId)
        ensures
            r == self.spec_id(),
    {
        self.id
    }
}

} // verus!
