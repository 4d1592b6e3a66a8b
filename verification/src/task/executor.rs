//! The kernel's main executor.
//!
//! Registered tasks wait in a table; wakers push woken ids onto a bounded
//! queue that interrupt handlers share, and the executor drains that queue,
//! polling each woken task and dropping the finished ones.  Building the
//! wakers, polling the futures and halting an idle CPU belong to the
//! unverified shell; the bookkeeping decisions -- who is registered, who
//! runs next, who keeps a cached waker, when to sleep -- are verified here.

use vstd::prelude::*;
use std::collections::VecDeque;
use crate::task::{Task, TaskId};

verus! {

/// How many woken task ids may wait at once.
pub const TASK_QUEUE_CAPACITY: usize = 100;

/// Whether some registered task carries the id.
pub open spec fn has_task(tasks: Seq<Task>, id: TaskId) -> bool {
    exists|j: int| 0 <= j < tasks.len() && (#[trigger] tasks[j]).spec_id() == id
}

/// The position of the registered task carrying the id.
pub open spec fn spec_task_index(tasks: Seq<Task>, id: TaskId) -> int {
    choose|j: int| 0 <= j < tasks.len() && (#[trigger] tasks[j]).spec_id() == id
}

/// Whether the id occurs in a list of ids.
pub open spec fn has_id(ids: Seq<TaskId>, id: TaskId) -> bool {
    exists|j: int| 0 <= j < ids.len() && ids[j] == id
}

/// The position of the id in a list of ids.
pub open spec fn spec_id_index(ids: Seq<TaskId>, id: TaskId) -> int {
    choose|j: int| 0 <= j < ids.len() && ids[j] == id
}

/// No id occurs twice among the registered tasks.
pub open spec fn tasks_unique(tasks: Seq<Task>) -> bool {
    forall|j: int, k: int|
        0 <= j < k < tasks.len() ==> (#[trigger] tasks[j]).spec_id() != (
        #[trigger] tasks[k]).spec_id()
}

/// No id occurs twice in a list of ids.
pub open spec fn ids_unique(ids: Seq<TaskId>) -> bool {
    forall|j: int, k: int| 0 <= j < k < ids.len() ==> ids[j] != ids[k]
}

/// Mathematical state of the executor: the registered tasks, the woken ids
/// in arrival order, and the ids holding a cached waker.
pub struct ExecutorModel {
    pub tasks: Seq<Task>,
    pub queue: Seq<TaskId>,
    pub wakers: Seq<TaskId>,
}

/// The kernel's main executor.
pub struct Executor {
    tasks: Vec<Task>,
    task_queue: VecDeque<TaskId>,
    waker_cache: Vec<TaskId>,
}

impl View for Executor {
    type V = ExecutorModel;

    closed spec fn view(&self) -> ExecutorModel {
        ExecutorModel { tasks: self.tasks@, queue: self.task_queue@, wakers: self.waker_cache@ }
    }
}

impl Executor {
    /// Registered ids and cached-waker ids are unique, and the woken queue
    /// respects its bound.
    pub open spec fn wf(&self) -> bool {
        &&& tasks_unique(self@.tasks)
        &&& ids_unique(self@.wakers)
        &&& self@.queue.len() <= TASK_QUEUE_CAPACITY
    }

    /// Creates an executor with nothing registered, woken or cached.
    pub fn new() -> (r: Executor)
        ensures
            r.wf(),
            r@.tasks.len() == 0,
            r@.queue.len() == 0,
            r@.wakers.len() == 0,
    {
        Executor {
            tasks: Vec::new(),
            task_queue: VecDeque::with_capacity(TASK_QUEUE_CAPACITY),
            waker_cache: Vec::new(),
        }
    }

    /// Registers a task and marks it woken so it runs.  Spawning a task
    /// whose id is already registered, or spawning past the queue bound, is
    /// ruled out: the kernel treats either as a fatal mistake.
    pub fn spawn(&mut self, task: Task)
        requires
            old(self).wf(),
            !has_task(old(self)@.tasks, task.spec_id()),
            old(self)@.queue.len() < TASK_QUEUE_CAPACITY,
        ensures
            final(self).wf(),
            final(self)@.tasks == old(self)@.tasks.push(task),
            final(self)@.queue == old(self)@.queue.push(task.spec_id()),
            final(self)@.wakers == old(self)@.wakers,
    {
        let id = task.id();
        self.tasks.push(task);
        self.task_queue.push_back(id);
        proof {
            let tasks = self@.tasks;
            assert forall|j: int, k: int|
                0 <= j < k < tasks.len() implies (#[trigger] tasks[j]).spec_id() != (
                #[trigger] tasks[k]).spec_id() by {
                if k == tasks.len() - 1 {
                    assert(!(tasks[j].spec_id() == id));
                }
            }
        }
    }

    /// A waker hands in the id of a task that is ready to run again.  The
    /// shell's wakers run from interrupt context, so this decision -- append
    /// or die -- must stay free of allocation and of blocking.
    pub fn wake_task(&mut self, id: TaskId)
        requires
            old(self).wf(),
            old(self)@.queue.len() < TASK_QUEUE_CAPACITY,
        ensures
            final(self).wf(),
            final(self)@.queue == old(self)@.queue.push(id),
            final(self)@.tasks == old(self)@.tasks,
            final(self)@.wakers == old(self)@.wakers,
    {
        self.task_queue.push_back(id);
    }

    /// How many woken ids are waiting.
    pub fn woken_count(&self) -> (r: usize)
        ensures
            r == self@.queue.len(),
    {
        self.task_queue.len()
    }

    /// Takes the id woken longest ago, if any task is woken at all.
    pub fn pop_woken(&mut self) -> (r: Option<TaskId>)
        requires
            old(self).wf(),
        ensures
            final(self).wf(),
            final(self)@.tasks == old(self)@.tasks,
            final(self)@.wakers == old(self)@.wakers,
            match r {
                Some(id) => old(self)@.queue.len() > 0 && id == old(self)@.queue[0] && final(
                    self)@.queue == old(self)@.queue.skip(1),
                None => old(self)@.queue.len() == 0 && final(self)@.queue == old(self)@.queue,
            },
    {
        self.task_queue.pop_front()
    }

    /// Whether a woken id still names a registered task; a stale id is
    /// skipped by the ready loop.
    pub fn is_registered(&self, id: TaskId) -> (r: bool)
        ensures
            r == has_task(self@.tasks, id),
    {
        match self.find_task(id) {
            Some(_) => true,
            None => false,
        }
    }

    /// Makes sure the task keeps a cached waker, telling the shell whether
    /// it must build a fresh one instead of reusing the cached one.
    pub fn prepare_waker(&mut self, id: TaskId) -> (fresh: bool)
        requires
            old(self).wf(),
        ensures
            final(self).wf(),
            final(self)@.tasks == old(self)@.tasks,
            final(self)@.queue == old(self)@.queue,
            fresh == !has_id(old(self)@.wakers, id),
            final(self)@.wakers == if fresh {
                old(self)@.wakers.push(id)
            } else {
                old(self)@.wakers
            },
    {
        match self.find_waker(id) {
            Some(_) => false,
            None => {
                self.waker_cache.push(id);
                proof {
                    let ids = self@.wakers;
                    assert forall|j: int, k: int|
                        0 <= j < k < ids.len() implies ids[j] != ids[k] by {
                        if k == ids.len() - 1 {
                            assert(!(ids[j] == id));
                        }
                    }
                }
                true
            },
        }
    }

    /// Drops a task that polled ready, together with its cached waker:
    /// neither is needed again.
    pub fn task_finished(&mut self, id: TaskId)
        requires
            old(self).wf(),
            has_task(old(self)@.tasks, id),
        ensures
            final(self).wf(),
            final(self)@.queue == old(self)@.queue,
            ({
                let i = spec_task_index(old(self)@.tasks, id);
                &&& 0 <= i < old(self)@.tasks.len()
                &&& old(self)@.tasks[i].spec_id() == id
                &&& final(self)@.tasks == old(self)@.tasks.remove(i)
            }),
            !has_task(final(self)@.tasks, id),
            final(self)@.wakers == if has_id(old(self)@.wakers, id) {
                old(self)@.wakers.remove(spec_id_index(old(self)@.wakers, id))
            } else {
                old(self)@.wakers
            },
            !has_id(final(self)@.wakers, id),
    {
        let ghost pre = self@;
        if let Some(i) = self.find_task(id) {
            self.tasks.remove(i);
            proof {
                lemma_unique_task_index(pre.tasks, id, i as int);
                lemma_task_removed(pre.tasks, id, i as int);
            }
        }
        if let Some(w) = self.find_waker(id) {
            self.waker_cache.remove(w);
            proof {
                lemma_unique_id_index(pre.wakers, id, w as int);
                lemma_id_removed(pre.wakers, id, w as int);
            }
        }
    }

    /// Whether the executor may halt the CPU: only when no task is woken.
    /// The shell must disable interrupts before asking and halt-with-enable
    /// after, so no wake-up slips in between.
    pub fn should_sleep(&self) -> (r: bool)
        ensures
            r == (self@.queue.len() == 0),
    {
        self.task_queue.len() == 0
    }

    /// Position of the registered task carrying the id.
    fn find_task(&self, id: TaskId) -> (r: Option<usize>)
        ensures
            match r {
                Some(i) => i < self@.tasks.len() && self@.tasks[i as int].spec_id() == id,
                None => !has_task(self@.tasks, id),
            },
    {
        let mut i: usize = 0;
        while i < self.tasks.len()
            invariant
                i <= self@.tasks.len(),
                forall|j: int| 0 <= j < i ==> (#[trigger] self@.tasks[j]).spec_id() != id,
            decreases self@.tasks.len() - i,
        {
            if self.tasks[i].id() == id {
                return Some(i);
            }
            i = i + 1;
        }
        None
    }

    /// Position of the id in the waker cache.
    fn find_waker(&self, id: TaskId) -> (r: Option<usize>)
        ensures
            match r {
                Some(i) => i < self@.wakers.len() && self@.wakers[i as int] == id,
                None => !has_id(self@.wakers, id),
            },
    {
        let mut i: usize = 0;
        while i < self.waker_cache.len()
            invariant
                i <= self@.wakers.len(),
                forall|j: int| 0 <= j < i ==> self@.wakers[j] != id,
            decreases self@.wakers.len() - i,
        {
            if self.waker_cache[i] == id {
                return Some(i);
            }
            i = i + 1;
        }
        None
    }
}

/// With unique ids, any position holding the id is the position the
/// specification picks.
proof fn lemma_unique_task_index(tasks: Seq<Task>, id: TaskId, i: int)
    requires
        tasks_unique(tasks),
        0 <= i < tasks.len(),
        tasks[i].spec_id() == id,
    ensures
        spec_task_index(tasks, id) == i,
{
    let j = spec_task_index(tasks, id);
    assert(0 <= j < tasks.len() && tasks[j].spec_id() == id);
}

/// Removing the only occurrence of an id leaves a unique list without it.
proof fn lemma_task_removed(tasks: Seq<Task>, id: TaskId, i: int)
    requires
        tasks_unique(tasks),
        0 <= i < tasks.len(),
        tasks[i].spec_id() == id,
    ensures
        tasks_unique(tasks.remove(i)),
        !has_task(tasks.remove(i), id),
{
    let out = tasks.remove(i);
    assert forall|j: int| 0 <= j < out.len() implies (#[trigger] out[j]).spec_id() != id by {
        if j < i {
            assert(out[j] == tasks[j]);
        } else {
            assert(out[j] == tasks[j + 1]);
        }
    }
    assert forall|j: int, k: int|
        0 <= j < k < out.len() implies (#[trigger] out[j]).spec_id() != (
        #[trigger] out[k]).spec_id() by {
        let j0 = if j < i {
            j
        } else {
            j + 1
        };
        let k0 = if k < i {
            k
        } else {
            k + 1
        };
        assert(out[j] == tasks[j0] && out[k] == tasks[k0]);
    }
}

/// With unique ids, any position holding the id is the position the
/// specification picks.
proof fn lemma_unique_id_index(ids: Seq<TaskId>, id: TaskId, i: int)
    requires
        ids_unique(ids),
        0 <= i < ids.len(),
        ids[i] == id,
    ensures
        spec_id_index(ids, id) == i,
{
    let j = spec_id_index(ids, id);
    assert(0 <= j < ids.len() && ids[j] == id);
}

/// Removing the only occurrence of an id leaves a unique list without it.
proof fn lemma_id_removed(ids: Seq<TaskId>, id: TaskId, i: int)
    requires
        ids_unique(ids),
        0 <= i < ids.len(),
        ids[i] == id,
    ensures
        ids_unique(ids.remove(i)),
        !has_id(ids.remove(i), id),
{
    let out = ids.remove(i);
    assert forall|j: int| 0 <= j < out.len() implies out[j] != id by {
        if j < i {
            assert(out[j] == ids[j]);
        } else {
            assert(out[j] == ids[j + 1]);
        }
    }
    assert forall|j: int, k: int| 0 <= j < k < out.len() implies out[j] != out[k] by {
        let j0 = if j < i {
            j
        } else {
            j + 1
        };
        let k0 = if k < i {
            k
        } else {
            k + 1
        };
        assert(out[j] == ids[j0] && out[k] == ids[k0]);
    }
}

} // verus!
