//! The task queue discipline of the worker pool: tasks are posted at the
//! back and taken from the front, so every posted task is taken exactly
//! once, in posting order, before the queue reports empty. The threads, the
//! mutex, and the condition variable that share one queue between workers
//! belong to the embedding process; each worker holds the lock only to take
//! at most one task.
use vstd::prelude::*;
use std::collections::VecDeque;

verus! {

/// A first-in, first-out queue of pending tasks.
pub struct TaskQueue<T> {
    pub tasks: VecDeque<T>,
}

impl<T> View for TaskQueue<T> {
    type V = Seq<T>;

    open spec fn view(&self) -> Seq<T> {
        self.tasks@
    }
}

impl<T> TaskQueue<T> {
    /// An empty queue.
    pub fn new() -> (r: Self)
        ensures
            r@ == Seq::<T>::empty(),
    {
        TaskQueue { tasks: VecDeque::new() }
    }

    /// Posts a task at the back of the queue; every earlier task stays, in
    /// order, ahead of it.
    pub fn post(&mut self, task: T)
        ensures
            final(self)@ == old(self)@.push(task),
    {
        self.tasks.push_back(task);
    }

    /// Takes the task at the front of the queue: exactly the first posted
    /// task still pending, which afterwards is pending no more; an empty
    /// queue yields nothing and stays empty.
    pub fn take(&mut self) -> (r: Option<T>)
        ensures
            old(self)@.len() == 0 ==> r is None && final(self)@ == old(self)@,
            old(self)@.len() > 0 ==> r == Some(old(self)@[0]) && final(self)@ == old(
                self,
            )@.drop_first(),
    {
        let r = self.tasks.pop_front();
        proof {
            if old(self)@.len() > 0 {
                assert(self@ =~= old(self)@.drop_first());
            }
        }
        r
    }

    /// How many tasks are pending.
    pub fn len(&self) -> (r: usize)
        ensures
            r == self@.len(),
    {
        self.tasks.len()
    }
}

/// The tasks still pending after the first `k` of `tasks` have been taken.
pub open spec fn spec_pending_after<T>(tasks: Seq<T>, k: int) -> Seq<T>
    recommends
        0 <= k <= tasks.len(),
{
    tasks.subrange(k, tasks.len() as int)
}

/// Posting any number of tasks and then taking repeatedly executes every
/// task exactly once, in posting order, with none lost or duplicated: after
/// `k` takes from a queue holding `tasks`, the next take yields exactly
/// `tasks[k]` and leaves exactly the tasks after it; after all takes the
/// queue is empty and yields nothing.
pub proof fn lemma_tasks_taken_exactly_once<T>(tasks: Seq<T>, k: int)
    requires
        0 <= k <= tasks.len(),
    ensures
        k < tasks.len() ==> spec_pending_after(tasks, k)[0] == tasks[k] && spec_pending_after(
            tasks,
            k,
        ).drop_first() == spec_pending_after(tasks, k + 1),
        k == tasks.len() ==> spec_pending_after(tasks, k).len() == 0,
{
    if k < tasks.len() {
        assert(spec_pending_after(tasks, k).drop_first() =~= spec_pending_after(tasks, k + 1));
    }
}

} // verus!
