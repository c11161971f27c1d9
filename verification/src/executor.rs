//! The executor of one priority level: a run queue whose non-emptiness is
//! mirrored in the scheduler's priority bitmap.
use vstd::prelude::*;
use crate::priority_bitmap::PriorityBitmap;
use crate::task::header::{TaskRef, TaskInfo, PollFn};
use crate::task::run_queue::RunQueue;
use crate::task::state::{STATE_RUN_QUEUED, queued_flag};

verus! {

/// Group count of the scheduler bitmap: room for the largest spawner
/// (4096 priorities).
pub const SCHED_GROUPS: usize = 64;

/// What the executor does next.
#[derive(Debug, Clone, Copy, PartialEq, Eq, Structural)]
pub enum RunStep {
    /// Poll the future of the dequeued task.
    Poll(TaskRef),
    /// The dequeued task has no live future (it completed): nothing to poll.
    Skip(TaskRef),
    /// The run queue is empty; the executor's bit was cleared from the bitmap.
    Idle,
}

/// The task table with `t`'s header replaced and every other header kept.
pub open spec fn only_changed(old_tasks: Seq<TaskInfo>, new_tasks: Seq<TaskInfo>, t: int) -> bool {
    &&& new_tasks.len() == old_tasks.len()
    &&& forall|o: int| 0 <= o < old_tasks.len() && o != t ==> new_tasks[o] == old_tasks[o]
}

/// Single-priority executor: a FIFO of ready tasks.
pub struct Executor {
    run_queue: RunQueue,
    priority: usize,
}

impl Executor {
    /// The ready tasks in FIFO order.
    pub closed spec fn queue(&self) -> Seq<TaskRef> {
        self.run_queue@
    }

    /// The priority level this executor serves.
    pub closed spec fn prio(&self) -> int {
        self.priority as int
    }

    pub fn new(priority: usize) -> (r: Self)
        ensures
            r.queue() == Seq::<TaskRef>::empty(),
            r.prio() == priority,
    {
        Executor { run_queue: RunQueue::new(), priority }
    }

    /// Puts `task` on this executor unless it is already queued somewhere.
    /// On the first enqueue the task records this executor and the
    /// executor's bit is set in the bitmap. Returns whether it was enqueued.
    pub fn enqueue(&mut self, task: TaskRef, tasks: &mut Vec<TaskInfo>, bitmap: &mut PriorityBitmap<SCHED_GROUPS>) -> (r: bool)
        requires
            task.id < old(tasks)@.len(),
            old(bitmap).wf(),
            old(self).prio() < 4096,
        ensures
            final(self).prio() == old(self).prio(),
            final(bitmap).wf(),
            only_changed(old(tasks)@, final(tasks)@, task.id as int),
            r == !queued_flag(old(tasks)@[task.id as int].state@),
            final(tasks)@[task.id as int].state@ == old(tasks)@[task.id as int].state@ | STATE_RUN_QUEUED,
            final(tasks)@[task.id as int].poll_fn == old(tasks)@[task.id as int].poll_fn,
            r ==> {
                &&& final(tasks)@[task.id as int].executor == Some(old(self).prio() as usize)
                &&& final(self).queue() == old(self).queue().push(task)
                &&& final(bitmap)@ == old(bitmap)@.insert(old(self).prio())
            },
            !r ==> {
                &&& final(tasks)@[task.id as int] == old(tasks)@[task.id as int]
                &&& final(self).queue() == old(self).queue()
                &&& final(bitmap)@ == old(bitmap)@
            },
    {
        let first = tasks[task.id].state.run_enqueue();
        if first {
            tasks[task.id].executor = Some(self.priority);
            self.run_queue.enqueue(task);
            bitmap.set(self.priority);
        }
        first
    }

    /// Takes the next ready task off the queue and clears its queued flag; or,
    /// when the queue is empty, clears this executor's bit from the bitmap.
    pub fn run_step(&mut self, tasks: &mut Vec<TaskInfo>, bitmap: &mut PriorityBitmap<SCHED_GROUPS>) -> (r: RunStep)
        requires
            forall|i: int| 0 <= i < old(self).queue().len() ==> (#[trigger] old(self).queue()[i]).id < old(tasks)@.len(),
            old(bitmap).wf(),
            old(self).prio() < 4096,
        ensures
            final(self).prio() == old(self).prio(),
            final(bitmap).wf(),
            old(self).queue().len() == 0 ==> {
                &&& r == RunStep::Idle
                &&& final(self).queue() == old(self).queue()
                &&& final(tasks)@ == old(tasks)@
                &&& final(bitmap)@ == old(bitmap)@.remove(old(self).prio())
            },
            old(self).queue().len() > 0 ==> {
                let t = old(self).queue()[0];
                let info = old(tasks)@[t.id as int];
                &&& r == (if info.poll_fn == PollFn::Poll { RunStep::Poll(t) } else { RunStep::Skip(t) })
                &&& final(self).queue() == old(self).queue().drop_first()
                &&& final(bitmap)@ == old(bitmap)@
                &&& only_changed(old(tasks)@, final(tasks)@, t.id as int)
                &&& final(tasks)@[t.id as int].state@ == info.state@ & !STATE_RUN_QUEUED
                &&& final(tasks)@[t.id as int].executor == info.executor
                &&& final(tasks)@[t.id as int].poll_fn == info.poll_fn
            },
    {
        match self.run_queue.dequeue() {
            Some(t) => {
                assert(old(self).queue()[0] == t);
                tasks[t.id].state.run_dequeue();
                match tasks[t.id].poll_fn {
                    PollFn::Poll => RunStep::Poll(t),
                    _ => RunStep::Skip(t),
                }
            },
            None => {
                bitmap.clear(self.priority);
                RunStep::Idle
            },
        }
    }
}

} // verus!
