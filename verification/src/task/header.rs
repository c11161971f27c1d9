//! Task handles and the per-task header that executors read and update.
use vstd::prelude::*;
use crate::task::state::{State, spawned_flag, queued_flag};

verus! {

/// Handle of a task: its slot in the spawner's task table.
#[derive(Debug, Clone, Copy, PartialEq, Eq, Structural)]
pub struct TaskRef {
    pub id: usize,
}

impl TaskRef {
    pub fn from_id(id: usize) -> (r: Self)
        ensures
            r.id == id,
    {
        TaskRef { id }
    }

    pub fn id(&self) -> (r: usize)
        ensures
            r == self.id,
    {
        self.id
    }
}

/// What an executor does when it takes the task off its run queue.
#[derive(Debug, Clone, Copy, PartialEq, Eq, Structural)]
pub enum PollFn {
    /// Never spawned: the task has no future to poll.
    Unset,
    /// Spawned: poll the task's future.
    Poll,
    /// The future completed: polling again does nothing.
    Exited,
}

/// Per-task header: lifecycle flags, the executor (by priority) that the
/// task was last enqueued on while live, and how to poll it.
pub struct TaskInfo {
    pub state: State,
    pub executor: Option<usize>,
    pub poll_fn: PollFn,
}

impl TaskInfo {
    pub fn new() -> (r: Self)
        ensures
            r.state@ == 0,
            !spawned_flag(r.state@),
            !queued_flag(r.state@),
            r.executor is None,
            r.poll_fn == PollFn::Unset,
    {
        TaskInfo { state: State::new(), executor: None, poll_fn: PollFn::Unset }
    }
}

} // verus!
