//! FIFO run queue for the tasks of one priority.
use vstd::prelude::*;
use crate::task::header::TaskRef;

verus! {

/// Ready tasks of one priority, in the order they were enqueued.
pub struct RunQueue {
    items: Vec<TaskRef>,
}

impl View for RunQueue {
    type V = Seq<TaskRef>;

    closed spec fn view(&self) -> Seq<TaskRef> {
        self.items@
    }
}

impl RunQueue {
    pub fn new() -> (r: Self)
        ensures
            r@ == Seq::<TaskRef>::empty(),
    {
        RunQueue { items: Vec::new() }
    }

    /// Takes the task that was enqueued first.
    pub fn dequeue(&mut self) -> (r: Option<TaskRef>)
        ensures
            old(self)@.len() == 0 ==> r is None && final(self)@ == old(self)@,
            old(self)@.len() > 0 ==> r == Some(old(self)@[0]) && final(self)@ == old(self)@.drop_first(),
    {
        if self.items.len() == 0 {
            None
        } else {
            let t = self.items.remove(0);
            proof {
                assert(self@ =~= old(self)@.drop_first());
            }
            Some(t)
        }
    }

    /// Appends a task at the back.
    pub fn enqueue(&mut self, task: TaskRef)
        ensures
            final(self)@ == old(self)@.push(task),
    {
        self.items.push(task);
    }

    pub fn is_empty(&self) -> (r: bool)
        ensures
            r == (self@.len() == 0),
    {
        self.items.len() == 0
    }
}

} // verus!
