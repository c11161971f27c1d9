//! Handle to the output of a spawned task.
use vstd::prelude::*;
use core::marker::PhantomData;
use crate::task::header::TaskRef;
use crate::task::storage::TaskStorage;
use core::task::Waker;

verus! {

/// Resolves to the output of a spawned task once the task completes.
pub struct JoinHandle<T> {
    task: TaskRef,
    marker: PhantomData<T>,
}

impl<T> JoinHandle<T> {
    /// The task whose output this handle awaits.
    pub closed spec fn task(&self) -> TaskRef {
        self.task
    }

    pub fn new(task: TaskRef) -> (r: Self)
        ensures
            r.task() == task,
    {
        JoinHandle { task, marker: PhantomData }
    }

    /// Polls for the task's output: `Some` once the task has completed
    /// (the output is moved out), otherwise `None` with `waker` registered
    /// to be woken when the task completes.
    pub fn poll<F: core::future::Future<Output = T>>(&mut self, storage: &mut TaskStorage<F>, waker: Waker) -> (r: Option<T>)
        requires
            old(storage).task() == Some(old(self).task()),
        ensures
            final(self).task() == old(self).task(),
            final(storage).task() == old(storage).task(),
            final(storage).future() == old(storage).future(),
            r == old(storage).join().result,
            final(storage).join().result is None,
            old(storage).join().result is Some ==> final(storage).join().waker == old(storage).join().waker,
            old(storage).join().result is None ==> final(storage).join().waker == Some(waker),
    {
        storage.take_output(waker)
    }

    pub fn task_ref(&self) -> (r: TaskRef)
        ensures
            r == self.task(),
    {
        self.task
    }
}

} // verus!
