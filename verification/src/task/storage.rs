//! Storage of one task: its future, its output until a join handle takes it,
//! and the waker of the task awaiting that output.
use vstd::prelude::*;
use core::task::Waker;
use crate::spawner::{Spawner, SpawnToken};
use crate::task::header::{TaskRef, PollFn};
use crate::task::state::{STATE_SPAWNED, spawned_flag};
use crate::executor::only_changed;
use crate::util::UninitCell;

verus! {

/// `core::task::Waker` is carried through as an opaque value.
#[verifier::external_type_specification]
#[verifier::external_body]
pub struct ExWaker(Waker);

/// Error returned by `TaskStorage::spawn` when the task is already spawned.
#[derive(Debug)]
pub struct SpawnError;

/// Output of a completed task, and the waker of whoever awaits it.
pub struct JoinState<T> {
    pub result: Option<T>,
    pub waker: Option<Waker>,
}

impl<T> JoinState<T> {
    pub fn new() -> (r: Self)
        ensures
            r.result is None,
            r.waker is None,
    {
        JoinState { result: None, waker: None }
    }
}

/// Storage for a single task's future.
pub struct TaskStorage<F: core::future::Future> {
    task: Option<TaskRef>,
    join: JoinState<F::Output>,
    f: UninitCell<F>,
}

impl<F: core::future::Future> TaskStorage<F> {
    /// The task-table slot of this storage, once it has been spawned on a spawner.
    pub closed spec fn task(&self) -> Option<TaskRef> {
        self.task
    }

    pub closed spec fn join(&self) -> &JoinState<F::Output> {
        &self.join
    }

    /// The live future, between a successful spawn and its completion.
    pub closed spec fn future(&self) -> Option<F> {
        self.f.value()
    }

    pub fn new() -> (r: Self)
        ensures
            r.task() is None,
            r.join().result is None,
            r.join().waker is None,
            r.future() is None,
    {
        TaskStorage { task: None, join: JoinState::new(), f: UninitCell::uninit() }
    }

    /// Whether the storage holds no live future (never spawned, or completed).
    pub fn future_is_done(&self) -> (r: bool)
        ensures
            r == (self.future() is None),
    {
        self.f.is_uninit()
    }

    pub fn task_ref(&self) -> (r: Option<TaskRef>)
        ensures
            r == self.task(),
    {
        self.task
    }

    /// The state byte the task had before this call: that of its slot, or
    /// zero for a storage not yet given a slot.
    pub open spec fn prior_state<const N: usize>(&self, spawner: &Spawner<N>) -> u8 {
        match self.task() {
            Some(t) => spawner.tasks()[t.id as int].state@,
            None => 0,
        }
    }

    /// Spawns the task: on first use the storage gets a slot in the
    /// spawner's task table; then, if the task is not already spawned, its
    /// future is built by `f` and a token to hand to `Spawner::spawn` is
    /// returned. Spawning a task that is still live fails with `SpawnError`.
    pub fn spawn<const N: usize>(&mut self, spawner: &mut Spawner<N>, f: impl FnOnce() -> F) -> (r: Result<SpawnToken<F>, SpawnError>)
        requires
            old(spawner).wf(),
            old(self).task() matches Some(t) ==> old(spawner).valid_task(t),
            old(self).task() is None ==> old(spawner).tasks().len() < usize::MAX,
            call_requires(f, ()),
        ensures
            final(spawner).wf(),
            Spawner::same_queues(old(spawner), final(spawner)),
            final(self).task() matches Some(t) && final(spawner).valid_task(t),
            old(self).task() is Some ==> final(self).task() == old(self).task() && final(spawner).tasks().len() == old(spawner).tasks().len(),
            old(self).task() is None ==> final(self).task().unwrap().id == old(spawner).tasks().len()
                && final(spawner).tasks().len() == old(spawner).tasks().len() + 1,
            forall|o: int| 0 <= o < old(spawner).tasks().len() && Some(TaskRef { id: o as usize }) != final(self).task()
                ==> #[trigger] final(spawner).tasks()[o] == old(spawner).tasks()[o],
            r is Ok <==> !spawned_flag(old(self).prior_state(old(spawner))),
            final(spawner).tasks()[final(self).task().unwrap().id as int].state@ == old(self).prior_state(old(spawner)) | STATE_SPAWNED,
            r matches Ok(tok) ==> {
                let t = final(self).task().unwrap();
                &&& tok.task() == t
                &&& final(self).join().result is None
                &&& final(self).join().waker is None
                &&& final(self).future() is Some
                &&& call_ensures(f, (), final(self).future().unwrap())
                &&& final(spawner).tasks()[t.id as int].poll_fn == PollFn::Poll
            },
            r is Err ==> final(self).join() == old(self).join() && final(self).future() == old(self).future(),
    {
        let t = match self.task {
            Some(t) => t,
            None => {
                let t = spawner.register_task();
                self.task = Some(t);
                t
            },
        };
        if !spawner.begin_spawn(t) {
            return Err(SpawnError);
        }
        self.join.result = None;
        self.join.waker = None;
        self.f.write_in_place(f);
        Ok(SpawnToken::new(t))
    }

    /// Takes the stored output if the task completed; otherwise records
    /// `waker` to be woken on completion.
    pub fn take_output(&mut self, waker: Waker) -> (r: Option<F::Output>)
        ensures
            final(self).task() == old(self).task(),
            final(self).future() == old(self).future(),
            r == old(self).join().result,
            final(self).join().result is None,
            old(self).join().result is Some ==> final(self).join().waker == old(self).join().waker,
            old(self).join().result is None ==> final(self).join().waker == Some(waker),
    {
        match self.join.result.take() {
            Some(v) => Some(v),
            None => {
                self.join.waker = Some(waker);
                None
            },
        }
    }

    /// Mutable access to the live future, for polling it.
    pub fn future_mut(&mut self) -> (r: &mut F)
        requires
            old(self).future() is Some,
        ensures
            *r == old(self).future().unwrap(),
            final(self).future() == Some(*final(r)),
            final(self).task() == old(self).task(),
            final(self).join() == old(self).join(),
    {
        self.f.as_mut()
    }

    /// Records the output of the task's completed future: the output is kept
    /// for the join handle, the future is dropped, the task is marked
    /// finished on the spawner, and the waker of the task awaiting the output
    /// (if any) is returned to be woken.
    pub fn complete<const N: usize>(&mut self, spawner: &mut Spawner<N>, output: F::Output) -> (w: Option<Waker>)
        requires
            old(spawner).wf(),
            old(self).task() matches Some(t) && old(spawner).valid_task(t),
        ensures
            final(spawner).wf(),
            Spawner::same_queues(old(spawner), final(spawner)),
            final(self).task() == old(self).task(),
            final(self).join().result == Some(output),
            final(self).join().waker is None,
            w == old(self).join().waker,
            final(self).future() is None,
            ({
                let t = old(self).task().unwrap().id as int;
                &&& only_changed(old(spawner).tasks(), final(spawner).tasks(), t)
                &&& final(spawner).tasks()[t].state@ == old(spawner).tasks()[t].state@ & !STATE_SPAWNED
                &&& final(spawner).tasks()[t].executor is None
                &&& final(spawner).tasks()[t].poll_fn == PollFn::Exited
            }),
    {
        let t = match self.task {
            Some(t) => t,
            None => return None,
        };
        self.join.result = Some(output);
        spawner.finish_task(t);
        self.f.drop_in_place();
        self.join.waker.take()
    }
}

} // verus!
