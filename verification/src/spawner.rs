//! The scheduler: one executor per priority, a bitmap of the priorities
//! whose executors have ready tasks, and the stack of executors that
//! currently occupy the shared system stack.
use vstd::prelude::*;
use core::marker::PhantomData;
use crate::executor::{Executor, RunStep, SCHED_GROUPS, only_changed};
use crate::priority::Priority;
use crate::priority_bitmap::{PriorityBitmap, is_least};
use crate::task::header::{TaskRef, TaskInfo, PollFn};
use crate::task::join_handle::JoinHandle;
use crate::task::state::{STATE_RUN_QUEUED, STATE_SPAWNED, queued_flag, spawned_flag, lemma_flags};

verus! {

/// `a / b` rounded up.
pub fn ceil_div(a: usize, b: usize) -> (r: usize)
    requires
        b > 0,
        a + b <= usize::MAX,
    ensures
        r == (a + b - 1) / (b as int),
{
    (a + b - 1) / b
}

/// Handle of a spawned task that has not yet been given to an executor.
pub struct SpawnToken<F> {
    task: TaskRef,
    phantom: PhantomData<F>,
}

impl<F> SpawnToken<F> {
    pub closed spec fn task(&self) -> TaskRef {
        self.task
    }

    pub(crate) fn new(task: TaskRef) -> (r: Self)
        ensures
            r.task() == task,
    {
        SpawnToken { task, phantom: PhantomData }
    }

    pub fn task_ref(&self) -> (r: TaskRef)
        ensures
            r == self.task(),
    {
        self.task
    }
}

/// Names the executor that should run next, as chosen by `Spawner::try_preempt`.
pub struct RunToken(Priority);

impl View for RunToken {
    type V = nat;

    closed spec fn view(&self) -> nat {
        self.0@
    }
}

impl RunToken {
    pub fn new(prio: Priority) -> (r: Self)
        ensures
            r@ == prio@,
    {
        RunToken(prio)
    }

    pub fn priority(&self) -> (r: Priority)
        ensures
            r@ == self@,
    {
        self.0
    }
}

/// The priority `try_preempt` switches to, given the ready priorities and
/// the priority stack (bottom first): the highest ready priority, when it is
/// higher than the running one or nothing runs.
pub open spec fn preemption(ready: Set<int>, stack: Seq<nat>) -> Option<int> {
    if ready == Set::<int>::empty() {
        None
    } else {
        let h = choose|h: int| is_least(ready, h);
        if stack.len() == 0 || h < stack.last() {
            Some(h)
        } else {
            None
        }
    }
}

/// With nothing running, the highest ready priority is switched to; a
/// running priority is only ever preempted by a strictly higher one.
pub proof fn lemma_preemption_facts(ready: Set<int>, stack: Seq<nat>, h: int)
    requires
        is_least(ready, h),
    ensures
        stack.len() == 0 ==> preemption(ready, stack) == Some(h),
        stack.len() > 0 && h >= stack.last() ==> preemption(ready, stack) is None,
        stack.len() > 0 && h < stack.last() ==> preemption(ready, stack) == Some(h),
{
    assert(ready.contains(h));
    assert(ready != Set::<int>::empty());
    let c = choose|x: int| is_least(ready, x);
    assert(is_least(ready, c));
    assert(c == h);
}

/// `complete_executor` undoes the push of a successful `try_preempt`: the
/// stack is back to what it was before the preemption.
pub proof fn lemma_preempt_then_complete(stack: Seq<nat>, h: nat)
    ensures
        stack.push(h).drop_last() == stack,
        stack.push(h).len() > 0,
        stack.push(h).last() == h,
{
    assert(stack.push(h).drop_last() =~= stack);
}

/// Strictly decreasing levels: each executor on the stack preempted a lower one.
pub open spec fn strictly_decreasing(s: Seq<nat>) -> bool {
    forall|i: int, j: int| 0 <= i < j < s.len() ==> s[i] > s[j]
}

/// A strictly decreasing sequence of levels below `n` has at most `n` entries.
pub proof fn lemma_decreasing_len(s: Seq<nat>, n: int)
    requires
        n >= 0,
        strictly_decreasing(s),
        forall|i: int| 0 <= i < s.len() ==> #[trigger] s[i] < n,
    ensures
        s.len() <= n,
        s.len() > 0 ==> s.len() <= s[0] + 1,
    decreases s.len(),
{
    if s.len() > 1 {
        let t = s.drop_first();
        assert forall|i: int, j: int| 0 <= i < j < t.len() implies t[i] > t[j] by {
            assert(t[i] == s[i + 1] && t[j] == s[j + 1]);
        }
        assert forall|i: int| 0 <= i < t.len() implies #[trigger] t[i] < n by {
            assert(t[i] == s[i + 1]);
        }
        lemma_decreasing_len(t, n);
        assert(t[0] == s[1]);
        assert(s[0] > s[1]);
    }
    if s.len() > 0 {
        assert(s[0] < n);
    }
}

/// Priority-preemptive scheduler over `N` priority levels.
pub struct Spawner<const N: usize> {
    executors: Vec<Executor>,
    bitmap: PriorityBitmap<SCHED_GROUPS>,
    prio_stack: Vec<Priority>,
    tasks: Vec<TaskInfo>,
    initialized: bool,
}

impl<const N: usize> Spawner<N> {
    /// Priorities whose executors have (or just had) ready tasks.
    pub closed spec fn ready(&self) -> Set<int> {
        self.bitmap@
    }

    /// The priority stack, bottom first; the top is the running executor.
    pub closed spec fn stack(&self) -> Seq<nat> {
        self.prio_stack@.map_values(|p: Priority| p@)
    }

    /// The run queue of priority `p`.
    pub closed spec fn queue(&self, p: int) -> Seq<TaskRef> {
        self.executors@[p].queue()
    }

    /// The task table.
    pub closed spec fn tasks(&self) -> Seq<TaskInfo> {
        self.tasks@
    }

    pub closed spec fn is_initialized(&self) -> bool {
        self.initialized
    }

    /// `t` names a task of this spawner.
    pub open spec fn valid_task(&self, t: TaskRef) -> bool {
        t.id < self.tasks().len()
    }

    /// The task is on the run queue of some priority.
    pub open spec fn in_some_queue(&self, t: int) -> bool {
        exists|p: int, i: int| 0 <= p < N && 0 <= i < self.queue(p).len() && (#[trigger] self.queue(p)[i]).id == t
    }

    /// Scheduler consistency.
    pub closed spec fn wf(&self) -> bool {
        &&& 0 < N <= 4096
        &&& self.bitmap.wf()
        &&& self.executors@.len() == N
        &&& forall|p: int| 0 <= p < N ==> (#[trigger] self.executors@[p]).prio() == p
        &&& forall|x: int| #[trigger] self.bitmap@.contains(x) ==> 0 <= x < N
        &&& forall|p: int| 0 <= p < N && self.queue(p).len() > 0 ==> #[trigger] self.bitmap@.contains(p)
        &&& forall|p: int, i: int| 0 <= p < N && 0 <= i < self.queue(p).len() ==> (#[trigger] self.queue(p)[i]).id < self.tasks@.len()
        &&& forall|p: int, i: int| 0 <= p < N && 0 <= i < self.queue(p).len() ==> queued_flag(self.tasks@[(#[trigger] self.queue(p)[i]).id as int].state@)
        &&& forall|p: int| 0 <= p < N ==> (#[trigger] self.queue(p)).no_duplicates()
        &&& forall|p1: int, p2: int, i: int, j: int|
            0 <= p1 < N && 0 <= p2 < N && p1 != p2 && 0 <= i < self.queue(p1).len() && 0 <= j < self.queue(p2).len()
            ==> #[trigger] self.queue(p1)[i] != #[trigger] self.queue(p2)[j]
        &&& forall|t: int| 0 <= t < self.tasks@.len() && queued_flag(#[trigger] self.tasks@[t].state@) ==> self.in_some_queue(t)
        &&& forall|t: int| 0 <= t < self.tasks@.len() ==> match (#[trigger] self.tasks@[t]).executor {
            Some(p) => p < N,
            None => true,
        }
        &&& forall|t: int| 0 <= t < self.tasks@.len() && (#[trigger] self.tasks@[t]).executor is Some ==> self.initialized
        &&& strictly_decreasing(self.stack())
        &&& forall|i: int| 0 <= i < self.stack().len() ==> #[trigger] self.stack()[i] < N
    }

    proof fn lemma_in_queue_transfer(a: &Self, b: &Self, t: int)
        requires
            a.in_some_queue(t),
            forall|p: int| 0 <= p < N ==> #[trigger] b.queue(p) == a.queue(p),
        ensures
            b.in_some_queue(t),
    {
        let (p, i) = choose|p: int, i: int| 0 <= p < N && 0 <= i < a.queue(p).len() && (#[trigger] a.queue(p)[i]).id == t;
        assert(b.queue(p)[i].id == t);
    }

    /// `b` differs from a consistent `a` only in ways that keep consistency.
    proof fn lemma_wf_frame(a: &Self, b: &Self)
        requires
            a.wf(),
            b.executors@ == a.executors@,
            b.bitmap == a.bitmap,
            b.prio_stack@ == a.prio_stack@,
            b.tasks@ == a.tasks@,
            a.initialized ==> b.initialized,
        ensures
            b.wf(),
    {
        assert forall|p: int| 0 <= p < N implies #[trigger] b.queue(p) == a.queue(p) by {}
        assert(b.stack() == a.stack());
        assert forall|t: int| 0 <= t < b.tasks@.len() && queued_flag(#[trigger] b.tasks@[t].state@)
            implies b.in_some_queue(t) by {
            Self::lemma_in_queue_transfer(a, b, t);
        }
    }

    /// A scheduler with no tasks; `init` must be called before tasks are given to it.
    pub fn new() -> (r: Self)
        requires
            0 < N <= 4096,
        ensures
            r.wf(),
            !r.is_initialized(),
            r.ready() == Set::<int>::empty(),
            r.stack() == Seq::<nat>::empty(),
            r.tasks() == Seq::<TaskInfo>::empty(),
            forall|p: int| 0 <= p < N ==> #[trigger] r.queue(p) == Seq::<TaskRef>::empty(),
    {
        let mut executors: Vec<Executor> = Vec::new();
        let mut i: usize = 0;
        while i < N
            invariant
                i <= N,
                executors@.len() == i,
                forall|p: int| 0 <= p < i ==> (#[trigger] executors@[p]).prio() == p,
                forall|p: int| 0 <= p < i ==> (#[trigger] executors@[p]).queue() == Seq::<TaskRef>::empty(),
            decreases N - i,
        {
            executors.push(Executor::new(i));
            i = i + 1;
        }
        let r = Spawner {
            executors,
            bitmap: PriorityBitmap::new(),
            prio_stack: Vec::new(),
            tasks: Vec::new(),
            initialized: false,
        };
        proof {
            assert(r.stack() =~= Seq::<nat>::empty());
        }
        r
    }

    /// Enables the executors to signal the bitmap; must precede `spawn`.
    pub fn init(&mut self)
        requires
            old(self).wf(),
        ensures
            final(self).wf(),
            final(self).is_initialized(),
            final(self).ready() == old(self).ready(),
            final(self).stack() == old(self).stack(),
            final(self).tasks() == old(self).tasks(),
            forall|p: int| 0 <= p < N ==> #[trigger] final(self).queue(p) == old(self).queue(p),
    {
        let ghost before = *self;
        self.initialized = true;
        proof {
            Self::lemma_wf_frame(&before, self);
        }
    }

    /// Adds a task header, neither spawned nor queued, to the task table.
    pub fn register_task(&mut self) -> (r: TaskRef)
        requires
            old(self).wf(),
            old(self).tasks().len() < usize::MAX,
        ensures
            final(self).wf(),
            r.id == old(self).tasks().len(),
            final(self).tasks().len() == old(self).tasks().len() + 1,
            final(self).tasks().drop_last() == old(self).tasks(),
            final(self).tasks().last().state@ == 0,
            final(self).tasks().last().executor is None,
            final(self).tasks().last().poll_fn == PollFn::Unset,
            final(self).is_initialized() == old(self).is_initialized(),
            final(self).ready() == old(self).ready(),
            final(self).stack() == old(self).stack(),
            forall|p: int| 0 <= p < N ==> #[trigger] final(self).queue(p) == old(self).queue(p),
    {
        let id = self.tasks.len();
        self.tasks.push(TaskInfo::new());
        proof {
            lemma_flags(0);
            assert(self.tasks@.drop_last() =~= old(self).tasks@);
            assert forall|p: int| 0 <= p < N implies #[trigger] self.queue(p) == old(self).queue(p) by {}
            assert forall|t: int| 0 <= t < self.tasks@.len() && queued_flag(#[trigger] self.tasks@[t].state@)
                implies self.in_some_queue(t) by {
                assert(t < id);
                assert(self.tasks@[t] == old(self).tasks@[t]);
                Self::lemma_in_queue_transfer(old(self), self, t);
            }
            assert(self.stack() == old(self).stack());
        }
        TaskRef::from_id(id)
    }

    /// The effect of offering task `t` to the executor of priority `p`:
    /// when `t` is not queued yet (`r`), it is appended to that run queue,
    /// records `p` as its executor and `p` becomes ready; otherwise nothing
    /// but its (already set) queued flag is touched.
    pub open spec fn enqueued_on(pre: &Self, post: &Self, t: TaskRef, p: int, r: bool) -> bool {
        &&& r == !queued_flag(pre.tasks()[t.id as int].state@)
        &&& post.stack() == pre.stack()
        &&& post.is_initialized() == pre.is_initialized()
        &&& only_changed(pre.tasks(), post.tasks(), t.id as int)
        &&& post.tasks()[t.id as int].state@ == pre.tasks()[t.id as int].state@ | STATE_RUN_QUEUED
        &&& post.tasks()[t.id as int].poll_fn == pre.tasks()[t.id as int].poll_fn
        &&& forall|q: int| 0 <= q < N && q != p ==> #[trigger] post.queue(q) == pre.queue(q)
        &&& r ==> {
            &&& post.queue(p) == pre.queue(p).push(t)
            &&& post.ready() == pre.ready().insert(p)
            &&& post.tasks()[t.id as int].executor == Some(p as usize)
        }
        &&& !r ==> {
            &&& post.queue(p) == pre.queue(p)
            &&& post.ready() == pre.ready()
            &&& post.tasks() == pre.tasks()
        }
    }

    fn enqueue_on(&mut self, p: usize, t: TaskRef) -> (r: bool)
        requires
            old(self).wf(),
            old(self).is_initialized(),
            p < N,
            old(self).valid_task(t),
        ensures
            final(self).wf(),
            Self::enqueued_on(old(self), final(self), t, p as int, r),
    {
        let r = self.executors[p].enqueue(t, &mut self.tasks, &mut self.bitmap);
        proof {
            let pre = old(self);
            let tt = t.id as int;
            lemma_flags(pre.tasks@[tt].state@);
            assert forall|q: int| 0 <= q < N && q != p implies #[trigger] self.queue(q) == pre.queue(q) by {}
            assert(self.stack() == pre.stack());
            if r {
                // `t` was on no queue: the queued flag would be set otherwise.
                assert forall|q: int, i: int| 0 <= q < N && 0 <= i < pre.queue(q).len() implies
                    #[trigger] pre.queue(q)[i] != t by {
                    if pre.queue(q)[i] == t {
                        assert(queued_flag(pre.tasks@[pre.queue(q)[i].id as int].state@));
                    }
                }
                let n = pre.queue(p as int).len();
                assert(self.queue(p as int) == pre.queue(p as int).push(t));
                assert forall|q: int, i: int| 0 <= q < N && 0 <= i < self.queue(q).len() implies
                    (#[trigger] self.queue(q)[i]).id < self.tasks@.len()
                    && queued_flag(self.tasks@[self.queue(q)[i].id as int].state@) by {
                    if q == p && i == n {
                        assert(self.queue(q)[i] == t);
                    } else {
                        assert(self.queue(q)[i] == pre.queue(q)[i]);
                        assert(pre.queue(q)[i] != t);
                    }
                }
                assert forall|q: int| 0 <= q < N implies (#[trigger] self.queue(q)).no_duplicates() by {
                    if q == p {
                        assert forall|i: int, j: int| 0 <= i < j < self.queue(q).len() implies
                            self.queue(q)[i] != self.queue(q)[j] by {
                            if j == n {
                                assert(pre.queue(q)[i] != t);
                            } else {
                                assert(pre.queue(q).no_duplicates());
                            }
                        }
                    }
                }
                assert forall|p1: int, p2: int, i: int, j: int|
                    0 <= p1 < N && 0 <= p2 < N && p1 != p2 && 0 <= i < self.queue(p1).len() && 0 <= j < self.queue(p2).len()
                    implies #[trigger] self.queue(p1)[i] != #[trigger] self.queue(p2)[j] by {
                    if p1 == p && i == n {
                        assert(pre.queue(p2)[j] != t);
                    } else if p2 == p && j == n {
                        assert(pre.queue(p1)[i] != t);
                    } else {
                        assert(self.queue(p1)[i] == pre.queue(p1)[i]);
                        assert(self.queue(p2)[j] == pre.queue(p2)[j]);
                    }
                }
                assert forall|s: int| 0 <= s < self.tasks@.len() && queued_flag(#[trigger] self.tasks@[s].state@)
                    implies self.in_some_queue(s) by {
                    if s == tt {
                        assert(self.queue(p as int)[n as int].id == s);
                    } else {
                        assert(self.tasks@[s] == pre.tasks@[s]);
                        let (q, i) = choose|q: int, i: int| 0 <= q < N && 0 <= i < pre.queue(q).len() && (#[trigger] pre.queue(q)[i]).id == s;
                        assert(self.queue(q)[i] == pre.queue(q)[i]);
                    }
                }
                assert forall|x: int| #[trigger] self.bitmap@.contains(x) implies 0 <= x < N by {}
                assert forall|q: int| 0 <= q < N && self.queue(q).len() > 0 implies #[trigger] self.bitmap@.contains(q) by {
                    if q != p {
                        assert(self.queue(q) == pre.queue(q));
                    }
                }
                assert forall|s: int| 0 <= s < self.tasks@.len() implies match (#[trigger] self.tasks@[s]).executor {
                    Some(e) => e < N,
                    None => true,
                } by {
                    if s != tt {
                        assert(self.tasks@[s] == pre.tasks@[s]);
                    }
                }
                assert forall|s: int| 0 <= s < self.tasks@.len() && (#[trigger] self.tasks@[s]).executor is Some implies self.initialized by {}
            } else {
                assert(self.tasks@ =~= pre.tasks@);
                assert(self.queue(p as int) == pre.queue(p as int));
                assert forall|q: int| 0 <= q < N implies #[trigger] self.queue(q) == pre.queue(q) by {}
                assert forall|s: int| 0 <= s < self.tasks@.len() && queued_flag(#[trigger] self.tasks@[s].state@)
                    implies self.in_some_queue(s) by {
                    Self::lemma_in_queue_transfer(pre, self, s);
                }
            }
        }
        r
    }

    /// The queues, tasks and ready set of `post` are those of `pre`.
    pub open spec fn same_work(pre: &Self, post: &Self) -> bool {
        &&& post.ready() == pre.ready()
        &&& post.tasks() == pre.tasks()
        &&& post.is_initialized() == pre.is_initialized()
        &&& forall|q: int| 0 <= q < N ==> #[trigger] post.queue(q) == pre.queue(q)
    }

    /// Checks for a ready executor of higher priority than the running one
    /// (the top of the priority stack), or of any priority when the stack is
    /// empty. If there is one, it is pushed onto the stack and a token to run
    /// it is returned.
    pub fn try_preempt(&mut self) -> (r: Option<RunToken>)
        requires
            old(self).wf(),
        ensures
            final(self).wf(),
            Self::same_work(old(self), final(self)),
            match preemption(old(self).ready(), old(self).stack()) {
                Some(h) => r matches Some(t) && t@ == h && final(self).stack() == old(self).stack().push(h as nat),
                None => r is None && final(self).stack() == old(self).stack(),
            },
    {
        proof {
            assert forall|q: int| 0 <= q < N implies #[trigger] self.queue(q) == old(self).queue(q) by {}
        }
        let highest = match self.bitmap.highest() {
            Some(h) => h,
            None => return None,
        };
        proof {
            let c = choose|x: int| is_least(old(self).ready(), x);
            assert(is_least(old(self).ready(), c));
            assert(c == highest);
        }
        let prio = Priority::new(highest);
        let len = self.prio_stack.len();
        if len == 0 || self.prio_stack[len - 1].is_lower_than(&prio) {
            self.prio_stack.push(prio);
            proof {
                let pre = old(self).stack();
                assert(self.stack() =~= pre.push(highest as nat));
                assert(len > 0 ==> pre.last() == old(self).prio_stack@[len - 1]@);
                assert forall|i: int, j: int| 0 <= i < j < self.stack().len() implies self.stack()[i] > self.stack()[j] by {
                    if j == len {
                        if i < len - 1 {
                            assert(pre[i] > pre[len - 1]);
                        }
                    }
                }
                assert(self.bitmap@.contains(highest as int));
                assert forall|i: int| 0 <= i < self.stack().len() implies #[trigger] self.stack()[i] < N by {
                    if i < len {
                        assert(self.stack()[i] == pre[i]);
                    }
                }
                assert forall|q: int| 0 <= q < N implies #[trigger] self.queue(q) == old(self).queue(q) by {}
                assert forall|s: int| 0 <= s < self.tasks@.len() && queued_flag(#[trigger] self.tasks@[s].state@)
                    implies self.in_some_queue(s) by {
                    Self::lemma_in_queue_transfer(old(self), self, s);
                }
            }
            Some(RunToken::new(prio))
        } else {
            proof {
                assert(old(self).stack().last() == old(self).prio_stack@[len - 1]@);
            }
            None
        }
    }

    /// Pops the priority of the executor that just finished running.
    pub fn complete_executor(&mut self)
        requires
            old(self).wf(),
        ensures
            final(self).wf(),
            Self::same_work(old(self), final(self)),
            old(self).stack().len() == 0 ==> final(self).stack() == old(self).stack(),
            old(self).stack().len() > 0 ==> final(self).stack() == old(self).stack().drop_last(),
    {
        let ghost pre = *self;
        if self.prio_stack.len() > 0 {
            self.prio_stack.pop();
            proof {
                assert(self.stack() =~= pre.stack().drop_last());
                assert forall|q: int| 0 <= q < N implies #[trigger] self.queue(q) == pre.queue(q) by {}
                assert forall|s: int| 0 <= s < self.tasks@.len() && queued_flag(#[trigger] self.tasks@[s].state@)
                    implies self.in_some_queue(s) by {
                    Self::lemma_in_queue_transfer(&pre, self, s);
                }
            }
        }
    }

    /// One step of running the executor of priority `p`, from `pre` to
    /// `post`, with result `r`: the front task of the queue is taken off (its
    /// queued flag cleared) and is to be polled if it has a live future; or,
    /// on an empty queue, `Idle` with `p` no longer ready.
    pub open spec fn ran_step(pre: &Self, post: &Self, p: int, r: RunStep) -> bool {
        &&& post.stack() == pre.stack()
        &&& post.is_initialized() == pre.is_initialized()
        &&& forall|q: int| 0 <= q < N && q != p ==> #[trigger] post.queue(q) == pre.queue(q)
        &&& pre.queue(p).len() == 0 ==> {
            &&& r == RunStep::Idle
            &&& post.queue(p) == pre.queue(p)
            &&& post.tasks() == pre.tasks()
            &&& post.ready() == pre.ready().remove(p)
        }
        &&& pre.queue(p).len() > 0 ==> {
            let t = pre.queue(p)[0];
            let info = pre.tasks()[t.id as int];
            &&& r == (if info.poll_fn == PollFn::Poll { RunStep::Poll(t) } else { RunStep::Skip(t) })
            &&& post.queue(p) == pre.queue(p).drop_first()
            &&& post.ready() == pre.ready()
            &&& only_changed(pre.tasks(), post.tasks(), t.id as int)
            &&& post.tasks()[t.id as int].state@ == info.state@ & !STATE_RUN_QUEUED
            &&& post.tasks()[t.id as int].executor == info.executor
            &&& post.tasks()[t.id as int].poll_fn == info.poll_fn
        }
    }

    /// The steps of an executor run that nothing interrupts: step `i` takes
    /// the `i`-th task of the queue the run started with, in FIFO order, and
    /// leaves the rest of that queue, with the ready set unchanged; the step
    /// after the last task finds the queue empty, reports `Idle` and clears
    /// the executor's ready bit — the only step that does.
    pub proof fn lemma_run_drains_fifo(states: Seq<Self>, steps: Seq<RunStep>, p: int)
        requires
            0 <= p < N,
            states.len() == steps.len() + 1,
            steps.len() <= states[0].queue(p).len() + 1,
            forall|i: int| 0 <= i < steps.len() ==> Self::ran_step(&states[i], &states[i + 1], p, #[trigger] steps[i]),
        ensures
            forall|i: int| 0 <= i < steps.len() && i < states[0].queue(p).len() ==> {
                let t = states[0].queue(p)[i];
                &&& (#[trigger] steps[i] == RunStep::Poll(t) || steps[i] == RunStep::Skip(t))
                &&& states[i + 1].queue(p) == states[0].queue(p).skip(i + 1)
                &&& states[i + 1].ready() == states[0].ready()
            },
            steps.len() == states[0].queue(p).len() + 1 ==> {
                &&& steps.last() == RunStep::Idle
                &&& states.last().queue(p) == Seq::<TaskRef>::empty()
                &&& states.last().ready() == states[0].ready().remove(p)
            },
        decreases steps.len(),
    {
        let q0 = states[0].queue(p);
        if steps.len() > 0 {
            let n = steps.len() - 1;
            let st = states.drop_last();
            let sp = steps.drop_last();
            assert forall|i: int| 0 <= i < sp.len() implies Self::ran_step(&st[i], &st[i + 1], p, #[trigger] sp[i]) by {
                assert(sp[i] == steps[i]);
                assert(st[i] == states[i] && st[i + 1] == states[i + 1]);
            }
            Self::lemma_run_drains_fifo(st, sp, p);
            assert(st[0] == states[0]);
            assert(states[n].queue(p) == q0.skip(n)) by {
                if n == 0 {
                    assert(q0.skip(0) =~= q0);
                } else {
                    assert(sp[n - 1] == steps[n - 1]);
                    assert(st[n] == states[n]);
                }
            }
            assert(states[n].ready() == states[0].ready()) by {
                if n > 0 {
                    assert(sp[n - 1] == steps[n - 1]);
                    assert(st[n] == states[n]);
                }
            }
            assert(Self::ran_step(&states[n], &states[n + 1], p, steps[n]));
            if n < q0.len() {
                assert(q0.skip(n)[0] == q0[n]);
                assert(q0.skip(n).drop_first() =~= q0.skip(n + 1));
            } else {
                assert(q0.skip(n) =~= Seq::<TaskRef>::empty());
            }
            assert forall|i: int| 0 <= i < steps.len() && i < q0.len() implies {
                let t = q0[i];
                &&& (#[trigger] steps[i] == RunStep::Poll(t) || steps[i] == RunStep::Skip(t))
                &&& states[i + 1].queue(p) == q0.skip(i + 1)
                &&& states[i + 1].ready() == states[0].ready()
            } by {
                if i < n {
                    assert(sp[i] == steps[i]);
                    assert(st[i + 1] == states[i + 1]);
                }
            }
        }
    }

    /// One step of running the executor named by `token`: takes its next
    /// ready task off the queue (to be polled, unless it has already
    /// completed), or reports that the queue is empty and clears the
    /// executor's ready bit.
    pub fn run_step(&mut self, token: &RunToken) -> (r: RunStep)
        requires
            old(self).wf(),
            token@ < N,
        ensures
            final(self).wf(),
            Self::ran_step(old(self), final(self), token@ as int, r),
    {
        let p = token.priority().to_usize();
        proof {
            let q = old(self).queue(p as int);
            assert forall|i: int| 0 <= i < q.len() implies (#[trigger] q[i]).id < old(self).tasks@.len() by {}
        }
        let r = self.executors[p].run_step(&mut self.tasks, &mut self.bitmap);
        proof {
            let pre = old(self);
            let pp = p as int;
            assert forall|q: int| 0 <= q < N && q != pp implies #[trigger] self.queue(q) == pre.queue(q) by {}
            assert(self.stack() == pre.stack());
            if pre.queue(pp).len() == 0 {
                assert(self.tasks@ == pre.tasks@);
                assert forall|q: int| 0 <= q < N implies #[trigger] self.queue(q) == pre.queue(q) by {}
                assert forall|s: int| 0 <= s < self.tasks@.len() && queued_flag(#[trigger] self.tasks@[s].state@)
                    implies self.in_some_queue(s) by {
                    Self::lemma_in_queue_transfer(pre, self, s);
                }
            } else {
                let t = pre.queue(pp)[0];
                let tt = t.id as int;
                lemma_flags(pre.tasks@[tt].state@);
                assert(self.queue(pp) == pre.queue(pp).drop_first());
                // Every other queued entry is a different task than `t`.
                assert forall|q: int, i: int| 0 <= q < N && 0 <= i < self.queue(q).len() implies
                    (#[trigger] self.queue(q)[i]) != t && self.queue(q)[i].id != tt by {
                    if q == pp {
                        assert(self.queue(q)[i] == pre.queue(q)[i + 1]);
                        assert(pre.queue(q).no_duplicates());
                    } else {
                        assert(self.queue(q)[i] == pre.queue(q)[i]);
                        assert(pre.queue(q)[i] != pre.queue(pp)[0]);
                    }
                }
                assert forall|q: int, i: int| 0 <= q < N && 0 <= i < self.queue(q).len() implies
                    (#[trigger] self.queue(q)[i]).id < self.tasks@.len()
                    && queued_flag(self.tasks@[self.queue(q)[i].id as int].state@) by {
                    if q == pp {
                        assert(self.queue(q)[i] == pre.queue(q)[i + 1]);
                    } else {
                        assert(self.queue(q)[i] == pre.queue(q)[i]);
                    }
                    assert(self.queue(q)[i].id != tt);
                }
                assert forall|q: int| 0 <= q < N implies (#[trigger] self.queue(q)).no_duplicates() by {
                    if q == pp {
                        assert forall|i: int, j: int| 0 <= i < j < self.queue(q).len() implies
                            self.queue(q)[i] != self.queue(q)[j] by {
                            assert(pre.queue(q).no_duplicates());
                            assert(self.queue(q)[i] == pre.queue(q)[i + 1]);
                            assert(self.queue(q)[j] == pre.queue(q)[j + 1]);
                        }
                    }
                }
                assert forall|p1: int, p2: int, i: int, j: int|
                    0 <= p1 < N && 0 <= p2 < N && p1 != p2 && 0 <= i < self.queue(p1).len() && 0 <= j < self.queue(p2).len()
                    implies #[trigger] self.queue(p1)[i] != #[trigger] self.queue(p2)[j] by {
                    let a = if p1 == pp { i + 1 } else { i };
                    let b = if p2 == pp { j + 1 } else { j };
                    assert(self.queue(p1)[i] == pre.queue(p1)[a]);
                    assert(self.queue(p2)[j] == pre.queue(p2)[b]);
                }
                assert forall|s: int| 0 <= s < self.tasks@.len() && queued_flag(#[trigger] self.tasks@[s].state@)
                    implies self.in_some_queue(s) by {
                    assert(s != tt);
                    assert(self.tasks@[s] == pre.tasks@[s]);
                    let (q, i) = choose|q: int, i: int| 0 <= q < N && 0 <= i < pre.queue(q).len() && (#[trigger] pre.queue(q)[i]).id == s;
                    if q == pp {
                        assert(i != 0);
                        assert(self.queue(q)[i - 1] == pre.queue(q)[i]);
                    } else {
                        assert(self.queue(q)[i] == pre.queue(q)[i]);
                    }
                }
                assert forall|q: int| 0 <= q < N && self.queue(q).len() > 0 implies #[trigger] self.bitmap@.contains(q) by {
                    if q != pp {
                        assert(self.queue(q) == pre.queue(q));
                    }
                }
                assert forall|s: int| 0 <= s < self.tasks@.len() implies match (#[trigger] self.tasks@[s]).executor {
                    Some(e) => e < N,
                    None => true,
                } by {
                    if s != tt {
                        assert(self.tasks@[s] == pre.tasks@[s]);
                    }
                }
                assert forall|s: int| 0 <= s < self.tasks@.len() && (#[trigger] self.tasks@[s]).executor is Some implies self.initialized by {
                    if s != tt {
                        assert(self.tasks@[s] == pre.tasks@[s]);
                    }
                }
            }
        }
        r
    }

    /// The facts about `post` that follow when only task `t`'s header changed
    /// and its queued flag stayed as it was.
    proof fn lemma_header_update(pre: &Self, post: &Self, t: int)
        requires
            pre.wf(),
            0 <= t < pre.tasks@.len(),
            post.executors@ == pre.executors@,
            post.bitmap == pre.bitmap,
            post.prio_stack@ == pre.prio_stack@,
            post.initialized == pre.initialized,
            only_changed(pre.tasks@, post.tasks@, t),
            queued_flag(post.tasks@[t].state@) == queued_flag(pre.tasks@[t].state@),
            match post.tasks@[t].executor {
                Some(p) => p < N && pre.initialized,
                None => true,
            },
        ensures
            post.wf(),
    {
        assert forall|p: int| 0 <= p < N implies #[trigger] post.queue(p) == pre.queue(p) by {}
        assert(post.stack() == pre.stack());
        assert forall|p: int, i: int| 0 <= p < N && 0 <= i < post.queue(p).len() implies
            queued_flag(post.tasks@[(#[trigger] post.queue(p)[i]).id as int].state@) by {
            let s = post.queue(p)[i].id as int;
            if s != t {
                assert(post.tasks@[s] == pre.tasks@[s]);
            }
        }
        assert forall|s: int| 0 <= s < post.tasks@.len() && queued_flag(#[trigger] post.tasks@[s].state@)
            implies post.in_some_queue(s) by {
            if s != t {
                assert(post.tasks@[s] == pre.tasks@[s]);
            }
            Self::lemma_in_queue_transfer(pre, post, s);
        }
        assert forall|s: int| 0 <= s < post.tasks@.len() implies match (#[trigger] post.tasks@[s]).executor {
            Some(e) => e < N,
            None => true,
        } by {
            if s != t {
                assert(post.tasks@[s] == pre.tasks@[s]);
            }
        }
        assert forall|s: int| 0 <= s < post.tasks@.len() && (#[trigger] post.tasks@[s]).executor is Some implies post.initialized by {
            if s != t {
                assert(post.tasks@[s] == pre.tasks@[s]);
            }
        }
    }

    /// Marks task `t` as spawned; on success its future is the one to poll.
    /// Returns `false` when the task is already spawned.
    pub(crate) fn begin_spawn(&mut self, t: TaskRef) -> (r: bool)
        requires
            old(self).wf(),
            old(self).valid_task(t),
        ensures
            final(self).wf(),
            Self::same_queues(old(self), final(self)),
            r == !spawned_flag(old(self).tasks()[t.id as int].state@),
            only_changed(old(self).tasks(), final(self).tasks(), t.id as int),
            final(self).tasks()[t.id as int].state@ == old(self).tasks()[t.id as int].state@ | STATE_SPAWNED,
            final(self).tasks()[t.id as int].executor == old(self).tasks()[t.id as int].executor,
            final(self).tasks()[t.id as int].poll_fn == (if r { PollFn::Poll } else { old(self).tasks()[t.id as int].poll_fn }),
    {
        let first = self.tasks[t.id].state.spawn();
        if first {
            self.tasks[t.id].poll_fn = PollFn::Poll;
        }
        proof {
            Self::lemma_header_update(old(self), self, t.id as int);
            assert forall|q: int| 0 <= q < N implies #[trigger] self.queue(q) == old(self).queue(q) by {}
            assert(self.stack() == old(self).stack());
        }
        first
    }

    /// Records that task `t`'s future completed: it no longer has an
    /// executor (wakes are ignored), polling it again does nothing, and it
    /// may be spawned again.
    pub(crate) fn finish_task(&mut self, t: TaskRef)
        requires
            old(self).wf(),
            old(self).valid_task(t),
        ensures
            final(self).wf(),
            Self::same_queues(old(self), final(self)),
            only_changed(old(self).tasks(), final(self).tasks(), t.id as int),
            final(self).tasks()[t.id as int].state@ == old(self).tasks()[t.id as int].state@ & !STATE_SPAWNED,
            final(self).tasks()[t.id as int].executor is None,
            final(self).tasks()[t.id as int].poll_fn == PollFn::Exited,
    {
        self.tasks[t.id].executor = None;
        self.tasks[t.id].poll_fn = PollFn::Exited;
        self.tasks[t.id].state.despawn();
        proof {
            Self::lemma_header_update(old(self), self, t.id as int);
            assert forall|q: int| 0 <= q < N implies #[trigger] self.queue(q) == old(self).queue(q) by {}
            assert(self.stack() == old(self).stack());
        }
    }

    /// The queues, ready set and stack of `post` are those of `pre`.
    pub open spec fn same_queues(pre: &Self, post: &Self) -> bool {
        &&& post.ready() == pre.ready()
        &&& post.stack() == pre.stack()
        &&& post.is_initialized() == pre.is_initialized()
        &&& forall|q: int| 0 <= q < N ==> #[trigger] post.queue(q) == pre.queue(q)
    }

    /// What scheduler consistency guarantees: the priority stack is strictly
    /// decreasing in level (each entry preempted the one below it) and never
    /// holds more than `N` entries; only priorities below `N` are ready; an
    /// executor with queued tasks is ready; no task is queued twice, on one
    /// queue or on two; and a task's queued flag is set exactly when it is on
    /// a run queue.
    pub proof fn lemma_wf_facts(s: &Self)
        requires
            s.wf(),
        ensures
            strictly_decreasing(s.stack()),
            s.stack().len() <= N,
            forall|i: int| 0 <= i < s.stack().len() ==> #[trigger] s.stack()[i] < N,
            forall|x: int| #[trigger] s.ready().contains(x) ==> 0 <= x < N,
            forall|p: int| 0 <= p < N && s.queue(p).len() > 0 ==> #[trigger] s.ready().contains(p),
            forall|p: int| 0 <= p < N ==> (#[trigger] s.queue(p)).no_duplicates(),
            forall|p1: int, p2: int, i: int, j: int|
                0 <= p1 < N && 0 <= p2 < N && p1 != p2 && 0 <= i < s.queue(p1).len() && 0 <= j < s.queue(p2).len()
                ==> #[trigger] s.queue(p1)[i] != #[trigger] s.queue(p2)[j],
            forall|t: int| 0 <= t < s.tasks().len() ==> (queued_flag(#[trigger] s.tasks()[t].state@) <==> s.in_some_queue(t)),
    {
        lemma_decreasing_len(s.stack(), N as int);
        assert forall|t: int| 0 <= t < s.tasks().len() implies (queued_flag(#[trigger] s.tasks()[t].state@) <==> s.in_some_queue(t)) by {
            if s.in_some_queue(t) {
                let (p, i) = choose|p: int, i: int| 0 <= p < N && 0 <= i < s.queue(p).len() && (#[trigger] s.queue(p)[i]).id == t;
                assert(queued_flag(s.tasks@[s.queue(p)[i].id as int].state@));
            }
        }
    }

    /// How the executor treats task `t` when it takes it off a run queue.
    pub fn poll_fn(&self, t: TaskRef) -> (r: PollFn)
        requires
            self.valid_task(t),
        ensures
            r == self.tasks()[t.id as int].poll_fn,
    {
        self.tasks[t.id].poll_fn
    }

    /// The flag byte of task `t`.
    pub fn task_state(&self, t: TaskRef) -> (r: u8)
        requires
            self.valid_task(t),
        ensures
            r == self.tasks()[t.id as int].state@,
    {
        self.tasks[t.id].state.bits()
    }

    /// Gives a spawned task to the executor of priority `prio`. Returns the
    /// task's join handle, and whether the task was enqueued: then the
    /// scheduler interrupt is to be pended, so that the new task preempts a
    /// running executor of lower priority before the caller continues.
    pub fn spawn<F: core::future::Future>(&mut self, prio: Priority, token: SpawnToken<F>) -> (r: (JoinHandle<F::Output>, bool))
        requires
            old(self).wf(),
            old(self).is_initialized(),
            prio@ < N,
            old(self).valid_task(token.task()),
        ensures
            final(self).wf(),
            r.0.task() == token.task(),
            r.1 == !queued_flag(old(self).tasks()[token.task().id as int].state@),
            Self::enqueued_on(old(self), final(self), token.task(), prio@ as int, r.1),
    {
        let task = token.task_ref();
        let pend = self.enqueue_on(prio.to_usize(), task);
        (JoinHandle::new(task), pend)
    }

    /// Re-enqueues a woken task on the executor it was last enqueued on.
    /// A task that completed (or was never enqueued) has no executor and is
    /// left alone. Returns whether it was enqueued, i.e. whether the scheduler
    /// interrupt should be pended.
    pub fn wake_task(&mut self, task: TaskRef) -> (r: bool)
        requires
            old(self).wf(),
            old(self).valid_task(task),
        ensures
            final(self).wf(),
            match old(self).tasks()[task.id as int].executor {
                Some(p) => Self::enqueued_on(old(self), final(self), task, p as int, r),
                None => !r && *final(self) == *old(self),
            },
    {
        match self.tasks[task.id].executor {
            Some(p) => self.enqueue_on(p, task),
            None => false,
        }
    }
}

} // verus!
