use std::future::Future;
use std::pin::Pin;
use std::sync::atomic::{AtomicUsize, Ordering};
use std::sync::{Arc, Mutex};
use std::task::{Context, Poll, Wake, Waker};

use rt_async::executor::RunStep;
use rt_async::priority::Priority;
use rt_async::spawner::{RunToken, Spawner};
use rt_async::task::header::TaskRef;
use rt_async::task::storage::TaskStorage;

type Woken = Arc<Mutex<Vec<TaskRef>>>;

/// A waker that records which task asked to be woken.
struct TaskWaker {
    task: TaskRef,
    woken: Woken,
}

impl Wake for TaskWaker {
    fn wake(self: Arc<Self>) {
        self.woken.lock().unwrap().push(self.task);
    }
}

trait Slot<const N: usize> {
    fn slot_task(&self) -> Option<TaskRef>;
    fn poll_once(&mut self, sp: &mut Spawner<N>, woken: &Woken);
}

impl<F: Future + Unpin, const N: usize> Slot<N> for TaskStorage<F> {
    fn slot_task(&self) -> Option<TaskRef> {
        self.task_ref()
    }

    fn poll_once(&mut self, sp: &mut Spawner<N>, woken: &Woken) {
        let t = self.task_ref().unwrap();
        let waker = Waker::from(Arc::new(TaskWaker { task: t, woken: woken.clone() }));
        let mut cx = Context::from_waker(&waker);
        let out = match Pin::new(self.future_mut()).poll(&mut cx) {
            Poll::Ready(v) => Some(v),
            Poll::Pending => None,
        };
        if let Some(v) = out {
            if let Some(w) = self.complete(sp, v) {
                w.wake();
            }
        }
    }
}

fn deliver_wakes<const N: usize>(sp: &mut Spawner<N>, woken: &Woken) {
    let ws: Vec<TaskRef> = woken.lock().unwrap().drain(..).collect();
    for w in ws {
        sp.wake_task(w);
    }
}

/// Runs the executor named by `rt` until its queue is empty.
fn run<const N: usize>(sp: &mut Spawner<N>, rt: &RunToken, slots: &mut [&mut dyn Slot<N>], woken: &Woken) {
    loop {
        match sp.run_step(rt) {
            RunStep::Poll(t) => {
                for s in slots.iter_mut() {
                    if s.slot_task() == Some(t) {
                        s.poll_once(sp, woken);
                        break;
                    }
                }
                deliver_wakes(sp, woken);
            }
            RunStep::Skip(_) => {}
            RunStep::Idle => break,
        }
    }
}

/// The scheduler loop: preempt, run, complete, until nothing is ready.
fn run_all<const N: usize>(sp: &mut Spawner<N>, slots: &mut [&mut dyn Slot<N>], woken: &Woken) -> Vec<usize> {
    let mut order = Vec::new();
    while let Some(rt) = sp.try_preempt() {
        order.push(rt.priority().to_usize());
        run(sp, &rt, slots, woken);
        sp.complete_executor();
    }
    order
}

fn new_spawner<const N: usize>() -> Spawner<N> {
    let mut sp = Spawner::new();
    sp.init();
    sp
}

fn woken() -> Woken {
    Arc::new(Mutex::new(Vec::new()))
}

/// Completes at once, counting its polls.
struct Count(&'static AtomicUsize);

impl Future for Count {
    type Output = ();
    fn poll(self: Pin<&mut Self>, _cx: &mut Context<'_>) -> Poll<()> {
        self.0.fetch_add(1, Ordering::Relaxed);
        Poll::Ready(())
    }
}

/// Wakes itself and stays pending for the first `pending` polls.
struct YieldN {
    polls: &'static AtomicUsize,
    pending: usize,
    wake: bool,
}

impl Future for YieldN {
    type Output = ();
    fn poll(self: Pin<&mut Self>, cx: &mut Context<'_>) -> Poll<()> {
        let n = self.polls.fetch_add(1, Ordering::Relaxed);
        if n < self.pending {
            if self.wake {
                cx.waker().wake_by_ref();
            }
            Poll::Pending
        } else {
            Poll::Ready(())
        }
    }
}

/// Records its label in a shared log when polled, then completes.
struct Record(usize, &'static Mutex<Vec<usize>>);

impl Future for Record {
    type Output = ();
    fn poll(self: Pin<&mut Self>, _cx: &mut Context<'_>) -> Poll<()> {
        self.1.lock().unwrap().push(self.0);
        Poll::Ready(())
    }
}

/// Ready once `flag` is 1; otherwise stores its waker and stays pending.
struct WaitFlag(&'static AtomicUsize, &'static Mutex<Option<Waker>>);

impl Future for WaitFlag {
    type Output = ();
    fn poll(self: Pin<&mut Self>, cx: &mut Context<'_>) -> Poll<()> {
        if self.0.load(Ordering::Acquire) == 1 {
            Poll::Ready(())
        } else {
            *self.1.lock().unwrap() = Some(cx.waker().clone());
            Poll::Pending
        }
    }
}

/// Sets `flag` to 1 and wakes the stored waker.
struct Signal(&'static AtomicUsize, &'static Mutex<Option<Waker>>);

impl Future for Signal {
    type Output = ();
    fn poll(self: Pin<&mut Self>, _cx: &mut Context<'_>) -> Poll<()> {
        self.0.store(1, Ordering::Release);
        if let Some(w) = self.1.lock().unwrap().take() {
            w.wake();
        }
        Poll::Ready(())
    }
}

// ---- single executor ----

#[test]
fn ready_future() {
    static N: AtomicUsize = AtomicUsize::new(0);
    let mut sp: Spawner<1> = new_spawner();
    let w = woken();
    let mut task = TaskStorage::new();
    let tok = task.spawn(&mut sp, || Count(&N)).unwrap();
    sp.spawn(Priority::new(0), tok);
    let rt = sp.try_preempt().unwrap();
    run(&mut sp, &rt, &mut [&mut task], &w);
    assert_eq!(N.load(Ordering::Relaxed), 1);
}

#[test]
fn pending_then_ready() {
    static POLL_COUNT: AtomicUsize = AtomicUsize::new(0);
    let mut sp: Spawner<1> = new_spawner();
    let w = woken();
    let mut task = TaskStorage::new();
    let tok = task.spawn(&mut sp, || YieldN { polls: &POLL_COUNT, pending: 1, wake: true }).unwrap();
    sp.spawn(Priority::new(0), tok);
    let rt = sp.try_preempt().unwrap();
    run(&mut sp, &rt, &mut [&mut task], &w);
    assert_eq!(POLL_COUNT.load(Ordering::Relaxed), 2);
}

#[test]
fn multiple_tasks() {
    static DONE: AtomicUsize = AtomicUsize::new(0);
    let mut sp: Spawner<1> = new_spawner();
    let w = woken();
    let mut a = TaskStorage::new();
    let mut b = TaskStorage::new();
    let ta = a.spawn(&mut sp, || Count(&DONE)).unwrap();
    sp.spawn(Priority::new(0), ta);
    let tb = b.spawn(&mut sp, || Count(&DONE)).unwrap();
    sp.spawn(Priority::new(0), tb);
    let rt = sp.try_preempt().unwrap();
    run(&mut sp, &rt, &mut [&mut a, &mut b], &w);
    assert_eq!(DONE.load(Ordering::Relaxed), 2);
}

#[test]
fn empty_run() {
    let mut sp: Spawner<1> = new_spawner();
    let w = woken();
    let rt = RunToken::new(Priority::new(0));
    run(&mut sp, &rt, &mut [], &w);
    assert!(sp.try_preempt().is_none());
}

#[test]
fn multi_poll() {
    static POLLS: AtomicUsize = AtomicUsize::new(0);
    let mut sp: Spawner<1> = new_spawner();
    let w = woken();
    let mut task = TaskStorage::new();
    let tok = task.spawn(&mut sp, || YieldN { polls: &POLLS, pending: 4, wake: true }).unwrap();
    sp.spawn(Priority::new(0), tok);
    let rt = sp.try_preempt().unwrap();
    run(&mut sp, &rt, &mut [&mut task], &w);
    assert_eq!(POLLS.load(Ordering::Relaxed), 5);
}

#[test]
fn inter_task_waking() {
    static FLAG: AtomicUsize = AtomicUsize::new(0);
    static WAKER: Mutex<Option<Waker>> = Mutex::new(None);
    let mut sp: Spawner<1> = new_spawner();
    let w = woken();
    let mut wait = TaskStorage::new();
    let mut signal = TaskStorage::new();
    let t1 = wait.spawn(&mut sp, || WaitFlag(&FLAG, &WAKER)).unwrap();
    sp.spawn(Priority::new(0), t1);
    let t2 = signal.spawn(&mut sp, || Signal(&FLAG, &WAKER)).unwrap();
    sp.spawn(Priority::new(0), t2);
    let rt = sp.try_preempt().unwrap();
    run(&mut sp, &rt, &mut [&mut wait, &mut signal], &w);
    assert_eq!(FLAG.load(Ordering::Relaxed), 1);
    assert!(wait.future_is_done());
}

#[test]
fn pending_no_wake() {
    static POLLS: AtomicUsize = AtomicUsize::new(0);
    let mut sp: Spawner<1> = new_spawner();
    let w = woken();
    let mut task = TaskStorage::new();
    let tok = task.spawn(&mut sp, || YieldN { polls: &POLLS, pending: usize::MAX, wake: false }).unwrap();
    sp.spawn(Priority::new(0), tok);
    let rt = sp.try_preempt().unwrap();
    run(&mut sp, &rt, &mut [&mut task], &w);
    assert_eq!(POLLS.load(Ordering::Relaxed), 1);
}

#[test]
fn respawn_after_completion() {
    static COUNT: AtomicUsize = AtomicUsize::new(0);
    let mut sp: Spawner<1> = new_spawner();
    let w = woken();
    let mut task = TaskStorage::new();

    let tok = task.spawn(&mut sp, || Count(&COUNT)).unwrap();
    sp.spawn(Priority::new(0), tok);
    let rt = sp.try_preempt().unwrap();
    run(&mut sp, &rt, &mut [&mut task], &w);
    sp.complete_executor();
    assert_eq!(COUNT.load(Ordering::Relaxed), 1);

    let tok = task.spawn(&mut sp, || Count(&COUNT)).unwrap();
    sp.spawn(Priority::new(0), tok);
    let rt = sp.try_preempt().unwrap();
    run(&mut sp, &rt, &mut [&mut task], &w);
    assert_eq!(COUNT.load(Ordering::Relaxed), 2);
}

#[test]
fn run_multiple_times() {
    static COUNT: AtomicUsize = AtomicUsize::new(0);
    let mut sp: Spawner<1> = new_spawner();
    let w = woken();
    let mut a = TaskStorage::new();
    let mut b = TaskStorage::new();

    let ta = a.spawn(&mut sp, || Count(&COUNT)).unwrap();
    sp.spawn(Priority::new(0), ta);
    let rt = sp.try_preempt().unwrap();
    run(&mut sp, &rt, &mut [&mut a, &mut b], &w);
    sp.complete_executor();
    assert_eq!(COUNT.load(Ordering::Relaxed), 1);

    let tb = b.spawn(&mut sp, || Count(&COUNT)).unwrap();
    sp.spawn(Priority::new(0), tb);
    let rt = sp.try_preempt().unwrap();
    run(&mut sp, &rt, &mut [&mut a, &mut b], &w);
    assert_eq!(COUNT.load(Ordering::Relaxed), 2);
}

#[test]
fn many_tasks() {
    static DONE: AtomicUsize = AtomicUsize::new(0);
    let mut sp: Spawner<1> = new_spawner();
    let w = woken();
    let mut tasks: Vec<TaskStorage<Count>> = (0..8).map(|_| TaskStorage::new()).collect();
    for t in tasks.iter_mut() {
        let tok = t.spawn(&mut sp, || Count(&DONE)).unwrap();
        sp.spawn(Priority::new(0), tok);
    }
    let rt = sp.try_preempt().unwrap();
    let mut slots: Vec<&mut dyn Slot<1>> = tasks.iter_mut().map(|t| t as &mut dyn Slot<1>).collect();
    run(&mut sp, &rt, &mut slots, &w);
    assert_eq!(DONE.load(Ordering::Relaxed), 8);
}

// ---- spawner ----

#[test]
fn spawner_new_creates_empty() {
    let mut sp: Spawner<4> = new_spawner();
    assert!(sp.try_preempt().is_none());
}

#[test]
fn spawn_and_run_single_task() {
    static DONE: AtomicUsize = AtomicUsize::new(0);
    let mut sp: Spawner<4> = new_spawner();
    let w = woken();
    let mut task = TaskStorage::new();
    let tok = task.spawn(&mut sp, || Count(&DONE)).unwrap();
    sp.spawn(Priority::new(0), tok);

    let rt = sp.try_preempt().unwrap();
    run(&mut sp, &rt, &mut [&mut task], &w);
    sp.complete_executor();
    assert_eq!(DONE.load(Ordering::Relaxed), 1);
    assert!(sp.try_preempt().is_none());
}

#[test]
fn spawn_multiple_priorities() {
    static DONE: AtomicUsize = AtomicUsize::new(0);
    let mut sp: Spawner<4> = new_spawner();
    let w = woken();
    let mut t0 = TaskStorage::new();
    let mut t1 = TaskStorage::new();
    let mut t2 = TaskStorage::new();
    let k = t0.spawn(&mut sp, || Count(&DONE)).unwrap();
    sp.spawn(Priority::new(0), k);
    let k = t1.spawn(&mut sp, || Count(&DONE)).unwrap();
    sp.spawn(Priority::new(1), k);
    let k = t2.spawn(&mut sp, || Count(&DONE)).unwrap();
    sp.spawn(Priority::new(2), k);

    run_all(&mut sp, &mut [&mut t0, &mut t1, &mut t2], &w);
    assert_eq!(DONE.load(Ordering::Relaxed), 3);
}

#[test]
fn preempt_higher_priority_first() {
    static ORDER: Mutex<Vec<usize>> = Mutex::new(Vec::new());
    let mut sp: Spawner<4> = new_spawner();
    let w = woken();
    let mut low = TaskStorage::new();
    let mut high = TaskStorage::new();
    let k = low.spawn(&mut sp, || Record(2, &ORDER)).unwrap();
    sp.spawn(Priority::new(2), k);
    let k = high.spawn(&mut sp, || Record(0, &ORDER)).unwrap();
    sp.spawn(Priority::new(0), k);

    run_all(&mut sp, &mut [&mut low, &mut high], &w);
    let order = ORDER.lock().unwrap();
    assert_eq!(*order, vec![0, 2]);
}

#[test]
fn complete_executor_pops_stack() {
    static DONE: AtomicUsize = AtomicUsize::new(0);
    let mut sp: Spawner<4> = new_spawner();
    let w = woken();
    let mut t0 = TaskStorage::new();
    let mut t1 = TaskStorage::new();
    let k = t0.spawn(&mut sp, || Count(&DONE)).unwrap();
    sp.spawn(Priority::new(0), k);
    let k = t1.spawn(&mut sp, || Count(&DONE)).unwrap();
    sp.spawn(Priority::new(1), k);

    let rt = sp.try_preempt().unwrap();
    assert_eq!(rt.priority().to_usize(), 0);
    run(&mut sp, &rt, &mut [&mut t0, &mut t1], &w);
    sp.complete_executor();

    let rt = sp.try_preempt().unwrap();
    assert_eq!(rt.priority().to_usize(), 1);
    run(&mut sp, &rt, &mut [&mut t0, &mut t1], &w);
    sp.complete_executor();

    assert!(sp.try_preempt().is_none());
}

#[test]
fn no_preempt_when_current_is_highest() {
    static POLLS: AtomicUsize = AtomicUsize::new(0);
    static DONE: AtomicUsize = AtomicUsize::new(0);
    let mut sp: Spawner<4> = new_spawner();
    let w = woken();
    let mut high = TaskStorage::new();
    let mut low = TaskStorage::new();
    let k = high.spawn(&mut sp, || YieldN { polls: &POLLS, pending: usize::MAX, wake: false }).unwrap();
    sp.spawn(Priority::new(0), k);
    let k = low.spawn(&mut sp, || Count(&DONE)).unwrap();
    sp.spawn(Priority::new(2), k);

    let rt = sp.try_preempt().unwrap();
    assert_eq!(rt.priority().to_usize(), 0);
    run(&mut sp, &rt, &mut [&mut high, &mut low], &w);
    sp.complete_executor();

    let rt = sp.try_preempt().unwrap();
    assert_eq!(rt.priority().to_usize(), 2);
    run(&mut sp, &rt, &mut [&mut high, &mut low], &w);
    sp.complete_executor();

    assert!(sp.try_preempt().is_none());
}

#[test]
fn wake_from_task() {
    static FLAG: AtomicUsize = AtomicUsize::new(0);
    static WAKER_STORE: Mutex<Option<Waker>> = Mutex::new(None);
    let mut sp: Spawner<4> = new_spawner();
    let w = woken();
    let mut task = TaskStorage::new();
    let k = task.spawn(&mut sp, || WaitFlag(&FLAG, &WAKER_STORE)).unwrap();
    sp.spawn(Priority::new(0), k);

    let rt = sp.try_preempt().unwrap();
    run(&mut sp, &rt, &mut [&mut task], &w);
    sp.complete_executor();

    FLAG.store(1, Ordering::Relaxed);
    if let Some(waker) = WAKER_STORE.lock().unwrap().take() {
        waker.wake();
    }
    deliver_wakes(&mut sp, &w);

    let rt = sp.try_preempt().unwrap();
    run(&mut sp, &rt, &mut [&mut task], &w);
    sp.complete_executor();

    assert!(sp.try_preempt().is_none());
}

#[test]
fn single_priority_spawner() {
    static DONE: AtomicUsize = AtomicUsize::new(0);
    let mut sp: Spawner<1> = new_spawner();
    let w = woken();
    let mut t = TaskStorage::new();
    let k = t.spawn(&mut sp, || Count(&DONE)).unwrap();
    sp.spawn(Priority::new(0), k);

    let rt = sp.try_preempt().unwrap();
    run(&mut sp, &rt, &mut [&mut t], &w);
    sp.complete_executor();
    assert_eq!(DONE.load(Ordering::Relaxed), 1);
}

#[test]
fn respawn_and_re_run() {
    static COUNT: AtomicUsize = AtomicUsize::new(0);
    let mut sp: Spawner<4> = new_spawner();
    let w = woken();
    let mut task = TaskStorage::new();
    for _ in 0..3 {
        let token = task.spawn(&mut sp, || Count(&COUNT)).unwrap();
        sp.spawn(Priority::new(0), token);
        let rt = sp.try_preempt().unwrap();
        run(&mut sp, &rt, &mut [&mut task], &w);
        sp.complete_executor();
    }
    assert_eq!(COUNT.load(Ordering::Relaxed), 3);
}

#[test]
fn inter_task_wake_across_priorities() {
    static SIGNALED: AtomicUsize = AtomicUsize::new(0);
    static WAKER_STORE: Mutex<Option<Waker>> = Mutex::new(None);
    let mut sp: Spawner<4> = new_spawner();
    let w = woken();
    let mut wait = TaskStorage::new();
    let mut signal = TaskStorage::new();
    let k = wait.spawn(&mut sp, || WaitFlag(&SIGNALED, &WAKER_STORE)).unwrap();
    sp.spawn(Priority::new(0), k);
    let k = signal.spawn(&mut sp, || Signal(&SIGNALED, &WAKER_STORE)).unwrap();
    sp.spawn(Priority::new(1), k);

    let rt = sp.try_preempt().unwrap();
    assert_eq!(rt.priority().to_usize(), 0);
    run(&mut sp, &rt, &mut [&mut wait, &mut signal], &w);
    sp.complete_executor();

    let rt = sp.try_preempt().unwrap();
    assert_eq!(rt.priority().to_usize(), 1);
    run(&mut sp, &rt, &mut [&mut wait, &mut signal], &w);
    sp.complete_executor();

    let rt = sp.try_preempt().unwrap();
    assert_eq!(rt.priority().to_usize(), 0);
    run(&mut sp, &rt, &mut [&mut wait, &mut signal], &w);
    sp.complete_executor();

    assert!(sp.try_preempt().is_none());
    assert_eq!(SIGNALED.load(Ordering::Relaxed), 1);
}

#[test]
fn try_preempt_returns_none_when_bitmap_clear() {
    let mut sp: Spawner<4> = new_spawner();
    assert!(sp.try_preempt().is_none());
}

#[test]
fn max_priorities_spawner() {
    static DONE: AtomicUsize = AtomicUsize::new(0);
    let mut sp: Spawner<64> = new_spawner();
    let w = woken();
    let mut t0 = TaskStorage::new();
    let mut t63 = TaskStorage::new();
    let k = t63.spawn(&mut sp, || Count(&DONE)).unwrap();
    sp.spawn(Priority::new(63), k);
    let k = t0.spawn(&mut sp, || Count(&DONE)).unwrap();
    sp.spawn(Priority::new(0), k);

    let rt = sp.try_preempt().unwrap();
    assert_eq!(rt.priority().to_usize(), 0);
    run(&mut sp, &rt, &mut [&mut t0, &mut t63], &w);
    sp.complete_executor();

    let rt = sp.try_preempt().unwrap();
    assert_eq!(rt.priority().to_usize(), 63);
    run(&mut sp, &rt, &mut [&mut t0, &mut t63], &w);
    sp.complete_executor();

    assert!(sp.try_preempt().is_none());
    assert_eq!(DONE.load(Ordering::Relaxed), 2);
}

#[test]
fn run_token_new_priority() {
    let rt = RunToken::new(Priority::new(42));
    assert_eq!(rt.priority().to_usize(), 42);
}

// ---- scheduling order (same scenarios as the on-target test programs) ----

#[test]
fn priority_order_high_mid_low() {
    static LOG: Mutex<Vec<usize>> = Mutex::new(Vec::new());
    let mut sp: Spawner<4> = new_spawner();
    let w = woken();
    let mut low = TaskStorage::new();
    let mut mid = TaskStorage::new();
    let mut high = TaskStorage::new();
    let k = low.spawn(&mut sp, || Record(2, &LOG)).unwrap();
    sp.spawn(Priority::new(2), k);
    let k = mid.spawn(&mut sp, || Record(1, &LOG)).unwrap();
    sp.spawn(Priority::new(1), k);
    let k = high.spawn(&mut sp, || Record(0, &LOG)).unwrap();
    sp.spawn(Priority::new(0), k);
    let order = run_all(&mut sp, &mut [&mut low, &mut mid, &mut high], &w);
    assert_eq!(*LOG.lock().unwrap(), vec![0, 1, 2]);
    assert_eq!(order, vec![0, 1, 2]);
}

#[test]
fn fifo_same_priority() {
    static LOG: Mutex<Vec<usize>> = Mutex::new(Vec::new());
    let mut sp: Spawner<4> = new_spawner();
    let w = woken();
    let mut a = TaskStorage::new();
    let mut b = TaskStorage::new();
    let mut c = TaskStorage::new();
    let k = a.spawn(&mut sp, || Record(10, &LOG)).unwrap();
    sp.spawn(Priority::new(0), k);
    let k = b.spawn(&mut sp, || Record(11, &LOG)).unwrap();
    sp.spawn(Priority::new(0), k);
    let k = c.spawn(&mut sp, || Record(12, &LOG)).unwrap();
    sp.spawn(Priority::new(0), k);
    run_all(&mut sp, &mut [&mut c, &mut b, &mut a], &w);
    assert_eq!(*LOG.lock().unwrap(), vec![10, 11, 12]);
}

#[test]
fn double_wake_enqueues_once() {
    static POLLS: AtomicUsize = AtomicUsize::new(0);
    let mut sp: Spawner<2> = new_spawner();
    let mut task = TaskStorage::new();
    let k = task.spawn(&mut sp, || YieldN { polls: &POLLS, pending: 1, wake: false }).unwrap();
    sp.spawn(Priority::new(1), k);
    let t = task.task_ref().unwrap();
    assert!(!sp.wake_task(t));
    assert!(!sp.wake_task(t));
    let w = woken();
    run_all(&mut sp, &mut [&mut task], &w);
    assert_eq!(POLLS.load(Ordering::Relaxed), 1);
    assert!(sp.wake_task(t));
    assert!(!sp.wake_task(t));
    run_all(&mut sp, &mut [&mut task], &w);
    assert_eq!(POLLS.load(Ordering::Relaxed), 2);
    assert!(!sp.wake_task(t));
}

#[test]
fn nested_preemption_stack() {
    let mut sp: Spawner<4> = new_spawner();
    let mut low = TaskStorage::<Count>::new();
    let mut mid = TaskStorage::<Count>::new();
    static DONE: AtomicUsize = AtomicUsize::new(0);
    let k = low.spawn(&mut sp, || Count(&DONE)).unwrap();
    sp.spawn(Priority::new(2), k);
    let rt = sp.try_preempt().unwrap();
    assert_eq!(rt.priority().to_usize(), 2);
    // While priority 2 runs, a priority-1 task becomes ready: it preempts.
    let k = mid.spawn(&mut sp, || Count(&DONE)).unwrap();
    sp.spawn(Priority::new(1), k);
    let rt1 = sp.try_preempt().unwrap();
    assert_eq!(rt1.priority().to_usize(), 1);
    // Priority 1 is now running; priority 2 is not higher, so no preemption.
    assert!(sp.try_preempt().is_none());
    let w = woken();
    run(&mut sp, &rt1, &mut [&mut low, &mut mid], &w);
    sp.complete_executor();
    // Back on priority 2 (still on the stack): nothing higher is ready.
    assert!(sp.try_preempt().is_none());
    run(&mut sp, &rt, &mut [&mut low, &mut mid], &w);
    sp.complete_executor();
    assert!(sp.try_preempt().is_none());
    assert_eq!(DONE.load(Ordering::Relaxed), 2);
}

#[test]
fn yield_interleave_same_priority() {
    static LOG: Mutex<Vec<usize>> = Mutex::new(Vec::new());

    /// Logs its label, yields once (waking itself), then logs again.
    struct YieldOnce(usize, bool);
    impl Future for YieldOnce {
        type Output = ();
        fn poll(mut self: Pin<&mut Self>, cx: &mut Context<'_>) -> Poll<()> {
            LOG.lock().unwrap().push(self.0);
            if self.1 {
                Poll::Ready(())
            } else {
                self.1 = true;
                cx.waker().wake_by_ref();
                Poll::Pending
            }
        }
    }

    let mut sp: Spawner<4> = new_spawner();
    let w = woken();
    let mut a = TaskStorage::new();
    let mut b = TaskStorage::new();
    let k = a.spawn(&mut sp, || YieldOnce(1, false)).unwrap();
    sp.spawn(Priority::new(0), k);
    let k = b.spawn(&mut sp, || YieldOnce(2, false)).unwrap();
    sp.spawn(Priority::new(0), k);
    run_all(&mut sp, &mut [&mut a, &mut b], &w);
    assert_eq!(*LOG.lock().unwrap(), vec![1, 2, 1, 2]);
}

#[test]
fn spawn_asks_for_preemption() {
    static LOG: Mutex<Vec<usize>> = Mutex::new(Vec::new());
    let mut sp: Spawner<4> = new_spawner();
    let w = woken();
    let mut low = TaskStorage::new();
    let mut high = TaskStorage::new();
    let k = low.spawn(&mut sp, || Record(2, &LOG)).unwrap();
    let (_, pend) = sp.spawn(Priority::new(2), k);
    assert!(pend);
    let rt_low = sp.try_preempt().unwrap();
    // Priority 2 runs and spawns a priority-0 task: the spawn asks for the
    // scheduler interrupt, which switches to priority 0 at once.
    let k = high.spawn(&mut sp, || Record(0, &LOG)).unwrap();
    let (_, pend) = sp.spawn(Priority::new(0), k);
    assert!(pend);
    let rt_high = sp.try_preempt().unwrap();
    assert_eq!(rt_high.priority().to_usize(), 0);
    run(&mut sp, &rt_high, &mut [&mut low, &mut high], &w);
    sp.complete_executor();
    run(&mut sp, &rt_low, &mut [&mut low, &mut high], &w);
    sp.complete_executor();
    assert_eq!(*LOG.lock().unwrap(), vec![0, 2]);
    assert!(sp.try_preempt().is_none());
}

#[test]
fn spawn_of_queued_task_asks_nothing() {
    static POLLS: AtomicUsize = AtomicUsize::new(0);
    let mut sp: Spawner<2> = new_spawner();
    let w = woken();
    let mut task = TaskStorage::new();
    let k = task.spawn(&mut sp, || YieldN { polls: &POLLS, pending: 1, wake: true }).unwrap();
    let (_, pend) = sp.spawn(Priority::new(1), k);
    assert!(pend);
    let rt = sp.try_preempt().unwrap();
    // The pending task woke itself and is queued again when it completes below.
    run(&mut sp, &rt, &mut [&mut task], &w);
    sp.complete_executor();
    assert_eq!(POLLS.load(Ordering::Relaxed), 2);
}
