//! Async mutex with a bounded FIFO queue of waiting lock futures.
//!
//! Waiting lock futures are identified by a waiter id (the identity of the
//! slot holding their waker); whoever drives the futures keeps the wakers
//! and wakes the waiter that `MutexGuard::release` names.
use vstd::prelude::*;

verus! {

/// Mutex holding a `T`, with room for `N` queued waiters.
pub struct Mutex<T, const N: usize> {
    locked: bool,
    value: T,
    waiters: Vec<usize>,
}

/// A pending `lock()`: its waiter id and whether it is on the waiter queue.
pub struct MutexLockFuture {
    waiter: usize,
    queued: bool,
}

/// Proof of holding the lock, returned when a lock future completes.
pub struct MutexGuard(());

/// `s` with the first occurrence of `x` removed, if any.
pub open spec fn removed(s: Seq<usize>, x: usize, r: Seq<usize>) -> bool {
    &&& !s.contains(x) ==> r == s
    &&& s.contains(x) ==> exists|i: int| 0 <= i < s.len() && s[i] == x && r == s.remove(i)
}

/// Filtering out a value that does not occur leaves the sequence as it is.
proof fn lemma_filter_absent(t: Seq<usize>, x: usize)
    requires
        !t.contains(x),
    ensures
        t.filter(|w: usize| w != x) == t,
    decreases t.len(),
{
    reveal(Seq::filter);
    if t.len() > 0 {
        let u = t.drop_last();
        assert(!u.contains(x)) by {
            if u.contains(x) {
                let k = choose|k: int| 0 <= k < u.len() && u[k] == x;
                assert(t[k] == x);
            }
        }
        lemma_filter_absent(u, x);
        assert(t.last() != x);
        assert(u.push(t.last()) =~= t);
    }
}

/// In a sequence without repeats, removing the one occurrence of `x` is
/// filtering `x` out.
proof fn lemma_remove_is_filter(s: Seq<usize>, i: int, x: usize)
    requires
        s.no_duplicates(),
        0 <= i < s.len(),
        s[i] == x,
    ensures
        s.remove(i) == s.filter(|w: usize| w != x),
    decreases s.len(),
{
    reveal(Seq::filter);
    let u = s.drop_last();
    if i == s.len() - 1 {
        assert(!u.contains(x)) by {
            if u.contains(x) {
                let k = choose|k: int| 0 <= k < u.len() && u[k] == x;
                assert(s[k] == s[i]);
            }
        }
        lemma_filter_absent(u, x);
        assert(s.remove(i) =~= u);
    } else {
        assert(u.no_duplicates()) by {
            assert forall|a: int, b: int| 0 <= a < b < u.len() implies u[a] != u[b] by {
                assert(u[a] == s[a] && u[b] == s[b]);
            }
        }
        assert(u[i] == x);
        lemma_remove_is_filter(u, i, x);
        assert(s.last() != x);
        assert(s.remove(i) =~= u.remove(i).push(s.last()));
    }
}

/// Taking a waiter off a queue without repeats is filtering its id out: the
/// waiter is gone, wherever it stood, and every other waiter stays, in the
/// same order.
pub proof fn lemma_removed_is_filter(s: Seq<usize>, x: usize, r: Seq<usize>)
    requires
        s.no_duplicates(),
        removed(s, x, r),
    ensures
        r == s.filter(|w: usize| w != x),
        !r.contains(x),
        forall|w: usize| w != x ==> (r.contains(w) <==> s.contains(w)),
{
    if s.contains(x) {
        let i = choose|i: int| 0 <= i < s.len() && s[i] == x && r == s.remove(i);
        lemma_remove_is_filter(s, i, x);
    } else {
        lemma_filter_absent(s, x);
    }
    s.filter_lemma(|w: usize| w != x);
    assert forall|w: usize| w != x implies (r.contains(w) <==> s.contains(w)) by {
        if r.contains(w) {
            s.lemma_filter_contains_rev(|w: usize| w != x, w);
        }
        if s.contains(w) {
            let k = choose|k: int| 0 <= k < s.len() && s[k] == w;
            assert(r.contains(s[k]));
        }
    }
    assert(!r.contains(x)) by {
        if r.contains(x) {
            let k = choose|k: int| 0 <= k < r.len() && r[k] == x;
            assert(r[k] != x);
        }
    }
}

/// Removes `x` from the queue when present.
fn remove_waiter(waiters: &mut Vec<usize>, x: usize)
    ensures
        removed(old(waiters)@, x, final(waiters)@),
{
    let mut i: usize = 0;
    while i < waiters.len()
        invariant
            i <= waiters@.len(),
            waiters@ == old(waiters)@,
            forall|j: int| 0 <= j < i ==> waiters@[j] != x,
        decreases waiters@.len() - i,
    {
        if waiters[i] == x {
            waiters.remove(i);
            return;
        }
        i = i + 1;
    }
}

impl MutexLockFuture {
    pub fn is_queued(&self) -> (r: bool)
        ensures
            r == self.queued(),
    {
        self.queued
    }

    pub closed spec fn waiter(&self) -> usize {
        self.waiter
    }

    pub closed spec fn queued(&self) -> bool {
        self.queued
    }
}

impl<T, const N: usize> Mutex<T, N> {
    pub closed spec fn locked(&self) -> bool {
        self.locked
    }

    pub closed spec fn value(&self) -> T {
        self.value
    }

    /// Queued waiters, first come first.
    pub closed spec fn waiters(&self) -> Seq<usize> {
        self.waiters@
    }

    /// No waiter is queued twice, and the queue fits its capacity.
    pub open spec fn wf(&self) -> bool {
        &&& self.waiters().no_duplicates()
        &&& self.waiters().len() <= N
    }

    /// An unlocked mutex holding `value`.
    pub fn new(value: T) -> (r: Self)
        ensures
            r.wf(),
            !r.locked(),
            r.value() == value,
            r.waiters() == Seq::<usize>::empty(),
    {
        Mutex { locked: false, value, waiters: Vec::new() }
    }

    pub fn is_locked(&self) -> (r: bool)
        ensures
            r == self.locked(),
    {
        self.locked
    }

    /// Number of queued waiters.
    pub fn waiter_count(&self) -> (r: usize)
        ensures
            r == self.waiters().len(),
    {
        self.waiters.len()
    }

    /// Starts acquiring the lock; `waiter` identifies the returned future.
    pub fn lock(&self, waiter: usize) -> (r: MutexLockFuture)
        ensures
            r.waiter() == waiter,
            !r.queued(),
    {
        MutexLockFuture { waiter, queued: false }
    }
}

impl MutexLockFuture {
    /// Polls for the lock. When the mutex is free the lock is taken, this
    /// waiter leaves the queue and a guard is returned. Otherwise this
    /// waiter joins the back of the queue (once) and `None` is returned.
    pub fn poll<T, const N: usize>(&mut self, mutex: &mut Mutex<T, N>) -> (r: Option<MutexGuard>)
        requires
            old(mutex).wf(),
            !old(self).queued() ==> !old(mutex).waiters().contains(old(self).waiter()),
            old(mutex).locked() && !old(self).queued() ==> old(mutex).waiters().len() < N,
        ensures
            final(mutex).wf(),
            final(mutex).value() == old(mutex).value(),
            final(self).waiter() == old(self).waiter(),
            final(mutex).locked(),
            !old(mutex).locked() ==> {
                &&& r is Some
                &&& final(self).queued() == old(self).queued()
                &&& old(self).queued() ==> removed(old(mutex).waiters(), old(self).waiter(), final(mutex).waiters())
                &&& old(self).queued() ==> final(mutex).waiters() == old(mutex).waiters().filter(|w: usize| w != old(self).waiter())
                &&& !final(mutex).waiters().contains(old(self).waiter())
                &&& !old(self).queued() ==> final(mutex).waiters() == old(mutex).waiters()
            },
            old(mutex).locked() ==> {
                &&& r is None
                &&& final(self).queued()
                &&& old(self).queued() ==> final(mutex).waiters() == old(mutex).waiters()
                &&& !old(self).queued() ==> final(mutex).waiters() == old(mutex).waiters().push(old(self).waiter())
            },
    {
        if !mutex.locked {
            mutex.locked = true;
            if self.queued {
                remove_waiter(&mut mutex.waiters, self.waiter);
                proof {
                    lemma_removed_is_filter(old(mutex).waiters@, self.waiter, mutex.waiters@);
                    let s = old(mutex).waiters@;
                    if s.contains(self.waiter) {
                        let i = choose|i: int| 0 <= i < s.len() && s[i] == self.waiter && mutex.waiters@ == s.remove(i);
                        assert forall|a: int, b: int| 0 <= a < b < mutex.waiters@.len() implies mutex.waiters@[a] != mutex.waiters@[b] by {
                            let a2 = if a < i { a } else { a + 1 };
                            let b2 = if b < i { b } else { b + 1 };
                            assert(mutex.waiters@[a] == s[a2]);
                            assert(mutex.waiters@[b] == s[b2]);
                        }
                    }
                }
            }
            Some(MutexGuard(()))
        } else {
            if !self.queued {
                mutex.waiters.push(self.waiter);
                self.queued = true;
                proof {
                    let s = old(mutex).waiters@;
                    assert forall|a: int, b: int| 0 <= a < b < mutex.waiters@.len() implies mutex.waiters@[a] != mutex.waiters@[b] by {
                        if b == s.len() {
                            assert(s[a] != self.waiter);
                        }
                    }
                }
            }
            None
        }
    }

    /// Dropping a lock future that is still queued takes it off the queue.
    pub fn cancel<T, const N: usize>(self, mutex: &mut Mutex<T, N>)
        requires
            old(mutex).wf(),
        ensures
            final(mutex).wf(),
            final(mutex).locked() == old(mutex).locked(),
            final(mutex).value() == old(mutex).value(),
            self.queued() ==> removed(old(mutex).waiters(), self.waiter(), final(mutex).waiters()),
            self.queued() ==> final(mutex).waiters() == old(mutex).waiters().filter(|w: usize| w != self.waiter()),
            self.queued() ==> !final(mutex).waiters().contains(self.waiter()),
            !self.queued() ==> final(mutex).waiters() == old(mutex).waiters(),
    {
        if self.queued {
            remove_waiter(&mut mutex.waiters, self.waiter);
            proof {
                lemma_removed_is_filter(old(mutex).waiters@, self.waiter, mutex.waiters@);
                let s = old(mutex).waiters@;
                if s.contains(self.waiter) {
                    let i = choose|i: int| 0 <= i < s.len() && s[i] == self.waiter && mutex.waiters@ == s.remove(i);
                    assert forall|a: int, b: int| 0 <= a < b < mutex.waiters@.len() implies mutex.waiters@[a] != mutex.waiters@[b] by {
                        let a2 = if a < i { a } else { a + 1 };
                        let b2 = if b < i { b } else { b + 1 };
                        assert(mutex.waiters@[a] == s[a2]);
                        assert(mutex.waiters@[b] == s[b2]);
                    }
                }
            }
        }
    }
}

impl MutexGuard {
    /// Shared access to the protected value.
    pub fn deref<'a, T, const N: usize>(&self, mutex: &'a Mutex<T, N>) -> (r: &'a T)
        ensures
            *r == mutex.value(),
    {
        &mutex.value
    }

    /// Exclusive access to the protected value.
    pub fn deref_mut<'a, T, const N: usize>(&self, mutex: &'a mut Mutex<T, N>) -> (r: &'a mut T)
        ensures
            *r == old(mutex).value(),
            final(mutex).value() == *final(r),
            final(mutex).locked() == old(mutex).locked(),
            final(mutex).waiters() == old(mutex).waiters(),
    {
        &mut mutex.value
    }

    /// Releases the lock and hands the turn to the first queued waiter,
    /// whose id is returned so that its waker can be woken.
    pub fn release<T, const N: usize>(self, mutex: &mut Mutex<T, N>) -> (r: Option<usize>)
        requires
            old(mutex).wf(),
        ensures
            final(mutex).wf(),
            !final(mutex).locked(),
            final(mutex).value() == old(mutex).value(),
            old(mutex).waiters().len() == 0 ==> r is None && final(mutex).waiters() == old(mutex).waiters(),
            old(mutex).waiters().len() > 0 ==> r == Some(old(mutex).waiters()[0]) && final(mutex).waiters() == old(mutex).waiters().drop_first(),
    {
        mutex.locked = false;
        if mutex.waiters.len() > 0 {
            let w = mutex.waiters.remove(0);
            proof {
                assert(mutex.waiters@ =~= old(mutex).waiters@.drop_first());
                assert forall|a: int, b: int| 0 <= a < b < mutex.waiters@.len() implies mutex.waiters@[a] != mutex.waiters@[b] by {
                    assert(mutex.waiters@[a] == old(mutex).waiters@[a + 1]);
                    assert(mutex.waiters@[b] == old(mutex).waiters@[b + 1]);
                }
            }
            Some(w)
        } else {
            None
        }
    }
}

} // verus!
