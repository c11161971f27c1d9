//! Task lifecycle flags: "spawned" and "queued on a run queue".
use vstd::prelude::*;

verus! {

/// The task has been spawned and has not completed yet.
pub const STATE_SPAWNED: u8 = 1;

/// The task sits on an executor's run queue.
pub const STATE_RUN_QUEUED: u8 = 2;

/// The `STATE_SPAWNED` flag of a state byte.
pub open spec fn spawned_flag(v: u8) -> bool {
    v & STATE_SPAWNED != 0
}

/// The `STATE_RUN_QUEUED` flag of a state byte.
pub open spec fn queued_flag(v: u8) -> bool {
    v & STATE_RUN_QUEUED != 0
}

/// The two flags are independent: setting or clearing one leaves the other as it was.
pub proof fn lemma_flags(v: u8)
    ensures
        spawned_flag(v | STATE_SPAWNED),
        queued_flag(v | STATE_SPAWNED) == queued_flag(v),
        queued_flag(v | STATE_RUN_QUEUED),
        spawned_flag(v | STATE_RUN_QUEUED) == spawned_flag(v),
        !spawned_flag(v & !STATE_SPAWNED),
        queued_flag(v & !STATE_SPAWNED) == queued_flag(v),
        !queued_flag(v & !STATE_RUN_QUEUED),
        spawned_flag(v & !STATE_RUN_QUEUED) == spawned_flag(v),
        spawned_flag(0) == false,
        queued_flag(0) == false,
        queued_flag(v) ==> v | STATE_RUN_QUEUED == v,
{
    assert((v & 2u8 != 0) ==> (v | 2u8) == v) by (bit_vector);
    assert((v | 1u8) & 1u8 != 0) by (bit_vector);
    assert(((v | 1u8) & 2u8 != 0) == (v & 2u8 != 0)) by (bit_vector);
    assert((v | 2u8) & 2u8 != 0) by (bit_vector);
    assert(((v | 2u8) & 1u8 != 0) == (v & 1u8 != 0)) by (bit_vector);
    assert((v & !1u8) & 1u8 == 0) by (bit_vector);
    assert(((v & !1u8) & 2u8 != 0) == (v & 2u8 != 0)) by (bit_vector);
    assert((v & !2u8) & 2u8 == 0) by (bit_vector);
    assert(((v & !2u8) & 1u8 != 0) == (v & 1u8 != 0)) by (bit_vector);
    assert(0u8 & 1u8 == 0) by (bit_vector);
    assert(0u8 & 2u8 == 0) by (bit_vector);
}

/// The flag byte of a task.
pub struct State {
    inner: u8,
}

impl View for State {
    type V = u8;

    closed spec fn view(&self) -> u8 {
        self.inner
    }
}

impl State {
    /// A task that is neither spawned nor queued.
    pub fn new() -> (r: Self)
        ensures
            r@ == 0,
            !spawned_flag(r@),
            !queued_flag(r@),
    {
        proof {
            lemma_flags(0);
        }
        Self { inner: 0 }
    }

    /// The raw flag byte.
    pub fn bits(&self) -> (r: u8)
        ensures
            r == self@,
    {
        self.inner
    }

    /// Marks the task as spawned. Returns `true` when it was not spawned
    /// before (the first call), `false` on a re-spawn attempt.
    pub fn spawn(&mut self) -> (r: bool)
        ensures
            final(self)@ == old(self)@ | STATE_SPAWNED,
            r == !spawned_flag(old(self)@),
            spawned_flag(final(self)@),
            queued_flag(final(self)@) == queued_flag(old(self)@),
    {
        let prev = self.inner;
        self.inner = prev | STATE_SPAWNED;
        proof {
            lemma_flags(prev);
        }
        prev & STATE_SPAWNED == 0
    }

    /// Clears the spawned flag.
    pub fn despawn(&mut self)
        ensures
            final(self)@ == old(self)@ & !STATE_SPAWNED,
            !spawned_flag(final(self)@),
            queued_flag(final(self)@) == queued_flag(old(self)@),
    {
        proof {
            lemma_flags(self.inner);
        }
        self.inner = self.inner & !STATE_SPAWNED;
    }

    /// Marks the task as queued. Returns `true` when it was not queued
    /// before: the caller then puts it on a run queue. Returns `false` when it
    /// is already queued, and nothing is to be done.
    pub fn run_enqueue(&mut self) -> (r: bool)
        ensures
            final(self)@ == old(self)@ | STATE_RUN_QUEUED,
            r == !queued_flag(old(self)@),
            !r ==> *final(self) == *old(self),
            queued_flag(final(self)@),
            spawned_flag(final(self)@) == spawned_flag(old(self)@),
    {
        let prev = self.inner;
        self.inner = prev | STATE_RUN_QUEUED;
        proof {
            lemma_flags(prev);
        }
        prev & STATE_RUN_QUEUED == 0
    }

    /// Clears the queued flag.
    pub fn run_dequeue(&mut self)
        ensures
            final(self)@ == old(self)@ & !STATE_RUN_QUEUED,
            !queued_flag(final(self)@),
            spawned_flag(final(self)@) == spawned_flag(old(self)@),
    {
        proof {
            lemma_flags(self.inner);
        }
        self.inner = self.inner & !STATE_RUN_QUEUED;
    }
}

} // verus!
