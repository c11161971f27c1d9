//! Timer delays: a deadline in hardware ticks and the decision made on each poll.
use vstd::prelude::*;

verus! {

/// Nanoseconds per second.
pub const NANOS_PER_SEC: u128 = 1_000_000_000;

/// Ticks of a `freq_hz` clock in `duration_ns` nanoseconds, rounded down and
/// truncated to 64 bits.
pub open spec fn ticks_for(duration_ns: u64, freq_hz: u32) -> u64 {
    ((duration_ns as int * freq_hz as int) / (NANOS_PER_SEC as int)) as u64
}

/// `a + b`, saturating at `u64::MAX`.
pub open spec fn sat_add(a: u64, b: u64) -> u64 {
    if a + b > u64::MAX { u64::MAX } else { (a + b) as u64 }
}

/// A delay whose end does not pass `u64::MAX` ends `(duration_ns * freq_hz)
/// / 1e9` ticks after `now`, rounded down: the deadline `d` satisfies
/// `(d - now) * 1e9 <= duration_ns * freq_hz < (d - now + 1) * 1e9`.
/// When only the addition overflows, the deadline is `u64::MAX`.
pub proof fn lemma_deadline_in_ticks(now: u64, freq_hz: u32, duration_ns: u64)
    ensures
        ({
            let d = sat_add(now, ticks_for(duration_ns, freq_hz)) as int;
            let prod = duration_ns as int * freq_hz as int;
            (now as int) * 1_000_000_000 + prod < (u64::MAX as int + 1) * 1_000_000_000 ==> {
                &&& now <= d
                &&& (d - now) * 1_000_000_000 <= prod
                &&& prod < (d - now + 1) * 1_000_000_000
            }
        }),
        ({
            let prod = duration_ns as int * freq_hz as int;
            (now as int) * 1_000_000_000 + prod >= (u64::MAX as int + 1) * 1_000_000_000
                && prod < (u64::MAX as int + 1) * 1_000_000_000
                ==> sat_add(now, ticks_for(duration_ns, freq_hz)) == u64::MAX
        }),
{
    let prod = duration_ns as int * freq_hz as int;
    let q = prod / 1_000_000_000;
    let m = u64::MAX as int + 1;
    let n = now as int;
    assert(prod >= 0) by (nonlinear_arith)
        requires
            prod == duration_ns as int * freq_hz as int,
    ;
    assert(q * 1_000_000_000 <= prod && prod < (q + 1) * 1_000_000_000) by (nonlinear_arith)
        requires
            prod >= 0,
            q == prod / 1_000_000_000,
    ;
    if n * 1_000_000_000 + prod < m * 1_000_000_000 {
        assert(q < m - n) by (nonlinear_arith)
            requires
                q * 1_000_000_000 <= prod,
                n * 1_000_000_000 + prod < m * 1_000_000_000,
        ;
        assert(0 <= q);
        assert(ticks_for(duration_ns, freq_hz) == q);
        assert(sat_add(now, ticks_for(duration_ns, freq_hz)) == n + q);
    }
    if n * 1_000_000_000 + prod >= m * 1_000_000_000 && prod < m * 1_000_000_000 {
        assert(q < m) by (nonlinear_arith)
            requires
                q * 1_000_000_000 <= prod,
                prod < m * 1_000_000_000,
        ;
        assert(q >= m - n) by (nonlinear_arith)
            requires
                prod < (q + 1) * 1_000_000_000,
                n * 1_000_000_000 + prod >= m * 1_000_000_000,
        ;
        assert(0 <= q);
        assert(ticks_for(duration_ns, freq_hz) == q);
    }
}

/// What the timer future does on a poll.
#[derive(Debug, Clone, Copy, PartialEq, Eq, Structural)]
pub enum TimerPoll {
    /// The deadline has passed.
    Ready,
    /// Not yet due and not yet registered: register the waker for this
    /// deadline with the timer queue (programming the hardware deadline when
    /// it is the earliest), then wait.
    Register(u64),
    /// Not yet due, already registered: wait.
    Wait,
}

/// Future that completes once the tick counter reaches its deadline.
pub struct TimerDelay {
    deadline: u64,
    registered: bool,
}

impl TimerDelay {
    pub closed spec fn deadline(&self) -> u64 {
        self.deadline
    }

    pub closed spec fn registered(&self) -> bool {
        self.registered
    }

    pub fn deadline_ticks(&self) -> (r: u64)
        ensures
            r == self.deadline(),
    {
        self.deadline
    }

    /// Decides one poll at tick count `now`.
    pub fn poll(&mut self, now: u64) -> (r: TimerPoll)
        ensures
            final(self).deadline() == old(self).deadline(),
            now >= old(self).deadline() ==> r == TimerPoll::Ready && final(self).registered() == old(self).registered(),
            now < old(self).deadline() && !old(self).registered() ==> r == TimerPoll::Register(old(self).deadline()) && final(self).registered(),
            now < old(self).deadline() && old(self).registered() ==> r == TimerPoll::Wait && final(self).registered(),
    {
        if now >= self.deadline {
            TimerPoll::Ready
        } else if !self.registered {
            self.registered = true;
            TimerPoll::Register(self.deadline)
        } else {
            TimerPoll::Wait
        }
    }
}

/// A delay of `duration_ns` nanoseconds starting at tick `now` of a
/// `freq_hz` clock: its deadline is `now` plus the duration in ticks,
/// saturating at `u64::MAX`.
pub fn after(now: u64, freq_hz: u32, duration_ns: u64) -> (r: TimerDelay)
    ensures
        r.deadline() == sat_add(now, ticks_for(duration_ns, freq_hz)),
        !r.registered(),
        (now as int) * 1_000_000_000 + (duration_ns as int) * (freq_hz as int) < (u64::MAX as int + 1) * 1_000_000_000 ==> {
            &&& now <= r.deadline()
            &&& (r.deadline() - now) * 1_000_000_000 <= (duration_ns as int) * (freq_hz as int)
            &&& (duration_ns as int) * (freq_hz as int) < (r.deadline() - now + 1) * 1_000_000_000
        },
{
    proof {
        lemma_deadline_in_ticks(now, freq_hz, duration_ns);
    }
    let hw_freq = freq_hz as u128;
    proof {
        assert(duration_ns as u128 * hw_freq <= 0xffff_ffff_ffff_ffffu128 * 0xffff_ffffu128) by (nonlinear_arith)
            requires
                hw_freq <= 0xffff_ffffu128,
        ;
    }
    let ticks = ((duration_ns as u128) * hw_freq / NANOS_PER_SEC) as u64;
    let deadline = now.saturating_add(ticks);
    TimerDelay { deadline, registered: false }
}

} // verus!
