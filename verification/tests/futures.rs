use rt_async::futures::mutex::Mutex;
use rt_async::futures::serial::{SerialRx, SerialRxStatus};
use rt_async::futures::timer::{after, TimerPoll};

#[test]
fn mutex_uncontended_lock_and_write() {
    let mut m: Mutex<u32, 2> = Mutex::new(0);
    let mut f = m.lock(1);
    let g = f.poll(&mut m).expect("free mutex is acquired at once");
    *g.deref_mut(&mut m) += 1;
    assert_eq!(*g.deref(&m), 1);
    assert_eq!(g.release(&mut m), None);
    f.cancel(&mut m);
}

#[test]
fn mutex_waiters_are_woken_in_fifo_order() {
    let mut m: Mutex<u32, 3> = Mutex::new(0);
    let mut holder = m.lock(1);
    let g = holder.poll(&mut m).unwrap();
    *g.deref_mut(&mut m) = 10;

    let mut a = m.lock(2);
    let mut b = m.lock(3);
    assert!(a.poll(&mut m).is_none());
    assert!(b.poll(&mut m).is_none());
    // Polling again while locked does not queue twice.
    assert!(a.poll(&mut m).is_none());

    assert_eq!(g.release(&mut m), Some(2));
    let ga = a.poll(&mut m).unwrap();
    *ga.deref_mut(&mut m) += 1;
    assert_eq!(ga.release(&mut m), Some(3));
    let gb = b.poll(&mut m).unwrap();
    assert_eq!(*gb.deref(&m), 11);
    assert_eq!(gb.release(&mut m), None);
}

#[test]
fn mutex_dropped_waiter_leaves_queue() {
    let mut m: Mutex<u8, 2> = Mutex::new(0);
    let mut holder = m.lock(1);
    let g = holder.poll(&mut m).unwrap();
    let mut a = m.lock(2);
    let mut b = m.lock(3);
    assert!(a.poll(&mut m).is_none());
    assert!(b.poll(&mut m).is_none());
    a.cancel(&mut m);
    assert_eq!(g.release(&mut m), Some(3));
}

#[test]
fn timer_after_computes_deadline() {
    // 1 ms at 10 MHz is 10_000 ticks.
    let mut d = after(500, 10_000_000, 1_000_000);
    assert_eq!(d.deadline_ticks(), 10_500);
    assert_eq!(d.poll(10_000), TimerPoll::Register(10_500));
    assert_eq!(d.poll(10_499), TimerPoll::Wait);
    assert_eq!(d.poll(10_500), TimerPoll::Ready);
}

#[test]
fn timer_after_saturates() {
    let d = after(u64::MAX - 5, 1_000_000_000, 100);
    assert_eq!(d.deadline_ticks(), u64::MAX);
}

#[test]
fn timer_zero_duration_is_ready() {
    let mut d = after(42, 10_000_000, 0);
    assert_eq!(d.poll(42), TimerPoll::Ready);
}

#[test]
fn serial_rx_maps_status() {
    let mut rx = SerialRx::new();
    assert_eq!(rx.poll(SerialRxStatus::Ready(b'x')), Some(b'x'));
    assert_eq!(rx.poll(SerialRxStatus::Pending), None);
    assert_eq!(rx.poll(SerialRxStatus::Unsupported), None);
}
