//! Async primitives: a mutex with a FIFO waiter queue, timer delays and
//! serial receive.

pub mod mutex;
pub mod serial;
pub mod timer;
