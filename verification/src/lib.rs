//! A priority-preemptive async scheduler core: priorities, a two-level
//! priority bitmap, per-priority executors and the spawner that picks the
//! executor to run next.

pub mod executor;
pub mod futures;
pub mod macro_check;
pub mod priority;
pub mod priority_bitmap;
pub mod spawner;
pub mod task;
pub mod util;
