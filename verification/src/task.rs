//! Per-task bookkeeping: lifecycle flags, run queues, storage and join handles.

pub mod header;
pub mod join_handle;
pub mod run_queue;
pub mod state;
pub mod storage;
