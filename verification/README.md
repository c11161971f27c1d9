# rt_async

The scheduling core of a priority-preemptive async RTOS kernel, verified with
Verus.

Each priority level has an executor with a FIFO run queue; a two-level
priority bitmap (one `u64` per group of 64 priorities plus a group map) names
the highest-priority executor with ready tasks in constant time, and a
priority stack records which executors currently occupy the shared system
stack, so that a higher priority preempts a lower one like a nested call.

## Layout

- `src/` — the verified library
  - `priority.rs` — `Priority`, with inverted order (0 is the highest)
  - `priority_bitmap.rs` — `PriorityBitmap<NUM_GROUPS>`; its contents are a
    set of priorities, `highest` is the least element
  - `executor.rs` — one executor: enqueue and one step of running it
  - `spawner.rs` — `Spawner<N>`: spawning, waking, `try_preempt`,
    `run_step`, `complete_executor`, and the scheduler invariant
  - `task/` — task flags (`state.rs`), headers and handles (`header.rs`),
    run queues, task storage and join handles
  - `futures/` — mutex waiter queue, timer delays, serial receive
  - `macro_check.rs` — the signature checks of the attribute macros
  - `util.rs` — a cell that is filled and emptied in place
- `tests/` — tests of the library, including whole scheduling scenarios
- `app/` — host-side glue: interrupt-safe sharing of the spawner,
  wakers, the loop that polls futures, the async mutex and timer futures,
  the platform traits and the macros' code generation
