# mini_executor

A small future executor whose bookkeeping is verified with Verus.

- `src/channel.rs`: a first-in-first-out message queue with the semantics of
  the non-blocking operations of `std::sync::mpsc` (`try_send`, `try_recv`;
  bounded or not, senders and receiver that can go away). Where a blocking
  operation would wait, these report "full" or "empty", and `app/` waits.
- `src/handle.rs`: the result slot of a spawned task (`Handle::get_data`).
- `src/runtime.rs`: the executor's task queue and task table: spawning,
  waking, choosing the next task to poll, completing and releasing tasks,
  and when the executor stops.
- `src/timer.rs`, `src/socket.rs`: the readiness state of a timer future and
  of a socket future, and the decisions of the thread that connects and reads
  a socket.
- `app/`: the threads, the futures, the wakers and the socket I/O around the
  verified state; a mutex and a condition variable do the waiting that the
  verified operations report as "not yet".
