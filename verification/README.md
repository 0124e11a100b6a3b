# Taiga

The decisions of a work-stealing asynchronous runtime, verified with Verus.

`src/` is the library. It holds no threads and does no I/O: every function takes what it needs, says
in its contract what it changes and returns, and hands back what is to be done outside (whom to unpark,
whom to wake, what to have the poller watch for).

- `executor/` — tasks and their states, the scheduler and its queues, the workers' choice of the next
  task and their search for work, the reactor, and the handle that ties scheduler and reactor together.
- `workstealing/` — a second runtime of the same design, with counted task references, pooled memory
  and sources known by tokens.
- `time/` — instants, the hierarchical timer wheel, and sleep.
- `net/` — HTTP status codes, and what follows an operation that would have blocked.
- `queues.rs` — the queues that tasks wait in, over those of `crossbeam`.
- `layout.rs`, `counter.rs`, `poll.rs`, `waker.rs`, `bench.rs` — what the others share.

Functions named `law_…` state what holds of several functions together. Calls into other crates stand
behind small functions marked `external_body`, whose doc comments say what is taken for granted.

`app/` runs the library: threads, the poller, sockets, the memory of futures, and a benchmark against
tokio. `tests/` runs the library on given values, and futures on it.
