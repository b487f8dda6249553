# rtos_hazards

Demonstrations of concurrency hazards in real-time systems — deadlocks,
race conditions, priority inversion, starvation — and their remedies.

- `src/` is the verified library (Verus): the SPSC ring buffer
  (`ring_buffer`), the try-lock protocol that takes two locks or none
  (`try_lock`), counters and the shared table of the reader/writer demo
  (`counting`, `shared_table`), check-then-act and one-time initialisation
  (`once`, `lazy`), task priorities (`priority`) and the verdicts and
  formulas that the demonstrations print (`reports`).
- `app/` holds the demonstrations themselves: the threads, locks, clocks and
  printing, driving the library.
- `tests/` exercises the library.
