# hoarder

The building blocks of a read-optimised blob store that serves requests over
io_uring, with their behaviour stated in contracts and proved by Verus.

- `src/` is the verified library: fixed-capacity collections (`collections`),
  generational allocators, buffer and object pools (`mem`), errors (`error`,
  `blob_error`), the executor protocol and wire header (`protocol`), the
  connection and listening state machines (`state_machine`), the
  double-buffered logger (`logger`) and the executor that drives the machines
  (`executor`).
- `app/` is the program around it: the io_uring ring, the socket calls, the
  event loop that hands completions to the executor, the logging macros and
  the panic hook.
- `tests/` exercises the library on concrete values.

The logger's producer and consumer share one `Logger` behind a vstd `RwLock`:
each append and each drain runs under the lock. The law that a drain hands
out exactly the bytes appended since the previous drain, in order, is proved
of the `Logger` itself (`Logger::lemma_drain_returns_appended`); what passes
through the lock between a producer and a consumer on different threads is
not tracked by the proofs.
