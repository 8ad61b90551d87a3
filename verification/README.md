# salsa_runtime

The concurrency core of an incremental query engine, verified with Verus.

- `src/` is the library. `runtime` holds what threads share: revisions, cancellation, the live
  cycle groups (`cycle_groups`) and which threads wait for one another (`dependency_graph`).
  `fetch` decides, step by step, how a thread gets the value of a query: from its memo (`memo`),
  by waiting, by evaluating it, or by backing out of a cycle. Each function states its effect
  over mathematical views; the functions named `law_..` state what holds of the library as a whole.
- `app/` runs the library with threads, locks and unwinding.
- `tests/` runs it on examples.

The maps are `rustc_hash`'s `FxHashMap`. The functions of `fx_map` that call it are the only ones
whose contracts are not proved.
