# zsfm

Zero-shot forecasting and table models: reading their checkpoints, preparing their inputs, combining
their predictions, and benchmarking them.

- `src/` is the library, verified with Verus. Numbers with a fraction are held as their bits.
  - `checkpoint`: checkpoint formats, number formats, and recasting to GGUF.
  - `models`: configurations, tensor names, weight lists, and the data layout around each forward pass.
  - `ensemble`: the members of a TabFM ensemble, their folds, their tables, and the random generators.
  - `bench`: datasets, rolling windows, combinations of models, the cache and the report.
- `app/` is the program around it: files, threads, tensors and floating-point arithmetic.
- `tests/` runs the library on concrete values.
