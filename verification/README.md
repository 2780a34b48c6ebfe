# fuse

A library for working with local language models, verified with Verus: GGUF
parsing and writing, delta updates, download planning, prompt templates,
grammar-constrained output, a paged KV cache, model and resource management,
batching and metrics.

- `src/` is the verified library. Each public function states its result in its
  contract; the laws that relate several functions are public proof functions
  (`lemma_*`).
- `tests/` runs the library on concrete inputs.
- `app/` is the command-line front end: file and system access, floating-point
  formatting, sampling and threads. It is not verified.

Two collections differ from the upstream design:

- The inference cache keeps its entries in a `Vec` in least-recently-used order
  instead of a concurrent `DashMap` beside a `VecDeque`: `dashmap` is not among
  the crates this build has, and the cache's methods take `&mut self`, so a
  caller that shares it across threads wraps it in a lock.
- The remote endpoint repository keeps its endpoints in memory, sorted by name;
  the storage layer that persists them is not part of this crate.
