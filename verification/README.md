# zallocator

Arena allocators and pools of them, verified with Verus.

- `src/pool/allocator.rs`: `Allocator`, which carves allocations out of pages
  that double in size, with its abstract state (`AllocState`) and contracts.
- `src/pool/allocator_laws.rs`: what holds across allocator operations
  (fresh and disjoint allocations, read after write, alignment, truncation).
- `src/pool.rs`: `AllocatorPool` over a bounded `crossbeam_queue::ArrayQueue`.
- `src/pool/sync.rs`: the same pool over a bounded `crossbeam_channel`.
- `src/pool/freeup.rs`: the decisions of the background task that frees idle
  allocators; `src/pool/pool_laws.rs`: laws of the pools.
- `src/pool/queue.rs`: the contracts the library relies on for `ArrayQueue`.
- `src/pool/handle.rs`: `Handle` for the std, tokio and smol handles.
- `app/`: the background threads and tasks (`with_spawn`, `with_task`,
  `with_local_task`, `with_free`).
