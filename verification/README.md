# allocators

A bump arena of `N` bytes, verified with Verus.

- `src/layout.rs`: `Layout` (a size and a power-of-two alignment whose rounded
  size fits in `isize`), `from_size_align`, `extend`, and the alignment
  arithmetic (`align_up`, `padding_for`) with its lemmas.
- `src/arena.rs`: `Arena<N>`, whose `N` bytes are held inline. Allocations in the arena bump an offset; each
  aligned request starts at the least multiple of its alignment, counted from
  the start of the arena's bytes, that is not below the bytes handed out so
  far. A request that does not fit can go to the heap instead: the arena lays
  out a block as a `HeapNode` header followed by the data, asks the global
  allocator for a byte buffer of that layout's size, and keeps the header and
  the buffer side by side in its heap list until `reset`. The header is a link
  to the block before it and the block's layout; the buffer carries no
  alignment of its own, so the data's alignment is an offset within the
  layout.

The arena hands out regions (`Region`) of its own bytes: `alloc_bytes`,
`alloc_align`, `alloc_slice_bytes` and `alloc_str` give a region, which
`bytes`, `write_byte` and `get_str` read and write. `alloc_heap_bytes` gives
a `HeapPtr` into a heap block, which `heap_bytes` and `write_heap_byte` read
and write. Typed requests
(`alloc_value`, `alloc_slice`, `alloc_heap`, `alloc_heap_slice`, `try_alloc`,
`try_alloc_slice`) reserve room for the value, in the arena or on the heap,
and give the value back owned together with where its room was taken.

Every method takes `&mut self`; dropping the arena frees its heap blocks.
