# xfeatures-ipc

A single-producer single-consumer ring buffer whose header and slots live in a
memory-mapped file shared between processes.

- `src/` is the verified library. `layout` describes the segment header,
  `mmap` the errors and `SharedRegion` (a segment held as plain values),
  `ring_index` the arithmetic of the wrapping indices (power-of-two
  capacities, slot addressing, the ring's contents as a sequence), `protocol`
  the push and pop transitions with their laws (including in-order delivery
  over a whole run of pushes and pops), and
  `ring_buffer` the producer and consumer: their set-up checks, the decisions
  of a push and a pop, and push and pop on a `SharedRegion`, with the FIFO and
  fail-fast contracts. `builder` holds the channel configuration.
- `app/` holds the builder's `build`, `build_producer` and `build_consumer`,
  maps the backing file with `memmap2`, keeps the indices as atomics in
  the mapping, and drives the verified push and pop decisions with
  Acquire/Release loads and stores and unaligned slot reads and writes.
