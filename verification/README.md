# mast_logup

A verified library for two parts of the Miden VM:

- the LogUp bus algebra: messages encoded as `alpha + sum_i beta^i * elem_i` over the
  quadratic extension of the Goldilocks field, batches of simultaneous interactions kept as one
  fraction `N / D`, selector-gated sets and column accumulators, and the constraint
  `delta * U - V` that ties a column to its accumulator;
- the bus columns built on them: which decoder, stack and range messages feed the five
  main-trace columns M1 to M5, and which chiplet responses, sibling-table entries, ACE memory
  reads and ACE wires feed the three chiplet-trace columns C1 to C3, under which selectors;
- the binary format of a MAST forest: fixed-width node entries, the writer of the full,
  stripped and HASHLESS formats, a scanner that finds every section, and random access to
  entries, digests and procedure roots without deserializing the forest.

The calls into `miden-crypto` are trusted wrappers with stated contracts: base and extension
field arithmetic, Poseidon2 hashing, the byte writers and the size hint of a `usize`, and the
reading and writing of words. Every other function is verified with Verus, and the laws the
library keeps (what a read gives back of a write, how selectors gate batches, what a column
accumulates) are proof functions in `src/`.

The bus columns take the values of a trace row as plain field elements: the operation flags
and the hasher chiplet's response flags are computed by the caller, and the constants of the
virtual machine (opcodes, the frame-pointer cell, the hasher cycle length, the kernel ROM init
label, the ACE instruction offsets) are passed in. Reading a forest returns node builders,
roots and the bytes that follow the digest sections; the operations of basic blocks, the
advice map and the debug information are not decoded.

Layout:

- `src/field.rs`, `src/challenges.rs`: base and extension field elements, message encoding.
- `src/logup_msg.rs`, `src/logup.rs`, `src/bus.rs`: bus messages, batches, sets, columns.
- `src/bus_values.rs`, `src/main_bus.rs`, `src/chiplet_bus.rs`: the main-trace and
  chiplet-trace bus columns.
- `src/bytes.rs`, `src/word_io.rs`, `src/info.rs`, `src/node.rs`: wire primitives and node
  entries.
- `src/forest.rs`, `src/layout.rs`, `src/resolved.rs`, `src/serialized.rs`: writing, scanning
  and reading serialized forests; `src/roundtrip.rs`: what reading gives back of a write.
- `app/`: logging around untrusted reading.
