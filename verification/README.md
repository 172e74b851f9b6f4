# dojo_world

The remote view of a Dojo world, verified with Verus: which resources a world contract manages
on chain, who owns and writes them, and which classes they had, as the events of the contract
tell of them.

- `src/fetch.rs` decides which requests to make to a node and what the replies mean.
- `src/world.rs` applies the events to the world, one by one.
- `src/laws.rs` states what holds of every fetch and of every world.
- `src/resource.rs`, `src/event.rs`, `src/naming.rs` and `src/byte_array.rs` hold the resources,
  the events, the selectors and the on-chain form of text.
- `src/felt.rs` and `src/felt_map.rs` hold field elements and the maps and sets keyed by them.
- `app/` talks to a node and converts between its types and those of the library.

The hashes and the packing of text come from `starknet`, `starknet-crypto` and `cainome`. The
functions that call them say in their doc comments what is taken on trust.
