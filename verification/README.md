# semantic-events

Lifecycle events for reusable KV-cache segments ("donors"), and a consumer-side buffer that orders
them, detects gaps, replays a bounded window and bootstraps from a snapshot. The library is written
in Verus: every function states what it returns or changes, and Verus proves it.

- `src/protocols.rs`, `src/digest.rs`: shared identifiers, block hash, token digest
- `src/namespace.rs`, `src/location.rs`, `src/events.rs`: what an event carries
- `src/buffer.rs`, `src/stream_map.rs`: the buffer, and the hash map under it
- `src/history.rs`, `src/laws.rs`: runs of calls, and what holds across operations
- `app/`: serde wire types and their conversion to the library's
- `tests/`: concrete cases

What is not proved but trusted stands beside the outside call it is about: the XXH3 hash function
in `src/protocols.rs`, the hash-map methods in `src/stream_map.rs`, and string-map equality in
`src/namespace.rs`.
