//! Semantic KV donor lifecycle events.
//!
//! The contract by which emitters (engine adapters, block managers, simulators) tell external
//! semantic KV providers what reusable KV exists, where it lives and when it stops existing, so
//! that providers can maintain a fleet-scale donor catalog with a correct lifecycle without
//! scraping engines.
//!
//! - Identity is global and stable; location is separate and mutable. A donor's id is the join key
//!   of the whole contract, and its [`DonorLocation`] can change without changing the id.
//! - A donor exposes one or more [`DonorSegment`]s; a whole-sequence donor has one. An eviction can
//!   target the whole donor or some of its segments.
//! - Events travel on [`SEMANTIC_KV_EVENT_SUBJECT`] in a versioned envelope. Ids are monotonic per
//!   emitter stream; a consumer detects gaps, fails closed on them, and bootstraps from a snapshot
//!   ([`SemanticEventBuffer`]).
//! - Donors located on a worker are purged when that worker is removed ([`DonorsPurged`]).
//!
//! [`laws`] states and proves what holds across these operations, over the runs of calls of
//! [`history`]; [`data_laws`] does so for what the events carry.

pub mod buffer;
pub mod data_laws;
pub mod digest;
pub mod events;
pub mod history;
pub mod laws;
pub mod location;
pub mod namespace;
pub mod protocols;
pub mod stream_map;

pub use crate::buffer::{ApplyOutcome, SemanticEventBuffer, DEFAULT_SEMANTIC_EVENT_BUFFER_SIZE};
pub use crate::digest::{sequence_digest, token_bytes};
pub use crate::events::{
    DonorEvicted, DonorRegistered, DonorSegment, DonorsPurged, PurgeScope, SemanticKvEvent,
    SemanticKvEventData, SEMANTIC_KV_EVENT_SCHEMA_VERSION, SEMANTIC_KV_EVENT_SUBJECT,
};
pub use crate::location::DonorLocation;
pub use crate::namespace::CacheNamespace;
pub use crate::protocols::{
    compute_block_hash, DpRank, ExternalSequenceBlockHash, LocalBlockHash, StorageTier, WorkerId,
};
