//! The event envelope and what it carries.
//!
//! The lifecycle spine is generic and content-free: identity, compatibility, location, segment
//! shape and lifecycle, no tokens and no embeddings. A provider's own enrichment of a segment rides
//! in [`DonorSegment::provider_metadata`] and is never parsed here.

use uuid::Uuid;
use vstd::prelude::*;

use crate::location::{DonorLocation, DonorLocationView};
use crate::namespace::{CacheNamespace, CacheNamespaceView};
use crate::protocols::{DpRank, ExternalSequenceBlockHash, LocalBlockHash, WorkerId};

verus! {

/// Transport subject for semantic KV events, parallel to that of the exact plane.
pub const SEMANTIC_KV_EVENT_SUBJECT: &'static str = "semantic-kv-events";

/// Current envelope schema version. Bumped on any incompatible change.
pub const SEMANTIC_KV_EVENT_SCHEMA_VERSION: u16 = 1;

/// `uuid::Uuid` is carried as an opaque value.
#[verifier::external_type_specification]
#[verifier::external_body]
pub struct ExUuid(Uuid);

/// Versioned envelope for one semantic KV event. `worker_id` and `dp_rank` identify the emitter
/// stream, for ordering and gap detection; where a donor's KV lives is its [`DonorLocation`].
#[derive(Debug, PartialEq)]
pub struct SemanticKvEvent {
    pub schema_version: u16,
    /// Monotonic per `(worker_id, dp_rank)` emitter stream, starting at 0.
    pub event_id: u64,
    pub worker_id: WorkerId,
    pub dp_rank: DpRank,
    pub data: SemanticKvEventData,
}

/// What one event announces.
#[derive(Debug, PartialEq)]
pub enum SemanticKvEventData {
    /// One or more segments of a donor became reusable: availability at emission time, not a
    /// reservation. Emitting an existing `donor_id` again updates it.
    DonorRegistered(DonorRegistered),
    /// Some or all of a donor's segments are no longer reusable.
    DonorEvicted(DonorEvicted),
    /// Bulk invalidation by scope, for liveness and operational resets.
    DonorsPurged(DonorsPurged),
    /// Cache flush or reset on this emitter: every donor that it announced with an older generation
    /// is stale.
    ProviderGenerationReset { generation: u64 },
}

/// A reusable span of a donor sequence, with its enrichment. Semantic matching is per segment, so
/// the enrichment lives here and not on the donor.
#[derive(Debug, PartialEq)]
pub struct DonorSegment {
    /// Stable id within the donor, referenced by [`DonorEvicted::segments`].
    pub segment_id: u32,
    /// `[start, end)` token positions in the donor sequence.
    pub token_range: (u32, u32),
    /// Integrity and deduplication digest over the segment's token ids. Not a semantic key.
    pub digest: LocalBlockHash,
    /// Optional join key to the exact plane's block lineage for this span.
    pub block_hashes: Option<Vec<ExternalSequenceBlockHash>>,
    /// Optional provider-specific enrichment; only the provider reads it.
    pub provider_metadata: Option<Vec<u8>>,
}

/// A donor, its placement and its reusable segments.
#[derive(Debug, PartialEq)]
pub struct DonorRegistered {
    /// Globally unique, stable donor identity: the join key of the whole contract. It does not
    /// change when the donor's location does.
    pub donor_id: Uuid,
    pub namespace: CacheNamespace,
    /// Current placement. Registering the same `donor_id` again with a new location expresses an
    /// offload or a move.
    pub location: DonorLocation,
    pub token_count: u32,
    /// One or more reusable segments. A whole-sequence donor is one segment that spans
    /// `[0, token_count)`.
    pub segments: Vec<DonorSegment>,
    pub provider_generation: u64,
}

/// An eviction of a donor or of some of its segments.
#[derive(Debug, PartialEq)]
pub struct DonorEvicted {
    pub donor_id: Uuid,
    /// `None` evicts the whole donor; `Some` only the listed segment ids.
    pub segments: Option<Vec<u32>>,
    pub provider_generation: u64,
}

/// Bulk invalidation. When a worker is removed, an emitter publishes a purge of the worker's scope,
/// so that a consumer drops that worker's donors without waiting for evictions that a crashed
/// worker never sent.
#[derive(Debug, PartialEq)]
pub struct DonorsPurged {
    pub scope: PurgeScope,
    pub provider_generation: u64,
}

/// Which donors a purge drops.
#[derive(Debug, PartialEq, Eq)]
pub enum PurgeScope {
    /// Every donor whose location is owned by this worker.
    Worker { worker_id: WorkerId },
    /// Every donor at exactly this location, such as a shared store going offline.
    Location { location: DonorLocation },
    /// Every donor from this emitter.
    All,
}

/// A [`SemanticKvEvent`] as a mathematical value.
#[verifier::ext_equal]
pub struct SemanticKvEventView {
    pub schema_version: u16,
    pub event_id: u64,
    pub worker_id: WorkerId,
    pub dp_rank: DpRank,
    pub data: SemanticKvEventDataView,
}

/// A [`SemanticKvEventData`] as a mathematical value.
#[verifier::ext_equal]
pub enum SemanticKvEventDataView {
    DonorRegistered(DonorRegisteredView),
    DonorEvicted(DonorEvictedView),
    DonorsPurged(DonorsPurgedView),
    ProviderGenerationReset { generation: u64 },
}

/// A [`DonorSegment`] as a mathematical value.
#[verifier::ext_equal]
pub struct DonorSegmentView {
    pub segment_id: u32,
    pub token_range: (u32, u32),
    pub digest: LocalBlockHash,
    pub block_hashes: Option<Seq<ExternalSequenceBlockHash>>,
    pub provider_metadata: Option<Seq<u8>>,
}

/// A [`DonorRegistered`] as a mathematical value.
#[verifier::ext_equal]
pub struct DonorRegisteredView {
    pub donor_id: Uuid,
    pub namespace: CacheNamespaceView,
    pub location: DonorLocationView,
    pub token_count: u32,
    pub segments: Seq<DonorSegmentView>,
    pub provider_generation: u64,
}

/// A [`DonorEvicted`] as a mathematical value.
#[verifier::ext_equal]
pub struct DonorEvictedView {
    pub donor_id: Uuid,
    pub segments: Option<Seq<u32>>,
    pub provider_generation: u64,
}

/// A [`DonorsPurged`] as a mathematical value.
#[verifier::ext_equal]
pub struct DonorsPurgedView {
    pub scope: PurgeScopeView,
    pub provider_generation: u64,
}

/// A [`PurgeScope`] as a mathematical value.
#[verifier::ext_equal]
pub enum PurgeScopeView {
    Worker { worker_id: WorkerId },
    Location { location: DonorLocationView },
    All,
}

/// The elements of an optional vector.
pub open spec fn list_option<T>(list: Option<Vec<T>>) -> Option<Seq<T>> {
    match list {
        Some(items) => Some(items@),
        None => None,
    }
}

/// The elements of a sequence, each by its view.
pub open spec fn views<T: View>(items: Seq<T>) -> Seq<T::V> {
    items.map_values(|item: T| item@)
}

impl View for DonorSegment {
    type V = DonorSegmentView;

    open spec fn view(&self) -> DonorSegmentView {
        DonorSegmentView {
            segment_id: self.segment_id,
            token_range: self.token_range,
            digest: self.digest,
            block_hashes: list_option(self.block_hashes),
            provider_metadata: list_option(self.provider_metadata),
        }
    }
}

impl View for DonorRegistered {
    type V = DonorRegisteredView;

    open spec fn view(&self) -> DonorRegisteredView {
        DonorRegisteredView {
            donor_id: self.donor_id,
            namespace: self.namespace@,
            location: self.location@,
            token_count: self.token_count,
            segments: views(self.segments@),
            provider_generation: self.provider_generation,
        }
    }
}

impl View for DonorEvicted {
    type V = DonorEvictedView;

    open spec fn view(&self) -> DonorEvictedView {
        DonorEvictedView {
            donor_id: self.donor_id,
            segments: list_option(self.segments),
            provider_generation: self.provider_generation,
        }
    }
}

impl View for PurgeScope {
    type V = PurgeScopeView;

    open spec fn view(&self) -> PurgeScopeView {
        match *self {
            PurgeScope::Worker { worker_id } => PurgeScopeView::Worker { worker_id },
            PurgeScope::Location { location } => PurgeScopeView::Location { location: location@ },
            PurgeScope::All => PurgeScopeView::All,
        }
    }
}

impl View for DonorsPurged {
    type V = DonorsPurgedView;

    open spec fn view(&self) -> DonorsPurgedView {
        DonorsPurgedView { scope: self.scope@, provider_generation: self.provider_generation }
    }
}

impl View for SemanticKvEventData {
    type V = SemanticKvEventDataView;

    open spec fn view(&self) -> SemanticKvEventDataView {
        match *self {
            SemanticKvEventData::DonorRegistered(donor) => SemanticKvEventDataView::DonorRegistered(
                donor@,
            ),
            SemanticKvEventData::DonorEvicted(eviction) => SemanticKvEventDataView::DonorEvicted(
                eviction@,
            ),
            SemanticKvEventData::DonorsPurged(purge) => SemanticKvEventDataView::DonorsPurged(
                purge@,
            ),
            SemanticKvEventData::ProviderGenerationReset { generation } => {
                SemanticKvEventDataView::ProviderGenerationReset { generation }
            },
        }
    }
}

impl View for SemanticKvEvent {
    type V = SemanticKvEventView;

    open spec fn view(&self) -> SemanticKvEventView {
        SemanticKvEventView {
            schema_version: self.schema_version,
            event_id: self.event_id,
            worker_id: self.worker_id,
            dp_rank: self.dp_rank,
            data: self.data@,
        }
    }
}

/// Copies an optional vector of plain items.
fn copy_list<T: Copy>(list: &Option<Vec<T>>) -> (res: Option<Vec<T>>)
    ensures
        list_option(res) == list_option(*list),
{
    match list {
        Some(items) => {
            let mut copy: Vec<T> = Vec::new();
            let mut i: usize = 0;
            while i < items.len()
                invariant
                    i <= items@.len(),
                    copy@ == items@.take(i as int),
                decreases items@.len() - i,
            {
                copy.push(items[i]);
                i = i + 1;
            }
            Some(copy)
        },
        None => None,
    }
}

impl Clone for DonorSegment {
    fn clone(&self) -> (res: Self)
        ensures
            res@ == self@,
    {
        DonorSegment {
            segment_id: self.segment_id,
            token_range: self.token_range,
            digest: self.digest,
            block_hashes: copy_list(&self.block_hashes),
            provider_metadata: copy_list(&self.provider_metadata),
        }
    }
}

impl Clone for DonorRegistered {
    fn clone(&self) -> (res: Self)
        ensures
            res@ == self@,
    {
        DonorRegistered {
            donor_id: self.donor_id,
            namespace: self.namespace.clone(),
            location: self.location.clone(),
            token_count: self.token_count,
            segments: self.segments.clone(),
            provider_generation: self.provider_generation,
        }
    }
}

impl Clone for DonorEvicted {
    fn clone(&self) -> (res: Self)
        ensures
            res@ == self@,
    {
        DonorEvicted {
            donor_id: self.donor_id,
            segments: copy_list(&self.segments),
            provider_generation: self.provider_generation,
        }
    }
}

impl Clone for PurgeScope {
    fn clone(&self) -> (res: Self)
        ensures
            res@ == self@,
    {
        match self {
            PurgeScope::Worker { worker_id } => PurgeScope::Worker { worker_id: *worker_id },
            PurgeScope::Location { location } => PurgeScope::Location {
                location: location.clone(),
            },
            PurgeScope::All => PurgeScope::All,
        }
    }
}

impl Clone for DonorsPurged {
    fn clone(&self) -> (res: Self)
        ensures
            res@ == self@,
    {
        DonorsPurged {
            scope: self.scope.clone(),
            provider_generation: self.provider_generation,
        }
    }
}

impl Clone for SemanticKvEventData {
    fn clone(&self) -> (res: Self)
        ensures
            res@ == self@,
    {
        match self {
            SemanticKvEventData::DonorRegistered(donor) => SemanticKvEventData::DonorRegistered(
                donor.clone(),
            ),
            SemanticKvEventData::DonorEvicted(eviction) => SemanticKvEventData::DonorEvicted(
                eviction.clone(),
            ),
            SemanticKvEventData::DonorsPurged(purge) => SemanticKvEventData::DonorsPurged(
                purge.clone(),
            ),
            SemanticKvEventData::ProviderGenerationReset { generation } => {
                SemanticKvEventData::ProviderGenerationReset { generation: *generation }
            },
        }
    }
}

impl Clone for SemanticKvEvent {
    fn clone(&self) -> (res: Self)
        ensures
            res@ == self@,
    {
        SemanticKvEvent {
            schema_version: self.schema_version,
            event_id: self.event_id,
            worker_id: self.worker_id,
            dp_rank: self.dp_rank,
            data: self.data.clone(),
        }
    }
}

} // verus!
