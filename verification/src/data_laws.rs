//! What holds of the data that events carry, each law over the fields themselves.

use vstd::bytes::spec_u64_to_le_bytes;
use vstd::prelude::*;

use crate::digest::{digest_of, encoded_tokens};
use crate::events::{
    views, DonorEvicted, DonorRegistered, DonorSegment, DonorsPurged, PurgeScope, PurgeScopeView,
    SemanticKvEvent, SemanticKvEventData, SemanticKvEventDataView,
};
use crate::location::{DonorLocation, DonorLocationView};
use crate::namespace::{text_entries, CacheNamespace, CacheNamespaceView};
use crate::protocols::{xxh3_64, DpRank, LocalBlockHash, StorageTier, WorkerId};

verus! {

/// Every location on a worker is owned by exactly that worker, whatever its rank and tier.
pub proof fn worker_locations_are_owned(worker_id: WorkerId, dp_rank: DpRank, tier: StorageTier)
    ensures
        (DonorLocation::Worker { worker_id, dp_rank, tier })@.owning_worker() == Some(worker_id),
        (DonorLocationView::Worker { worker_id, dp_rank, tier }).owning_worker() == Some(worker_id),
{
}

/// No location in a shared store is owned by any worker.
pub proof fn shared_locations_are_not_owned(backend: String, tier: StorageTier, locator: Vec<u8>)
    ensures
        (DonorLocation::Shared { backend, tier, locator })@.owning_worker() is None,
        (DonorLocationView::Shared {
            backend: backend@,
            tier,
            locator: locator@,
        }).owning_worker() is None,
{
}

/// The removal of a worker drops a location exactly when the location is on that worker.
pub proof fn owners_are_the_workers_of_locations(location: DonorLocation, worker: WorkerId)
    ensures
        location@.owning_worker() == Some(worker) <==> (location matches DonorLocation::Worker {
            worker_id,
            ..
        } && worker_id == worker),
{
}

/// The tier of a location is the one that it was made with, on a worker and in a shared store.
pub proof fn tiers_are_kept(
    worker_id: WorkerId,
    dp_rank: DpRank,
    tier: StorageTier,
    backend: String,
    locator: Vec<u8>,
)
    ensures
        (DonorLocation::Worker { worker_id, dp_rank, tier })@.tier() == tier,
        (DonorLocation::Shared { backend, tier, locator })@.tier() == tier,
{
}

/// Two locations have the same view exactly when they agree on every field.
pub proof fn location_views_keep_every_field(a: DonorLocation, b: DonorLocation)
    ensures
        a@ == b@ <==> match (a, b) {
            (
                DonorLocation::Worker { worker_id, dp_rank, tier },
                DonorLocation::Worker { worker_id: w, dp_rank: r, tier: t },
            ) => worker_id == w && dp_rank == r && tier == t,
            (
                DonorLocation::Shared { backend, tier, locator },
                DonorLocation::Shared { backend: b, tier: t, locator: l },
            ) => backend@ == b@ && tier == t && locator@ == l@,
            _ => false,
        },
{
}

/// Namespaces that differ in any hard field are not hard compatible: the model, the tokenizer, the
/// KV layout, the block size or the extra entries.
pub proof fn differing_hard_fields_are_a_mismatch(a: CacheNamespaceView, b: CacheNamespaceView)
    requires
        a.model != b.model || a.tokenizer != b.tokenizer || a.kv_layout != b.kv_layout
            || a.block_size != b.block_size || a.extra != b.extra,
    ensures
        !a.hard_compatible_with(b),
        !b.hard_compatible_with(a),
        !a.fully_compatible_with(b),
        !b.fully_compatible_with(a),
{
}

/// Two namespaces are hard compatible exactly when they are equal once the adapter and the
/// quantization of one are put in place of the other's.
pub proof fn hard_compatibility_is_equality_but_for_adapters(
    a: CacheNamespaceView,
    b: CacheNamespaceView,
)
    ensures
        a.hard_compatible_with(b) <==> a == (CacheNamespaceView {
            lora: a.lora,
            quant: a.quant,
            ..b
        }),
{
}

/// Full compatibility is hard compatibility with the same adapter and the same quantization.
pub proof fn full_compatibility_adds_adapters(a: CacheNamespaceView, b: CacheNamespaceView)
    ensures
        a.fully_compatible_with(b) <==> a.hard_compatible_with(b) && a.lora == b.lora && a.quant
            == b.quant,
{
}

/// The view of a namespace keeps every field: each text by its characters, a missing one as
/// missing.
pub proof fn namespace_views_keep_every_field(namespace: CacheNamespace)
    ensures
        namespace@.model == namespace.model@,
        namespace@.tokenizer == namespace.tokenizer@,
        namespace@.kv_layout == namespace.kv_layout@,
        namespace@.block_size == namespace.block_size,
        match namespace.lora {
            Some(text) => namespace@.lora == Some(text@),
            None => namespace@.lora is None,
        },
        match namespace.quant {
            Some(text) => namespace@.quant == Some(text@),
            None => namespace@.quant is None,
        },
        namespace@.extra == text_entries(namespace.extra@),
{
}

/// The text entries of a string map are its entries: no key is lost or made up, and each has the
/// text of a value under that key.
pub proof fn text_entries_are_the_entries(entries: Map<String, String>, key: Seq<char>)
    ensures
        text_entries(entries).contains_key(key) <==> exists|k: String| #[trigger]
            entries.contains_key(k) && k@ == key,
        text_entries(entries).contains_key(key) ==> exists|k: String| #[trigger]
            entries.contains_key(k) && k@ == key && text_entries(entries)[key] == entries[k]@,
{
}

/// Taking a sequence by its views keeps length and order.
pub proof fn views_keep_length_and_order<T: View>(items: Seq<T>)
    ensures
        views(items).len() == items.len(),
        forall|i: int| 0 <= i < items.len() ==> #[trigger] views(items)[i] == items[i]@,
{
}

/// The view of a segment keeps every field.
pub proof fn segment_views_keep_every_field(segment: DonorSegment)
    ensures
        segment@.segment_id == segment.segment_id,
        segment@.token_range == segment.token_range,
        segment@.digest == segment.digest,
        match segment.block_hashes {
            Some(hashes) => segment@.block_hashes == Some(hashes@),
            None => segment@.block_hashes is None,
        },
        match segment.provider_metadata {
            Some(bytes) => segment@.provider_metadata == Some(bytes@),
            None => segment@.provider_metadata is None,
        },
{
}

/// The view of a registration keeps every field, each segment in its place.
pub proof fn registration_views_keep_every_field(donor: DonorRegistered)
    ensures
        donor@.donor_id == donor.donor_id,
        donor@.namespace == donor.namespace@,
        donor@.location == donor.location@,
        donor@.token_count == donor.token_count,
        donor@.segments.len() == donor.segments@.len(),
        forall|i: int|
            0 <= i < donor.segments@.len() ==> #[trigger] donor@.segments[i] == donor.segments@[i]@,
        donor@.provider_generation == donor.provider_generation,
{
}

/// The view of an eviction keeps every field; a whole-donor eviction stays one.
pub proof fn eviction_views_keep_every_field(eviction: DonorEvicted)
    ensures
        eviction@.donor_id == eviction.donor_id,
        match eviction.segments {
            Some(ids) => eviction@.segments == Some(ids@),
            None => eviction@.segments is None,
        },
        eviction@.provider_generation == eviction.provider_generation,
{
}

/// The view of a purge keeps the scope, with its worker or location, and the generation.
pub proof fn purge_views_keep_every_field(purge: DonorsPurged)
    ensures
        match purge.scope {
            PurgeScope::Worker { worker_id } => purge@.scope == (PurgeScopeView::Worker {
                worker_id,
            }),
            PurgeScope::Location { location } => purge@.scope == (PurgeScopeView::Location {
                location: location@,
            }),
            PurgeScope::All => purge@.scope == PurgeScopeView::All,
        },
        purge@.provider_generation == purge.provider_generation,
{
}

/// The view of an event keeps the envelope and the kind and content of what it announces.
pub proof fn event_views_keep_every_field(event: SemanticKvEvent)
    ensures
        event@.schema_version == event.schema_version,
        event@.event_id == event.event_id,
        event@.worker_id == event.worker_id,
        event@.dp_rank == event.dp_rank,
        match event.data {
            SemanticKvEventData::DonorRegistered(donor) => event@.data
                == SemanticKvEventDataView::DonorRegistered(donor@),
            SemanticKvEventData::DonorEvicted(eviction) => event@.data
                == SemanticKvEventDataView::DonorEvicted(eviction@),
            SemanticKvEventData::DonorsPurged(purge) => event@.data
                == SemanticKvEventDataView::DonorsPurged(purge@),
            SemanticKvEventData::ProviderGenerationReset { generation } => event@.data == (
            SemanticKvEventDataView::ProviderGenerationReset { generation }),
        },
{
}

/// Eight bytes per token, tokens in order, byte `k` of token `n` at place `8 * n + k`, the least
/// significant first: bytes laid out so are the encoding of the tokens.
pub proof fn token_encoding_is_laid_out_in_order(tokens: Seq<u64>, bytes: Seq<u8>)
    ensures
        bytes == encoded_tokens(tokens) <==> bytes.len() == 8 * tokens.len() && forall|
            n: int,
            k: int,
        |
            #![trigger bytes[8 * n + k]]
            0 <= n < tokens.len() && 0 <= k < 8 ==> bytes[8 * n + k] == spec_u64_to_le_bytes(
                tokens[n],
            )[k],
{
    let encoded = encoded_tokens(tokens);
    assert forall|n: int, k: int| 0 <= n < tokens.len() && 0 <= k < 8 implies #[trigger] encoded[8
        * n + k] == spec_u64_to_le_bytes(tokens[n])[k] by {
        assert((8 * n + k) / 8 == n && (8 * n + k) % 8 == k);
    }
    if bytes.len() == 8 * tokens.len() && forall|n: int, k: int|
        #![trigger bytes[8 * n + k]]
        0 <= n < tokens.len() && 0 <= k < 8 ==> bytes[8 * n + k] == spec_u64_to_le_bytes(
            tokens[n],
        )[k] {
        assert forall|i: int| 0 <= i < bytes.len() implies bytes[i] == encoded[i] by {
            assert(bytes[8 * (i / 8) + i % 8] == spec_u64_to_le_bytes(tokens[i / 8])[i % 8]);
        }
        assert(bytes =~= encoded);
    }
}

/// The digest of a token sequence is the block hash, under the shared seed, of the tokens' bytes in
/// order: of any bytes that are eight times as many as the tokens and hold byte `k` of token `n` at
/// place `8 * n + k`, the least significant first.
pub proof fn digests_are_hashes_of_the_tokens_in_order(tokens: Seq<u64>, bytes: Seq<u8>)
    requires
        bytes.len() == 8 * tokens.len(),
        forall|n: int, k: int|
            #![trigger bytes[8 * n + k]]
            0 <= n < tokens.len() && 0 <= k < 8 ==> bytes[8 * n + k] == spec_u64_to_le_bytes(
                tokens[n],
            )[k],
    ensures
        digest_of(tokens) == LocalBlockHash(xxh3_64(bytes, 1337)),
{
    token_encoding_is_laid_out_in_order(tokens, bytes);
}

} // verus!
