use std::collections::BTreeMap;

use semantic_events::{
    sequence_digest, ApplyOutcome, CacheNamespace, DonorEvicted, DonorLocation, DonorRegistered,
    DonorSegment, DonorsPurged, ExternalSequenceBlockHash, PurgeScope, SemanticEventBuffer,
    SemanticKvEvent, SemanticKvEventData, StorageTier, DEFAULT_SEMANTIC_EVENT_BUFFER_SIZE,
    SEMANTIC_KV_EVENT_SCHEMA_VERSION, SEMANTIC_KV_EVENT_SUBJECT,
};
use uuid::Uuid;

fn namespace() -> CacheNamespace {
    CacheNamespace {
        model: "qwen2.5-7b".to_string(),
        tokenizer: "qwen2.5".to_string(),
        kv_layout: "flashinfer-fp16".to_string(),
        block_size: 16,
        lora: None,
        quant: None,
        extra: BTreeMap::new(),
    }
}

fn segment(id: u32, range: (u32, u32)) -> DonorSegment {
    DonorSegment {
        segment_id: id,
        token_range: range,
        digest: sequence_digest(&[id as u64, range.0 as u64, range.1 as u64]),
        block_hashes: None,
        provider_metadata: Some(vec![1, 2, 3]), // stand-in embedding payload
    }
}

fn registered_event(id: u64, donor: Uuid, segments: Vec<DonorSegment>) -> SemanticKvEvent {
    SemanticKvEvent {
        schema_version: SEMANTIC_KV_EVENT_SCHEMA_VERSION,
        event_id: id,
        worker_id: 7,
        dp_rank: 0,
        data: SemanticKvEventData::DonorRegistered(DonorRegistered {
            donor_id: donor,
            namespace: namespace(),
            location: DonorLocation::Worker {
                worker_id: 7,
                dp_rank: 0,
                tier: StorageTier::Device,
            },
            token_count: 256,
            segments,
            provider_generation: 0,
        }),
    }
}

fn reset_event(worker_id: u64, dp_rank: u32, id: u64) -> SemanticKvEvent {
    SemanticKvEvent {
        schema_version: SEMANTIC_KV_EVENT_SCHEMA_VERSION,
        event_id: id,
        worker_id,
        dp_rank,
        data: SemanticKvEventData::ProviderGenerationReset { generation: 100 + id },
    }
}

#[test]
fn future_schema_versions_are_rejected() {
    let mut buffer = SemanticEventBuffer::default();
    let mut ev = registered_event(0, Uuid::nil(), vec![segment(0, (0, 256))]);
    ev.schema_version = SEMANTIC_KV_EVENT_SCHEMA_VERSION + 1;
    assert_eq!(
        buffer.apply(ev),
        ApplyOutcome::VersionUnsupported {
            got: SEMANTIC_KV_EVENT_SCHEMA_VERSION + 1
        }
    );
}

#[test]
fn in_order_applies_and_duplicates_are_flagged() {
    let mut buffer = SemanticEventBuffer::default();
    let seg = vec![segment(0, (0, 256))];
    assert_eq!(
        buffer.apply(registered_event(0, Uuid::nil(), seg.clone())),
        ApplyOutcome::Applied
    );
    assert_eq!(
        buffer.apply(registered_event(1, Uuid::nil(), seg.clone())),
        ApplyOutcome::Applied
    );
    assert_eq!(
        buffer.apply(registered_event(0, Uuid::nil(), seg)),
        ApplyOutcome::Duplicate
    );
    assert!(!buffer.is_invalidated(7, 0));
}

#[test]
fn gaps_invalidate_until_acknowledged() {
    let mut buffer = SemanticEventBuffer::default();
    let seg = vec![segment(0, (0, 256))];
    assert_eq!(
        buffer.apply(registered_event(0, Uuid::nil(), seg.clone())),
        ApplyOutcome::Applied
    );
    assert_eq!(
        buffer.apply(registered_event(3, Uuid::nil(), seg.clone())),
        ApplyOutcome::Gap {
            expected: 1,
            got: 3
        }
    );
    assert!(buffer.is_invalidated(7, 0));
    assert_eq!(buffer.events_in_id_range(7, 0, 3, 3), None);

    buffer.acknowledge_invalidation(7, 0);
    assert_eq!(
        buffer.apply(registered_event(4, Uuid::nil(), seg)),
        ApplyOutcome::Applied
    );
    assert_eq!(
        buffer.events_in_id_range(7, 0, 3, 4).map(|v| v.len()),
        Some(2)
    );
}

#[test]
fn snapshot_seeds_watermark_so_tailing_resumes_without_a_false_gap() {
    let mut buffer = SemanticEventBuffer::default();
    // Producer snapshot says stream (7,0) is current through event_id 41.
    let donors = buffer.apply_snapshot(
        vec![(7u64, 0u32, 42u64)],
        vec![registered_event(
            40,
            Uuid::nil(),
            vec![segment(0, (0, 256))],
        )],
    );
    assert_eq!(
        donors.len(),
        1,
        "snapshot donors handed back to the catalog"
    );
    // Tailing resumes at 42 with no spurious gap from 0.
    assert_eq!(
        buffer.apply(registered_event(
            42,
            Uuid::nil(),
            vec![segment(0, (0, 256))]
        )),
        ApplyOutcome::Applied
    );
    assert!(!buffer.is_invalidated(7, 0));
}

#[test]
fn streams_are_independent_per_worker_and_dp_rank() {
    let mut buffer = SemanticEventBuffer::default();
    let seg = vec![segment(0, (0, 256))];
    let mut other = registered_event(0, Uuid::nil(), seg.clone());
    other.worker_id = 8;
    assert_eq!(
        buffer.apply(registered_event(0, Uuid::nil(), seg.clone())),
        ApplyOutcome::Applied
    );
    assert_eq!(buffer.apply(other), ApplyOutcome::Applied);
    assert_eq!(
        buffer.apply(registered_event(5, Uuid::nil(), seg)),
        ApplyOutcome::Gap {
            expected: 1,
            got: 5
        }
    );
    assert!(buffer.is_invalidated(7, 0));
    assert!(!buffer.is_invalidated(8, 0));
}

#[test]
fn constants_are_as_published() {
    assert_eq!(SEMANTIC_KV_EVENT_SUBJECT, "semantic-kv-events");
    assert_eq!(SEMANTIC_KV_EVENT_SCHEMA_VERSION, 1);
    assert_eq!(DEFAULT_SEMANTIC_EVENT_BUFFER_SIZE, 1024);
}

#[test]
fn same_worker_with_another_rank_is_another_stream() {
    let mut buffer = SemanticEventBuffer::new(4);
    assert_eq!(buffer.apply(reset_event(7, 0, 0)), ApplyOutcome::Applied);
    assert_eq!(buffer.apply(reset_event(7, 1, 0)), ApplyOutcome::Applied);
    assert_eq!(buffer.apply(reset_event(7, 1, 2)), ApplyOutcome::Gap { expected: 1, got: 2 });
    assert!(!buffer.is_invalidated(7, 0));
    assert!(buffer.is_invalidated(7, 1));
    assert_eq!(buffer.events_in_id_range(7, 0, 0, 0), Some(vec![reset_event(7, 0, 0)]));
}

#[test]
fn older_schema_versions_change_nothing() {
    let mut buffer = SemanticEventBuffer::new(4);
    let mut old = reset_event(7, 0, 0);
    old.schema_version = 0;
    assert_eq!(buffer.apply(old), ApplyOutcome::VersionUnsupported { got: 0 });
    // The cursor has not moved.
    assert_eq!(buffer.apply(reset_event(7, 0, 0)), ApplyOutcome::Applied);
    // An unsupported envelope may carry any id.
    let mut last = reset_event(7, 0, u64::MAX);
    last.schema_version = 9;
    assert_eq!(buffer.apply(last), ApplyOutcome::VersionUnsupported { got: 9 });
    assert_eq!(buffer.apply(reset_event(7, 0, 1)), ApplyOutcome::Applied);
    assert_eq!(
        buffer.events_in_id_range(7, 0, 0, 1),
        Some(vec![reset_event(7, 0, 0), reset_event(7, 0, 1)])
    );
}

#[test]
fn a_late_first_event_is_a_gap_from_zero() {
    let mut buffer = SemanticEventBuffer::new(4);
    assert_eq!(buffer.apply(reset_event(7, 0, 2)), ApplyOutcome::Gap { expected: 0, got: 2 });
    assert!(buffer.is_invalidated(7, 0));
}

#[test]
fn retention_drops_the_oldest() {
    let mut buffer = SemanticEventBuffer::new(3);
    for id in 0..5 {
        assert_eq!(buffer.apply(reset_event(7, 0, id)), ApplyOutcome::Applied);
    }
    assert_eq!(buffer.events_in_id_range(7, 0, 1, 4), None);
    assert_eq!(
        buffer.events_in_id_range(7, 0, 2, 4),
        Some(vec![reset_event(7, 0, 2), reset_event(7, 0, 3), reset_event(7, 0, 4)])
    );
    assert_eq!(
        buffer.events_in_id_range(7, 0, 3, 3),
        Some(vec![reset_event(7, 0, 3)])
    );
    assert_eq!(buffer.events_in_id_range(7, 0, 3, 5), None);
}

#[test]
fn retention_of_zero_means_one() {
    let mut buffer = SemanticEventBuffer::new(0);
    assert_eq!(buffer.apply(reset_event(7, 0, 0)), ApplyOutcome::Applied);
    assert_eq!(buffer.apply(reset_event(7, 0, 1)), ApplyOutcome::Applied);
    assert_eq!(buffer.events_in_id_range(7, 0, 0, 1), None);
    assert_eq!(
        buffer.events_in_id_range(7, 0, 1, 1),
        Some(vec![reset_event(7, 0, 1)])
    );
}

#[test]
fn default_retention_is_the_published_size() {
    let mut buffer = SemanticEventBuffer::default();
    for id in 0..1025 {
        assert_eq!(buffer.apply(reset_event(7, 0, id)), ApplyOutcome::Applied);
    }
    assert_eq!(buffer.events_in_id_range(7, 0, 0, 1024), None);
    assert_eq!(buffer.events_in_id_range(7, 0, 1, 1024).map(|v| v.len()), Some(1024));
}

#[test]
fn empty_ranges_are_empty_unless_invalidated() {
    let mut buffer = SemanticEventBuffer::new(4);
    assert_eq!(buffer.events_in_id_range(9, 9, 1, 0), Some(vec![]));
    buffer.apply(reset_event(7, 0, 0));
    assert_eq!(buffer.events_in_id_range(7, 0, 1, 0), Some(vec![]));
    buffer.apply(reset_event(7, 0, 3));
    assert_eq!(buffer.events_in_id_range(7, 0, 1, 0), None);
    assert_eq!(buffer.events_in_id_range(9, 9, 1, 0), Some(vec![]));
    buffer.acknowledge_invalidation(7, 0);
    assert_eq!(buffer.events_in_id_range(7, 0, 1, 0), Some(vec![]));
}

#[test]
fn unknown_streams_replay_nothing() {
    let buffer = SemanticEventBuffer::new(4);
    assert_eq!(buffer.events_in_id_range(7, 0, 0, 0), None);
    assert!(!buffer.is_invalidated(7, 0));
}

#[test]
fn invalidation_outlasts_later_events() {
    let mut buffer = SemanticEventBuffer::new(4);
    assert_eq!(buffer.apply(reset_event(7, 0, 1)), ApplyOutcome::Gap { expected: 0, got: 1 });
    assert_eq!(buffer.apply(reset_event(7, 0, 2)), ApplyOutcome::Applied);
    assert_eq!(buffer.apply(reset_event(7, 0, 0)), ApplyOutcome::Duplicate);
    assert!(buffer.is_invalidated(7, 0));
    assert_eq!(buffer.events_in_id_range(7, 0, 1, 2), None);
    buffer.acknowledge_invalidation(7, 0);
    assert!(!buffer.is_invalidated(7, 0));
    assert_eq!(
        buffer.events_in_id_range(7, 0, 1, 2),
        Some(vec![reset_event(7, 0, 1), reset_event(7, 0, 2)])
    );
    // What lay before the gap is gone.
    assert_eq!(buffer.events_in_id_range(7, 0, 0, 2), None);
}

#[test]
fn a_gap_drops_what_was_buffered_before_it() {
    let mut buffer = SemanticEventBuffer::new(4);
    for id in 0..3 {
        buffer.apply(reset_event(7, 0, id));
    }
    assert_eq!(buffer.apply(reset_event(7, 0, 9)), ApplyOutcome::Gap { expected: 3, got: 9 });
    buffer.acknowledge_invalidation(7, 0);
    assert_eq!(buffer.events_in_id_range(7, 0, 2, 2), None);
    assert_eq!(buffer.events_in_id_range(7, 0, 9, 9), Some(vec![reset_event(7, 0, 9)]));
}

#[test]
fn acknowledging_an_unknown_stream_does_nothing() {
    let mut buffer = SemanticEventBuffer::new(4);
    buffer.acknowledge_invalidation(7, 0);
    assert!(!buffer.is_invalidated(7, 0));
    assert_eq!(buffer.apply(reset_event(7, 0, 0)), ApplyOutcome::Applied);
}

#[test]
fn taken_events_stay_duplicates() {
    let mut buffer = SemanticEventBuffer::new(2);
    for id in 0..6 {
        buffer.apply(reset_event(7, 0, id));
    }
    for id in 0..6 {
        assert_eq!(buffer.apply(reset_event(7, 0, id)), ApplyOutcome::Duplicate);
    }
    assert_eq!(buffer.apply(reset_event(7, 0, 6)), ApplyOutcome::Applied);
}

#[test]
fn snapshots_reset_listed_streams_only() {
    let mut buffer = SemanticEventBuffer::new(4);
    buffer.apply(reset_event(7, 0, 3));
    buffer.apply(reset_event(8, 0, 0));
    let donors = vec![reset_event(1, 1, 1), reset_event(2, 2, 2)];
    let loaded = buffer.apply_snapshot(vec![(7, 0, 10), (9, 0, 4), (7, 0, 12)], donors.clone());
    assert_eq!(loaded, donors);
    // The last watermark for a stream counts, and clears the invalidation and the buffer.
    assert!(!buffer.is_invalidated(7, 0));
    assert_eq!(buffer.events_in_id_range(7, 0, 3, 3), None);
    assert_eq!(buffer.apply(reset_event(7, 0, 11)), ApplyOutcome::Duplicate);
    assert_eq!(buffer.apply(reset_event(7, 0, 12)), ApplyOutcome::Applied);
    assert_eq!(buffer.apply(reset_event(9, 0, 6)), ApplyOutcome::Gap { expected: 4, got: 6 });
    // Unlisted streams stay, and the donors are not buffered.
    assert_eq!(buffer.events_in_id_range(8, 0, 0, 0), Some(vec![reset_event(8, 0, 0)]));
    assert_eq!(buffer.events_in_id_range(1, 1, 1, 1), None);
}

#[test]
fn a_snapshot_can_move_a_cursor_back() {
    let mut buffer = SemanticEventBuffer::new(4);
    for id in 0..5 {
        buffer.apply(reset_event(7, 0, id));
    }
    buffer.apply_snapshot(vec![(7, 0, 2)], vec![]);
    assert_eq!(buffer.apply(reset_event(7, 0, 2)), ApplyOutcome::Applied);
}

#[test]
fn ids_up_to_the_last_but_one_are_taken() {
    let mut buffer = SemanticEventBuffer::new(4);
    buffer.apply_snapshot(vec![(7, 0, u64::MAX - 1)], vec![]);
    assert_eq!(buffer.apply(reset_event(7, 0, u64::MAX - 1)), ApplyOutcome::Applied);
    assert_eq!(
        buffer.events_in_id_range(7, 0, u64::MAX - 1, u64::MAX - 1),
        Some(vec![reset_event(7, 0, u64::MAX - 1)])
    );
    assert_eq!(buffer.events_in_id_range(7, 0, u64::MAX - 1, u64::MAX), None);
}

#[test]
fn replayed_events_are_whole() {
    let mut buffer = SemanticEventBuffer::new(8);
    let mut rich = segment(1, (0, 128));
    rich.block_hashes = Some(vec![ExternalSequenceBlockHash(3), ExternalSequenceBlockHash(4)]);
    rich.provider_metadata = None;
    let mut registered = registered_event(0, Uuid::from_u128(77), vec![rich, segment(2, (128, 256))]);
    if let SemanticKvEventData::DonorRegistered(donor) = &mut registered.data {
        donor.namespace.lora = Some("adapter-a".to_string());
        donor.namespace.extra.insert("k".to_string(), "v".to_string());
        donor.location = DonorLocation::Shared {
            backend: "mooncake".to_string(),
            tier: StorageTier::External,
            locator: vec![0xde, 0xad],
        };
    }
    let mut partial = reset_event(7, 0, 1);
    partial.data = SemanticKvEventData::DonorEvicted(DonorEvicted {
        donor_id: Uuid::from_u128(77),
        segments: Some(vec![1, 3]),
        provider_generation: 5,
    });
    let mut whole = reset_event(7, 0, 2);
    whole.data = SemanticKvEventData::DonorEvicted(DonorEvicted {
        donor_id: Uuid::nil(),
        segments: None,
        provider_generation: 5,
    });
    let mut by_worker = reset_event(7, 0, 3);
    by_worker.data = SemanticKvEventData::DonorsPurged(DonorsPurged {
        scope: PurgeScope::Worker { worker_id: 7 },
        provider_generation: 6,
    });
    let mut by_location = reset_event(7, 0, 4);
    by_location.data = SemanticKvEventData::DonorsPurged(DonorsPurged {
        scope: PurgeScope::Location {
            location: DonorLocation::Shared {
                backend: "mooncake".to_string(),
                tier: StorageTier::Disk,
                locator: vec![],
            },
        },
        provider_generation: 6,
    });
    let mut everything = reset_event(7, 0, 5);
    everything.data = SemanticKvEventData::DonorsPurged(DonorsPurged {
        scope: PurgeScope::All,
        provider_generation: 6,
    });
    let events = vec![registered, partial, whole, by_worker, by_location, everything];
    for event in &events {
        assert_eq!(buffer.apply(event.clone()), ApplyOutcome::Applied);
    }
    assert_eq!(buffer.events_in_id_range(7, 0, 0, 5), Some(events));
}

#[test]
fn replay_goes_on_past_an_acknowledged_gap_amid_other_calls() {
    let mut buffer = SemanticEventBuffer::new(8);
    assert_eq!(buffer.apply(reset_event(7, 0, 0)), ApplyOutcome::Applied);
    assert_eq!(buffer.apply(reset_event(7, 0, 4)), ApplyOutcome::Gap { expected: 1, got: 4 });
    buffer.apply(reset_event(8, 0, 0));
    buffer.acknowledge_invalidation(7, 0);
    assert_eq!(buffer.apply(reset_event(7, 0, 5)), ApplyOutcome::Applied);
    buffer.apply_snapshot(vec![(8, 0, 9)], vec![]);
    assert_eq!(buffer.apply(reset_event(7, 0, 4)), ApplyOutcome::Duplicate);
    let mut foreign = reset_event(7, 0, 6);
    foreign.schema_version = 2;
    assert_eq!(buffer.apply(foreign), ApplyOutcome::VersionUnsupported { got: 2 });
    assert_eq!(buffer.apply(reset_event(7, 0, 6)), ApplyOutcome::Applied);
    assert_eq!(
        buffer.events_in_id_range(7, 0, 4, 6),
        Some(vec![reset_event(7, 0, 4), reset_event(7, 0, 5), reset_event(7, 0, 6)])
    );
}

#[test]
fn the_last_accepted_event_of_an_id_is_retained() {
    let mut buffer = SemanticEventBuffer::new(8);
    for id in 0..3 {
        buffer.apply(reset_event(7, 0, id));
    }
    buffer.apply_snapshot(vec![(7, 0, 1)], vec![]);
    let mut rewritten = reset_event(7, 0, 1);
    rewritten.data = SemanticKvEventData::ProviderGenerationReset { generation: 1 };
    assert_eq!(buffer.apply(rewritten.clone()), ApplyOutcome::Applied);
    // A duplicate with other content is not accepted.
    assert_eq!(buffer.apply(reset_event(7, 0, 1)), ApplyOutcome::Duplicate);
    assert_eq!(buffer.events_in_id_range(7, 0, 1, 1), Some(vec![rewritten]));
}

#[test]
fn lower_ids_are_duplicates_after_gaps_and_acknowledgements() {
    let mut buffer = SemanticEventBuffer::new(2);
    buffer.apply(reset_event(7, 0, 5));
    buffer.acknowledge_invalidation(7, 0);
    buffer.apply_snapshot(vec![(7, 1, 0)], vec![]);
    for id in 0..6 {
        assert_eq!(buffer.apply(reset_event(7, 0, id)), ApplyOutcome::Duplicate);
    }
}

#[test]
fn only_a_gap_since_the_last_acknowledgement_counts() {
    let mut buffer = SemanticEventBuffer::new(4);
    buffer.apply(reset_event(7, 0, 2));
    assert!(buffer.is_invalidated(7, 0));
    buffer.acknowledge_invalidation(8, 0);
    assert!(buffer.is_invalidated(7, 0));
    buffer.acknowledge_invalidation(7, 0);
    buffer.apply(reset_event(7, 0, 3));
    assert!(!buffer.is_invalidated(7, 0));
    buffer.apply(reset_event(7, 0, 9));
    assert!(buffer.is_invalidated(7, 0));
    buffer.apply_snapshot(vec![(8, 0, 1)], vec![]);
    assert!(buffer.is_invalidated(7, 0));
    buffer.apply_snapshot(vec![(7, 0, 20)], vec![]);
    assert!(!buffer.is_invalidated(7, 0));
}
