use semantic_events::{DonorLocation, StorageTier};

#[test]
fn worker_locations_are_owned_by_their_worker() {
    let location = DonorLocation::Worker { worker_id: 7, dp_rank: 3, tier: StorageTier::HostPinned };
    assert_eq!(location.owning_worker(), Some(7));
    assert_eq!(location.tier(), StorageTier::HostPinned);
    assert_eq!(location.clone(), location);
}

#[test]
fn shared_locations_have_no_owner() {
    let location = DonorLocation::Shared {
        backend: "mooncake".to_string(),
        tier: StorageTier::External,
        locator: vec![0xde, 0xad],
    };
    assert_eq!(location.owning_worker(), None);
    assert_eq!(location.tier(), StorageTier::External);
    assert_eq!(location.clone(), location);
}
