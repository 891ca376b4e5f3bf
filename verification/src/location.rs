//! Where reusable KV physically resides.

use vstd::prelude::*;

use crate::protocols::{DpRank, StorageTier, WorkerId};

verus! {

/// Where reusable KV physically resides. Structured for what can be reasoned about (reachability,
/// transfer-cost class); the exact address within a shared store is opaque.
#[derive(Debug, PartialEq, Eq)]
pub enum DonorLocation {
    /// Resident on a specific worker, at a specific memory tier.
    Worker { worker_id: WorkerId, dp_rank: DpRank, tier: StorageTier },
    /// In a store reachable independently of any single worker. `backend` names the kind of store;
    /// `locator` is the store-specific address, resolved by the connector that owns the backend.
    Shared { backend: String, tier: StorageTier, locator: Vec<u8> },
}

/// A [`DonorLocation`] as a mathematical value.
#[verifier::ext_equal]
pub enum DonorLocationView {
    Worker { worker_id: WorkerId, dp_rank: DpRank, tier: StorageTier },
    Shared { backend: Seq<char>, tier: StorageTier, locator: Seq<u8> },
}

impl View for DonorLocation {
    type V = DonorLocationView;

    open spec fn view(&self) -> DonorLocationView {
        match *self {
            DonorLocation::Worker { worker_id, dp_rank, tier } => DonorLocationView::Worker {
                worker_id,
                dp_rank,
                tier,
            },
            DonorLocation::Shared { backend, tier, locator } => DonorLocationView::Shared {
                backend: backend@,
                tier,
                locator: locator@,
            },
        }
    }
}

impl Clone for DonorLocation {
    fn clone(&self) -> (res: Self)
        ensures
            res@ == self@,
    {
        match self {
            DonorLocation::Worker { worker_id, dp_rank, tier } => DonorLocation::Worker {
                worker_id: *worker_id,
                dp_rank: *dp_rank,
                tier: *tier,
            },
            DonorLocation::Shared { backend, tier, locator } => {
                let copy: Vec<u8> = locator.clone();
                assert(copy@ =~= locator@);
                DonorLocation::Shared { backend: backend.clone(), tier: *tier, locator: copy }
            },
        }
    }
}

impl DonorLocationView {
    /// The worker that the KV goes away with, if there is one.
    pub open spec fn owning_worker(self) -> Option<WorkerId> {
        match self {
            DonorLocationView::Worker { worker_id, .. } => Some(worker_id),
            DonorLocationView::Shared { .. } => None,
        }
    }

    /// The memory tier of the location, on a worker or in a shared store.
    pub open spec fn tier(self) -> StorageTier {
        match self {
            DonorLocationView::Worker { tier, .. } => tier,
            DonorLocationView::Shared { tier, .. } => tier,
        }
    }
}

impl DonorLocation {
    /// The owning worker, if this location is pinned to one; `None` for a shared store. A liveness
    /// purge goes by it to decide what a worker's removal drops.
    pub fn owning_worker(&self) -> (owner: Option<WorkerId>)
        ensures
            owner == self@.owning_worker(),
            match *self {
                DonorLocation::Worker { worker_id, dp_rank, tier } => owner == Some(worker_id),
                DonorLocation::Shared { backend, tier, locator } => owner is None,
            },
    {
        match self {
            DonorLocation::Worker { worker_id, .. } => Some(*worker_id),
            DonorLocation::Shared { .. } => None,
        }
    }

    /// The memory tier of this location.
    pub fn tier(&self) -> (tier: StorageTier)
        ensures
            tier == self@.tier(),
            match *self {
                DonorLocation::Worker { worker_id, dp_rank, tier: at } => tier == at,
                DonorLocation::Shared { backend, tier: at, locator } => tier == at,
            },
    {
        match self {
            DonorLocation::Worker { tier, .. } => *tier,
            DonorLocation::Shared { tier, .. } => *tier,
        }
    }
}

} // verus!
