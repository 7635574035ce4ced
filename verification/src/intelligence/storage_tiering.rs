//! Hot, warm and cold storage tiers, chosen from a fact's access pattern.
use vstd::prelude::*;

verus! {

/// Where a fact is stored.
#[derive(Debug, Clone, Copy, PartialEq, Eq, Structural)]
pub enum StorageTier {
    /// Frequently accessed: first in retrieval.
    Hot,
    /// Normally accessed.
    Warm,
    /// Rarely accessed: a candidate for archival.
    Cold,
}

/// Chooses a tier from access counts and ages.
pub struct TieringEngine {
    /// Accesses from which a fact is hot.
    pub hot_threshold: u32,
    /// Days without access after which a fact is cold.
    pub cold_after_days: u32,
}

/// The tier of a fact: hot from the threshold of accesses on, whatever its
/// age; else cold once past the age limit; else warm.
pub open spec fn tier_of(hot_threshold: u32, cold_after_days: u32, access_count: u32, days: u32) -> StorageTier {
    if access_count >= hot_threshold {
        StorageTier::Hot
    } else if days > cold_after_days {
        StorageTier::Cold
    } else {
        StorageTier::Warm
    }
}

impl Default for TieringEngine {
    fn default() -> (r: Self)
        ensures
            r.hot_threshold == 5,
            r.cold_after_days == 90,
    {
        TieringEngine { hot_threshold: 5, cold_after_days: 90 }
    }
}

impl TieringEngine {
    /// The tier of a fact with the given access count and days since its
    /// last access.
    pub fn classify(&self, access_count: u32, days_since_access: u32) -> (r: StorageTier)
        ensures
            r == tier_of(self.hot_threshold, self.cold_after_days, access_count, days_since_access),
    {
        if access_count >= self.hot_threshold {
            StorageTier::Hot
        } else if days_since_access > self.cold_after_days {
            StorageTier::Cold
        } else {
            StorageTier::Warm
        }
    }
}

/// More accesses never cool a fact down, and more days never warm it up.
pub proof fn lemma_tier_monotone(h: u32, c: u32, a1: u32, a2: u32, d1: u32, d2: u32)
    requires
        a1 <= a2,
        d2 <= d1,
    ensures
        tier_of(h, c, a1, d1) == StorageTier::Hot ==> tier_of(h, c, a2, d2) == StorageTier::Hot,
        tier_of(h, c, a2, d2) == StorageTier::Cold ==> tier_of(h, c, a1, d1) == StorageTier::Cold,
{
}

} // verus!
