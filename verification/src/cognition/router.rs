//! Intelligence tiers the router dispatches to.
use vstd::prelude::*;

verus! {

/// Compute tier a request may be routed to, smallest first.
#[derive(Debug, Clone, Copy, PartialEq, Eq)]
pub enum IntelligenceTier {
    /// Lightweight on-device reflexes.
    Pulse,
    /// Mid-size models.
    Bridge,
    /// Full-size models.
    BigBrain,
}

} // verus!
