//! Temporal dynamics of token rewards. No decay is applied yet: a reward
//! passes through unchanged.
use vstd::prelude::*;
use crate::address::Address;

verus! {

/// Applies time-based decay or growth to rewards.
#[derive(Debug)]
pub struct DecayMechanism {}

impl DecayMechanism {
    /// The mechanism.
    pub fn new() -> (r: DecayMechanism) {
        DecayMechanism {}
    }

    /// The reward a contributor receives after temporal dynamics: for now,
    /// the base reward itself.
    pub fn apply_temporal_dynamics(&self, contributor: &Address, base_reward: u64) -> (r: u64)
        ensures
            r == base_reward,
    {
        base_reward
    }
}

} // verus!
