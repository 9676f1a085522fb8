//! The staking module: time-based staking, slashing and yield curves (its
//! start-up only).
use vstd::prelude::*;

verus! {

/// The staking module.
#[derive(Debug)]
pub struct StakingModule;

impl StakingModule {
    /// The module.
    pub fn new() -> (r: StakingModule) {
        StakingModule
    }
}

} // verus!
