//! The governance module: token-weighted, quadratic and reputation-based
//! voting (its start-up only).
use vstd::prelude::*;

verus! {

/// The governance module.
#[derive(Debug)]
pub struct GovernanceModule;

impl GovernanceModule {
    /// The module.
    pub fn new() -> (r: GovernanceModule) {
        GovernanceModule
    }
}

} // verus!
