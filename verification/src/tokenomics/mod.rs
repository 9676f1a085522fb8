//! Tokenomics: the PAR token ledger and the bookkeeping built on it, and
//! the helpers that prepare a contribution's proof.
use vstd::prelude::*;
use crate::text::text;

pub mod advanced_governance;
pub mod ai_agent_governance;
pub mod ai_optimizer;
pub mod analytics_api;
pub mod bridge_adapter;
pub mod contribution_validator;
pub mod core_token;
pub mod decay_mechanism;
pub mod governance_module;
pub mod model_hosting;
pub mod network_analytics;
pub mod privacy_preserving;
pub mod quantum_resistant;
pub mod reputation_ledger;
pub mod reward_engine;
pub mod staking_module;
pub mod temporal_evolution;
pub mod treasury_manager;

verus! {

/// The kinds of work the network rewards.
#[derive(Debug, Clone, Copy, PartialEq, Eq, Hash, Structural)]
pub enum ContributionType {
    MLTraining,
    InferenceServing,
    DataValidation,
    ModelOptimization,
    NetworkMaintenance,
    GovernanceParticipation,
    CrossPlatformCompute,
    StorageProvision,
    GenerativeMedia,
    SymbolicMath,
    Simulation,
    MediaGeneration,
}

/// The proof circuit a kind of contribution is proved with; kinds without
/// a circuit of their own borrow the closest one.
pub open spec fn proof_type(c: ContributionType) -> Seq<char> {
    match c {
        ContributionType::MLTraining => "ml_training"@,
        ContributionType::InferenceServing => "inference_serving"@,
        ContributionType::DataValidation => "data_validation"@,
        ContributionType::ModelOptimization => "model_optimization"@,
        ContributionType::NetworkMaintenance => "network_maintenance"@,
        ContributionType::GovernanceParticipation => "governance_participation"@,
        ContributionType::CrossPlatformCompute => "ml_training"@,
        ContributionType::StorageProvision => "data_validation"@,
        ContributionType::GenerativeMedia => "ml_training"@,
        ContributionType::SymbolicMath => "model_optimization"@,
        ContributionType::Simulation => "ml_training"@,
        ContributionType::MediaGeneration => "ml_training"@,
    }
}

/// The name of the proof circuit for a kind of contribution.
pub fn get_proof_type_for_contribution(contribution_type: &ContributionType) -> (r: String)
    ensures
        r@ == proof_type(*contribution_type),
{
    match contribution_type {
        ContributionType::MLTraining => text("ml_training"),
        ContributionType::InferenceServing => text("inference_serving"),
        ContributionType::DataValidation => text("data_validation"),
        ContributionType::ModelOptimization => text("model_optimization"),
        ContributionType::NetworkMaintenance => text("network_maintenance"),
        ContributionType::GovernanceParticipation => text("governance_participation"),
        ContributionType::CrossPlatformCompute => text("ml_training"),
        ContributionType::StorageProvision => text("data_validation"),
        ContributionType::GenerativeMedia => text("ml_training"),
        ContributionType::SymbolicMath => text("model_optimization"),
        ContributionType::Simulation => text("ml_training"),
        ContributionType::MediaGeneration => text("ml_training"),
    }
}

/// A workload byte's image in the workload hash: `31 b + 17` modulo 256.
pub open spec fn workload_byte(b: u8) -> u8 {
    ((b * 31 + 17) % 256) as u8
}

proof fn lemma_workload_byte(b: u8)
    ensures
        b.wrapping_mul(31).wrapping_add(17) == workload_byte(b),
{
    let m = (b * 31) % 256;
    assert((b * 31 + 17) % 256 == (m + 17) % 256) by (nonlinear_arith)
        requires
            m == (b * 31) % 256,
    ;
    assert(0 <= m < 256);
}

/// The workload hash: each byte of the workload mapped by `workload_byte`.
pub fn compute_workload_hash(data: &[u8]) -> (r: Vec<u8>)
    ensures
        r@ == data@.map_values(|b: u8| workload_byte(b)),
{
    let mut out: Vec<u8> = Vec::new();
    let n = data.len();
    let mut i: usize = 0;
    while i < n
        invariant
            n == data@.len(),
            i <= n,
            out@ == data@.take(i as int).map_values(|b: u8| workload_byte(b)),
        decreases n - i,
    {
        proof {
            lemma_workload_byte(data[i as int]);
        }
        out.push(data[i].wrapping_mul(31).wrapping_add(17));
        i = i + 1;
        proof {
            assert(out@ =~= data@.take(i as int).map_values(|b: u8| workload_byte(b)));
        }
    }
    proof {
        assert(data@.take(n as int) =~= data@);
    }
    out
}

/// The randomness a contribution proof is made with: 32 bytes of 42.
pub fn generate_secure_randomness() -> (r: Vec<u8>)
    ensures
        r@ == Seq::new(32, |i: int| 42u8),
{
    let mut out: Vec<u8> = Vec::new();
    let mut i: usize = 0;
    while i < 32
        invariant
            i <= 32,
            out@ == Seq::new(i as nat, |j: int| 42u8),
        decreases 32 - i,
    {
        out.push(42);
        i = i + 1;
        proof {
            assert(out@ =~= Seq::new(i as nat, |j: int| 42u8));
        }
    }
    out
}

/// A challenge byte: the statement byte plus 127, modulo 256.
pub open spec fn challenge_byte(b: u8) -> u8 {
    ((b + 127) % 256) as u8
}

/// The challenge for a statement: its first sixteen bytes (fewer when it is
/// shorter), each mapped by `challenge_byte`.
pub fn generate_challenge(statement: &[u8]) -> (r: Vec<u8>)
    ensures
        r@ == statement@.take(if statement@.len() < 16 {
            statement@.len() as int
        } else {
            16
        }).map_values(|b: u8| challenge_byte(b)),
{
    let n: usize = if statement.len() < 16 {
        statement.len()
    } else {
        16
    };
    let mut out: Vec<u8> = Vec::new();
    let mut i: usize = 0;
    while i < n
        invariant
            n <= statement@.len(),
            i <= n,
            out@ == statement@.take(i as int).map_values(|b: u8| challenge_byte(b)),
        decreases n - i,
    {
        out.push(statement[i].wrapping_add(127));
        i = i + 1;
        proof {
            assert(out@ =~= statement@.take(i as int).map_values(|b: u8| challenge_byte(b)));
        }
    }
    out
}

} // verus!
