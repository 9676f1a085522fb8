//! Privacy-preserving computation: the statuses, privacy levels, proofs
//! and circuits of federated learning, homomorphic encryption and
//! zero-knowledge computation.
use vstd::prelude::*;
use crate::address::Address;
use crate::vecmap::VecMap;
use crate::text::text;

verus! {

/// Where a federated learning task stands.
#[derive(Debug, Clone, Copy, PartialEq, Eq, Structural)]
pub enum FederatedTaskStatus {
    Active,
    Completed,
    Failed,
}

/// How much privacy a contribution asks for.
#[derive(Debug, Clone, Copy, PartialEq, Eq, Structural)]
pub enum PrivacyLevel {
    Basic,
    DifferentialPrivacy,
    HomomorphicEncryption,
    ZeroKnowledge,
    FullyPrivate,
}

/// How encrypted data was encrypted.
#[derive(Debug)]
pub struct EncryptionMetadata {
    pub scheme: String,
    pub key_id: String,
    pub parameters: VecMap<String, String>,
}

/// A zero-knowledge proof of a private computation.
#[derive(Debug)]
pub struct ZKProof {
    pub proof_data: Vec<u8>,
    pub public_inputs: Vec<u8>,
    pub verification_key_hash: Vec<u8>,
}

/// A proof that updates were aggregated correctly.
#[derive(Debug)]
pub struct AggregationProof {
    pub protocol_id: String,
    pub participant_commitments: Vec<Vec<u8>>,
    pub aggregation_hash: Vec<u8>,
}

/// Which checks a private contribution passed.
#[derive(Debug, Clone, Copy, PartialEq, Eq)]
pub struct VerificationDetails {
    pub zk_proof_valid: bool,
    pub differential_privacy_valid: bool,
    pub secure_aggregation_valid: bool,
}

/// The verdict on encrypted data.
#[derive(Debug)]
pub struct EncryptionValidation {
    pub is_valid: bool,
    pub encryption_scheme: String,
    pub security_level: u32,
}

/// The result of a computation on encrypted data.
#[derive(Debug)]
pub struct EncryptedComputationResult {
    pub proof: Vec<u8>,
    pub estimated_value: u64,
    pub computation_time_ms: u64,
}

/// A circuit for computing on encrypted data.
#[derive(Debug)]
pub struct ComputationCircuit {
    pub circuit_id: String,
    pub parameters: VecMap<String, String>,
}

/// A circuit for zero-knowledge proofs.
#[derive(Debug)]
pub struct ProofCircuit {
    pub circuit_name: String,
    pub constraint_count: u32,
}

/// Keeps participants' public keys and the circuits for encrypted
/// computation.
#[derive(Debug)]
pub struct HomomorphicEncryptionManager {
    pub public_keys: VecMap<Address, Vec<u8>>,
    pub computation_circuits: VecMap<String, ComputationCircuit>,
}

impl HomomorphicEncryptionManager {
    /// No keys and no circuits.
    pub fn new() -> (r: HomomorphicEncryptionManager)
        ensures
            r.public_keys.wf(),
            r.public_keys@ == Map::<Seq<u8>, Vec<u8>>::empty(),
            r.computation_circuits.wf(),
            r.computation_circuits@ == Map::<Seq<char>, ComputationCircuit>::empty(),
    {
        HomomorphicEncryptionManager { public_keys: VecMap::new(), computation_circuits: VecMap::new() }
    }
}

/// Keeps the circuits for zero-knowledge computation.
#[derive(Debug)]
pub struct ZKPrivateCompute {
    pub proof_circuits: VecMap<String, ProofCircuit>,
}

impl ZKPrivateCompute {
    /// No circuits.
    pub fn new() -> (r: ZKPrivateCompute)
        ensures
            r.proof_circuits.wf(),
            r.proof_circuits@ == Map::<Seq<char>, ProofCircuit>::empty(),
    {
        ZKPrivateCompute { proof_circuits: VecMap::new() }
    }
}

/// Data contributed in encrypted form to a federated task.
#[derive(Debug)]
pub struct EncryptedContribution {
    pub task_id: u128,
    pub contributor: Address,
    pub encrypted_data: Vec<u8>,
    pub encryption_metadata: EncryptionMetadata,
    /// Unix seconds.
    pub timestamp: i64,
}

/// What a contributor is given for an encrypted contribution: a proof of
/// the computation on it and the value it is estimated to be worth.
#[derive(Debug)]
pub struct ContributionReceipt {
    pub contributor: Address,
    pub task_id: u128,
    /// Unix seconds.
    pub submission_time: i64,
    pub computation_proof: Vec<u8>,
    pub privacy_level: PrivacyLevel,
    pub estimated_contribution_value: u64,
}

/// Why a private contribution was refused.
#[derive(Debug, Clone, Copy, PartialEq, Eq)]
pub enum PrivacyError {
    /// The encrypted data did not validate.
    InvalidEncryptedContribution,
}

impl HomomorphicEncryptionManager {
    /// Checks encrypted data: every contribution is accepted as CKKS data
    /// at 128-bit security.
    pub fn validate_encrypted_data(&self, encrypted_data: &EncryptedContribution) -> (r: EncryptionValidation)
        ensures
            r.is_valid,
            r.encryption_scheme@ == "CKKS"@,
            r.security_level == 128,
    {
        EncryptionValidation { is_valid: true, encryption_scheme: text("CKKS"), security_level: 128 }
    }

    /// Computes on encrypted data without decrypting it: a fixed proof,
    /// an estimated value of 1000 and 500 ms of computation.
    pub fn compute_on_encrypted_data(&self, encrypted_data: &EncryptedContribution) -> (r:
        EncryptedComputationResult)
        ensures
            r.proof@ == seq![1u8, 2u8, 3u8, 4u8],
            r.estimated_value == 1000,
            r.computation_time_ms == 500,
    {
        let mut bytes: Vec<u8> = Vec::new();
        bytes.push(1);
        bytes.push(2);
        bytes.push(3);
        bytes.push(4);
        proof {
            assert(bytes@ =~= seq![1u8, 2u8, 3u8, 4u8]);
        }
        EncryptedComputationResult { proof: bytes, estimated_value: 1000, computation_time_ms: 500 }
    }

    /// Takes a contributor's encrypted contribution at `now`: refused when
    /// the data does not validate; otherwise the receipt carries the
    /// computation's proof and estimated value, at the homomorphic
    /// encryption privacy level.
    pub fn process_encrypted_contribution(
        &self,
        contributor: &Address,
        encrypted_data: &EncryptedContribution,
        now: i64,
    ) -> (r: Result<ContributionReceipt, PrivacyError>)
        ensures
            r matches Ok(receipt) && receipt.contributor == *contributor && receipt.task_id
                == encrypted_data.task_id && receipt.submission_time == now && receipt.computation_proof@
                == seq![1u8, 2u8, 3u8, 4u8] && receipt.privacy_level == PrivacyLevel::HomomorphicEncryption
                && receipt.estimated_contribution_value == 1000,
    {
        let validation = self.validate_encrypted_data(encrypted_data);
        if !validation.is_valid {
            return Err(PrivacyError::InvalidEncryptedContribution);
        }
        let result = self.compute_on_encrypted_data(encrypted_data);
        Ok(
            ContributionReceipt {
                contributor: *contributor,
                task_id: encrypted_data.task_id,
                submission_time: now,
                computation_proof: result.proof,
                privacy_level: PrivacyLevel::HomomorphicEncryption,
                estimated_contribution_value: result.estimated_value,
            },
        )
    }
}

} // verus!
