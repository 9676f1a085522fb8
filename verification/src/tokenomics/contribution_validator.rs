//! The validators that check contributions: zero-knowledge proof verifiers
//! by kind of work, the basic hash check for kinds without one, the compute
//! units each kind of work is worth, and the registry of validated
//! workloads that exposes duplicate work.
use vstd::prelude::*;
use vstd::bytes::{spec_u64_to_le_bytes, u64_to_le_bytes};
use vstd::utf8::encode_utf8;
use crate::address::Address;
use crate::sys::{blake3_digest, blake3_hash};
use crate::text::{push_all, text};
use crate::tokenomics::ContributionType;
use crate::vecmap::{KeyEq, VecMap};

verus! {

impl View for ContributionType {
    type V = ContributionType;

    open spec fn view(&self) -> ContributionType {
        *self
    }
}

impl KeyEq for ContributionType {
    fn key_eq(&self, other: &Self) -> (r: bool) {
        *self == *other
    }
}

/// A 32-byte workload hash, as a registry key.
#[derive(Debug, Clone, Copy, PartialEq, Eq)]
pub struct WorkloadKey(pub [u8; 32]);

impl View for WorkloadKey {
    type V = Seq<u8>;

    open spec fn view(&self) -> Seq<u8> {
        self.0@
    }
}

impl KeyEq for WorkloadKey {
    fn key_eq(&self, other: &Self) -> (r: bool) {
        let mut i: usize = 0;
        while i < 32
            invariant
                i <= 32,
                forall|j: int| 0 <= j < i ==> self.0@[j] == other.0@[j],
            decreases 32 - i,
        {
            if self.0[i] != other.0[i] {
                return false;
            }
            i = i + 1;
        }
        proof {
            assert(self.0@ =~= other.0@);
        }
        true
    }
}

/// Checks the zero-knowledge proofs of one proof system.
#[derive(Debug)]
pub struct ZKProofVerifier {
    pub proof_system: String,
}

impl ZKProofVerifier {
    /// A verifier for a proof system.
    pub fn new(proof_system: String) -> (r: ZKProofVerifier)
        ensures
            r.proof_system == proof_system,
    {
        ZKProofVerifier { proof_system }
    }

    /// Whether a proof is accepted for a workload hash: both are present.
    pub fn verify(&self, proof: &[u8], workload_hash: &[u8]) -> (r: bool)
        ensures
            r == (proof@.len() > 0 && workload_hash@.len() > 0),
    {
        proof.len() > 0 && workload_hash.len() > 0
    }
}

/// What a workload hash is computed from when a kind of work has no
/// proof verifier: the contributor's address, the timestamp in
/// nanoseconds (little-endian) and the metadata's JSON text.
pub open spec fn basic_proof_preimage(contributor: Seq<u8>, timestamp_nanos: i64, metadata_json: Seq<char>) -> Seq<u8> {
    contributor + spec_u64_to_le_bytes(timestamp_nanos as u64) + encode_utf8(metadata_json)
}

/// Whether a workload hash is the BLAKE3 digest of its basic preimage.
pub fn verify_basic_proof(contributor: &Address, timestamp_nanos: i64, metadata_json: &str, workload_hash: &[u8]) -> (r:
    bool)
    ensures
        r == (blake3_digest(basic_proof_preimage(contributor@, timestamp_nanos, metadata_json@)) == workload_hash@),
{
    let mut data: Vec<u8> = Vec::new();
    push_all(&mut data, &contributor.0);
    push_all(&mut data, u64_to_le_bytes(#[verifier::truncate] (timestamp_nanos as u64)).as_slice());
    push_all(&mut data, metadata_json.as_bytes());
    proof {
        assert(data@ =~= basic_proof_preimage(contributor@, timestamp_nanos, metadata_json@));
    }
    let digest = blake3_hash(data.as_slice());
    if workload_hash.len() != 32 {
        return false;
    }
    let mut i: usize = 0;
    while i < 32
        invariant
            workload_hash@.len() == 32,
            digest@ == blake3_digest(basic_proof_preimage(contributor@, timestamp_nanos, metadata_json@)),
            i <= 32,
            forall|j: int| 0 <= j < i ==> digest@[j] == workload_hash@[j],
        decreases 32 - i,
    {
        if digest[i] != workload_hash[i] {
            proof {
                assert(digest@[i as int] != workload_hash@[i as int]);
            }
            return false;
        }
        i = i + 1;
    }
    proof {
        assert(digest@ =~= workload_hash@);
    }
    true
}

/// Checks machine-learning training work.
#[derive(Debug)]
pub struct MLTrainingValidator;

impl MLTrainingValidator {
    /// The validator.
    pub fn new() -> (r: MLTrainingValidator) {
        MLTrainingValidator
    }

    /// Training work is worth its epochs times its batch size times its
    /// parameters in thousands.
    pub fn compute_units(&self, epochs: u64, batch_size: u64, model_parameters: u64) -> (r: u64)
        requires
            epochs * batch_size <= u64::MAX,
            epochs * batch_size * (model_parameters / 1000) <= u64::MAX,
        ensures
            r == epochs * batch_size * (model_parameters / 1000),
    {
        epochs * batch_size * (model_parameters / 1000)
    }
}

/// Checks inference work.
#[derive(Debug)]
pub struct InferenceValidator;

impl InferenceValidator {
    /// The validator.
    pub fn new() -> (r: InferenceValidator) {
        InferenceValidator
    }

    /// Inference work is worth ten units per request served.
    pub fn compute_units(&self, requests_served: u64) -> (r: u64)
        requires
            requests_served * 10 <= u64::MAX,
        ensures
            r == requests_served * 10,
    {
        requests_served * 10
    }
}

/// Checks data validation work.
#[derive(Debug)]
pub struct DataValidator;

impl DataValidator {
    /// The validator.
    pub fn new() -> (r: DataValidator) {
        DataValidator
    }

    /// Data validation is worth one unit per record validated.
    pub fn compute_units(&self, records_validated: u64) -> (r: u64)
        ensures
            r == records_validated,
    {
        records_validated
    }
}

/// The figures of a piece of work that its compute units are reckoned
/// from (each read from its metadata, with its default when absent).
#[derive(Debug, Clone, Copy, PartialEq, Eq)]
pub struct WorkloadFigures {
    pub epochs: u64,
    pub batch_size: u64,
    pub model_parameters: u64,
    pub requests_served: u64,
    pub records_validated: u64,
}

/// The compute units of work with no validator of its own.
pub const DEFAULT_COMPUTE_UNITS: u64 = 1000;

/// The compute units a piece of work of some kind is worth: training,
/// inference and data validation by their validators, anything else the
/// default.
pub open spec fn compute_units_of(c: ContributionType, f: WorkloadFigures) -> int {
    match c {
        ContributionType::MLTraining => f.epochs * f.batch_size * (f.model_parameters / 1000),
        ContributionType::InferenceServing => f.requests_served * 10,
        ContributionType::DataValidation => f.records_validated as int,
        _ => DEFAULT_COMPUTE_UNITS as int,
    }
}

/// Whether reckoning a piece of work's compute units stays within 64 bits.
pub open spec fn compute_units_fit(c: ContributionType, f: WorkloadFigures) -> bool {
    match c {
        ContributionType::MLTraining => f.epochs * f.batch_size <= u64::MAX && f.epochs * f.batch_size * (
        f.model_parameters / 1000) <= u64::MAX,
        ContributionType::InferenceServing => f.requests_served * 10 <= u64::MAX,
        _ => true,
    }
}

/// A workload that passed validation.
#[derive(Debug, Clone, Copy)]
pub struct WorkloadRecord {
    pub contributor: Address,
    pub contribution_type: ContributionType,
    /// Unix time in nanoseconds.
    pub timestamp: i64,
    pub compute_units: u64,
}

/// The registry key of a workload hash: the hash itself when it is 32
/// bytes, all zeros otherwise.
pub open spec fn workload_key(hash: Seq<u8>) -> Seq<u8> {
    if hash.len() == 32 {
        hash
    } else {
        Seq::new(32, |i: int| 0u8)
    }
}

fn key_of(workload_hash: &[u8]) -> (r: WorkloadKey)
    ensures
        r@ == workload_key(workload_hash@),
{
    let mut k = [0u8; 32];
    if workload_hash.len() == 32 {
        let mut i: usize = 0;
        while i < 32
            invariant
                workload_hash@.len() == 32,
                i <= 32,
                forall|j: int| 0 <= j < i ==> k@[j] == workload_hash@[j],
            decreases 32 - i,
        {
            k[i] = workload_hash[i];
            i = i + 1;
        }
    }
    proof {
        assert(k@ =~= workload_key(workload_hash@));
    }
    WorkloadKey(k)
}

/// The kinds of work with a proof verifier once the validator is
/// initialized, with their proof systems.
pub open spec fn initial_verifiers() -> Map<ContributionType, Seq<char>> {
    map![ContributionType::MLTraining => "groth16"@, ContributionType::InferenceServing => "plonk"@]
}

/// Validates contributions: proof verifiers by kind of work, the peers
/// asked for attestations, and the workloads validated so far.
#[derive(Debug)]
pub struct ContributionValidator {
    proof_verifiers: VecMap<ContributionType, ZKProofVerifier>,
    attestation_providers: Vec<Address>,
    workload_registry: VecMap<WorkloadKey, WorkloadRecord>,
}

impl ContributionValidator {
    /// The proof verifiers' systems, by kind of work.
    pub closed spec fn verifiers(self) -> Map<ContributionType, Seq<char>> {
        Map::new(
            |c: ContributionType| self.proof_verifiers@.contains_key(c),
            |c: ContributionType| self.proof_verifiers@[c].proof_system@,
        )
    }

    /// The validated workloads, by registry key.
    pub closed spec fn registry(self) -> Map<Seq<u8>, WorkloadRecord> {
        self.workload_registry@
    }

    /// The peers asked for attestations.
    pub closed spec fn attesters(self) -> Seq<Address> {
        self.attestation_providers@
    }

    /// The maps are well formed.
    pub closed spec fn wf(self) -> bool {
        self.proof_verifiers.wf() && self.workload_registry.wf()
    }

    /// A validator with no proof verifier, attester or workload yet.
    pub fn new() -> (r: ContributionValidator)
        ensures
            r.wf(),
            r.verifiers() == Map::<ContributionType, Seq<char>>::empty(),
            r.registry() == Map::<Seq<u8>, WorkloadRecord>::empty(),
            r.attesters() == Seq::<Address>::empty(),
    {
        let r = ContributionValidator {
            proof_verifiers: VecMap::new(),
            attestation_providers: Vec::new(),
            workload_registry: VecMap::new(),
        };
        proof {
            assert(r.verifiers() =~= Map::<ContributionType, Seq<char>>::empty());
        }
        r
    }

    /// Sets up the proof verifiers of training (Groth16) and inference
    /// (PLONK) work.
    pub fn initialize(&mut self)
        requires
            old(self).wf(),
        ensures
            final(self).wf(),
            final(self).verifiers() == old(self).verifiers().union_prefer_right(initial_verifiers()),
            final(self).registry() == old(self).registry(),
            final(self).attesters() == old(self).attesters(),
    {
        let ghost v0 = self.verifiers();
        self.proof_verifiers.insert(ContributionType::MLTraining, ZKProofVerifier::new(text("groth16")));
        self.proof_verifiers.insert(ContributionType::InferenceServing, ZKProofVerifier::new(text("plonk")));
        proof {
            reveal_strlit("groth16");
            reveal_strlit("plonk");
            assert(self.verifiers() =~= v0.union_prefer_right(initial_verifiers()));
        }
    }

    /// Whether a contribution's proof checks out: by its kind's verifier
    /// when it has one, by the basic hash check otherwise.
    pub fn verify_proof(
        &self,
        contributor: &Address,
        contribution_type: ContributionType,
        timestamp_nanos: i64,
        metadata_json: &str,
        zk_proof: &[u8],
        workload_hash: &[u8],
    ) -> (r: bool)
        requires
            self.wf(),
        ensures
            self.verifiers().contains_key(contribution_type) ==> r == (zk_proof@.len() > 0 && workload_hash@.len()
                > 0),
            !self.verifiers().contains_key(contribution_type) ==> r == (blake3_digest(
                basic_proof_preimage(contributor@, timestamp_nanos, metadata_json@),
            ) == workload_hash@),
    {
        match self.proof_verifiers.get(&contribution_type) {
            Some(verifier) => verifier.verify(zk_proof, workload_hash),
            None => verify_basic_proof(contributor, timestamp_nanos, metadata_json, workload_hash),
        }
    }

    /// The compute units a piece of work is worth.
    pub fn compute_units(&self, contribution_type: ContributionType, figures: &WorkloadFigures) -> (r: u64)
        requires
            compute_units_fit(contribution_type, *figures),
        ensures
            r == compute_units_of(contribution_type, *figures),
    {
        match contribution_type {
            ContributionType::MLTraining => MLTrainingValidator::new().compute_units(
                figures.epochs,
                figures.batch_size,
                figures.model_parameters,
            ),
            ContributionType::InferenceServing => InferenceValidator::new().compute_units(figures.requests_served),
            ContributionType::DataValidation => DataValidator::new().compute_units(figures.records_validated),
            _ => DEFAULT_COMPUTE_UNITS,
        }
    }

    /// Whether a workload with this hash was validated before.
    pub fn is_known_workload(&self, workload_hash: &[u8]) -> (r: bool)
        requires
            self.wf(),
        ensures
            r == self.registry().contains_key(workload_key(workload_hash@)),
    {
        let key = key_of(workload_hash);
        self.workload_registry.contains_key(&key)
    }

    /// Files a validated workload under its hash, replacing an earlier one.
    pub fn record_workload(&mut self, workload_hash: &[u8], record: WorkloadRecord)
        requires
            old(self).wf(),
        ensures
            final(self).wf(),
            final(self).registry() == old(self).registry().insert(workload_key(workload_hash@), record),
            final(self).verifiers() == old(self).verifiers(),
            final(self).attesters() == old(self).attesters(),
    {
        let key = key_of(workload_hash);
        let ghost v0 = self.verifiers();
        self.workload_registry.insert(key, record);
        proof {
            assert(self.verifiers() =~= v0);
        }
    }

    /// The peers asked for attestations.
    pub fn get_attestation_providers(&self) -> (r: &[Address])
        ensures
            r@ == self.attesters(),
    {
        self.attestation_providers.as_slice()
    }
}

} // verus!
