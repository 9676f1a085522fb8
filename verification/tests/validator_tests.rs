use paradigm_core::address::Address;
use paradigm_core::tokenomics::contribution_validator::{
    verify_basic_proof, ContributionValidator, WorkloadFigures, WorkloadRecord, ZKProofVerifier,
    DEFAULT_COMPUTE_UNITS,
};
use paradigm_core::tokenomics::ContributionType;

fn figures() -> WorkloadFigures {
    WorkloadFigures { epochs: 10, batch_size: 64, model_parameters: 1_000_000, requests_served: 7, records_validated: 9 }
}

#[test]
fn training_contribution_validates_with_its_compute_units() {
    let mut validator = ContributionValidator::new();
    validator.initialize();
    let contributor = Address([8u8; 32]);
    assert!(validator.verify_proof(&contributor, ContributionType::MLTraining, 0, "{}", &[5, 6, 7, 8], &[1, 2, 3, 4]));
    assert_eq!(validator.compute_units(ContributionType::MLTraining, &figures()), 640_000);
}

#[test]
fn compute_units_by_kind_of_work() {
    let validator = ContributionValidator::new();
    assert_eq!(validator.compute_units(ContributionType::InferenceServing, &figures()), 70);
    assert_eq!(validator.compute_units(ContributionType::DataValidation, &figures()), 9);
    assert_eq!(validator.compute_units(ContributionType::SymbolicMath, &figures()), DEFAULT_COMPUTE_UNITS);
}

#[test]
fn zk_verifier_needs_proof_and_hash() {
    let v = ZKProofVerifier::new("groth16".to_string());
    assert!(v.verify(&[1], &[2]));
    assert!(!v.verify(&[], &[2]));
    assert!(!v.verify(&[1], &[]));
}

#[test]
fn basic_proof_is_blake3_of_contributor_time_and_metadata() {
    let contributor = Address([3u8; 32]);
    let mut data = contributor.0.to_vec();
    data.extend_from_slice(&42i64.to_le_bytes());
    data.extend_from_slice(br#"{"k":1}"#);
    let hash = blake3::hash(&data);
    assert!(verify_basic_proof(&contributor, 42, r#"{"k":1}"#, hash.as_bytes()));
    assert!(!verify_basic_proof(&contributor, 43, r#"{"k":1}"#, hash.as_bytes()));
    assert!(!verify_basic_proof(&contributor, 42, r#"{"k":1}"#, &hash.as_bytes()[..31]));
    // Without a verifier, a kind of work falls back to the basic check.
    let validator = ContributionValidator::new();
    assert!(validator.verify_proof(&contributor, ContributionType::DataValidation, 42, r#"{"k":1}"#, &[], hash.as_bytes()));
    assert!(!validator.verify_proof(&contributor, ContributionType::MLTraining, 42, "{}", &[1], hash.as_bytes()));
}

#[test]
fn registry_remembers_workloads() {
    let mut validator = ContributionValidator::new();
    let hash = [7u8; 32];
    assert!(!validator.is_known_workload(&hash));
    let record = WorkloadRecord {
        contributor: Address([1u8; 32]),
        contribution_type: ContributionType::MLTraining,
        timestamp: 5,
        compute_units: 10,
    };
    validator.record_workload(&hash, record);
    assert!(validator.is_known_workload(&hash));
    assert!(!validator.is_known_workload(&[7u8; 31]));
    validator.record_workload(&[1, 2], record);
    assert!(validator.is_known_workload(&[9, 9, 9]));
}
