use paradigm_core::address::Address;
use paradigm_core::tokenomics::advanced_governance::{
    calculate_quadratic_base_cost, check_quadratic_vote, quadratic_cost_after_vote, AgentType, DelegationSystem,
    DelegationType, GovernanceError, GovernanceProposalStatus, Payout, ProposalType,
};
use paradigm_core::tokenomics::bridge_adapter::{
    BridgeAdapter, BridgeError, ExternalTransaction, Platform, PlatformBridge, PlatformCredits, TransferStatus,
};
use paradigm_core::tokenomics::model_hosting::{
    ComputeRequirements, LoadBalancer, LoadBalancingStrategy, ModelError, ModelPricingEngine, ModelSpec, ModelType,
    QualityAssuranceSystem, ValidationStatus,
};
use paradigm_core::tokenomics::quantum_resistant::{
    QRError, QRPrivateInputs, QRPublicInputs, QRSignatureType, QuantumResistantCrypto,
};
use paradigm_core::tokenomics::treasury_manager::{
    calculate_funding_decision, calculate_max_allocation, check_vote, settle_decision, treasury_fee, AICurator,
    CommunityVotes, FundingCategory, FundingDecision, ProposalStatus, TreasuryError, Vote,
};
use paradigm_core::tokenomics::{
    compute_workload_hash, generate_challenge, get_proof_type_for_contribution, ContributionType,
};

fn credits(total: u64) -> PlatformCredits {
    PlatformCredits {
        total_credits: total,
        cpu_credits: total / 10,
        gpu_credits: total / 20,
        storage_credits: total,
        bandwidth_credits: total * 8 / 10,
    }
}

#[test]
fn bridge_conversion_credits_the_user() {
    let mut bridge = BridgeAdapter::new();
    bridge.initialize();
    let user = Address([1u8; 32]);
    let c = bridge.convert_to_credits(&user, Platform::Filecoin, credits(1000)).unwrap();
    assert_eq!(c.total_credits, 1000);
    assert_eq!(bridge.get_credit_balance(&user, &Platform::Filecoin), 1000);
    bridge.convert_to_credits(&user, Platform::Filecoin, credits(500)).unwrap();
    assert_eq!(bridge.get_credit_balance(&user, &Platform::Filecoin), 1500);
    assert_eq!(
        bridge.convert_to_credits(&user, Platform::GoogleCloud, credits(5)),
        Err(BridgeError::PlatformNotSupported)
    );
}

#[test]
fn bridge_transfer_deducts_and_files_a_pending_transfer() {
    let mut bridge = BridgeAdapter::new();
    bridge.initialize();
    let user = Address([2u8; 32]);
    bridge.convert_to_credits(&user, Platform::RenderNetwork, credits(200)).unwrap();
    assert_eq!(
        bridge.transfer_to_platform(&user, Platform::RenderNetwork, 201, "x".to_string()),
        Err(BridgeError::InsufficientCredits)
    );
    let id = bridge
        .transfer_to_platform(&user, Platform::RenderNetwork, 50, "external_address_123".to_string())
        .unwrap();
    let transfer = bridge.get_transfer_status(&id).unwrap();
    assert_eq!(transfer.status, TransferStatus::Pending);
    assert_eq!(transfer.credits, 50);
    assert_eq!(transfer.external_address, "external_address_123");
    assert_eq!(bridge.get_credit_balance(&user, &Platform::RenderNetwork), 150);
    bridge.update_transfer_status(id, TransferStatus::Completed, Some("0xabc".to_string()));
    let done = bridge.get_transfer_status(&id).unwrap();
    assert_eq!(done.status, TransferStatus::Completed);
    assert!(done.completed_at.is_some());
    assert_eq!(done.transaction_hash, Some("0xabc".to_string()));
}

#[test]
fn bridge_without_a_bridge_refuses() {
    let mut bridge = BridgeAdapter::new();
    let user = Address([3u8; 32]);
    assert_eq!(
        bridge.transfer_to_platform(&user, Platform::Solana, 0, "x".to_string()),
        Err(BridgeError::BridgeNotAvailable)
    );
}

#[test]
fn bridge_stats_and_inbound_liquidity() {
    let mut bridge = BridgeAdapter::new();
    bridge.initialize();
    let stats = bridge.get_bridge_stats();
    assert_eq!(stats.total_platforms, 6);
    assert_eq!(stats.total_liquidity, 6 * 10_000_000_000);
    assert_eq!(stats.active_bridges[0], Platform::Filecoin);
    let tx = ExternalTransaction {
        tx_hash: "0x1".to_string(),
        from_address: "a".to_string(),
        to_address: "b".to_string(),
        amount: 1000,
        platform: Platform::AWS,
        timestamp: 0,
    };
    assert_eq!(bridge.bridge_from_platform(Platform::AWS, &tx, 200_000_000), Ok(200_000_000));
    assert_eq!(bridge.get_bridge_stats().total_liquidity, 6 * 10_000_000_000 + 200_000_000);
    let unverified = ExternalTransaction { tx_hash: String::new(), ..tx };
    assert_eq!(
        bridge.bridge_from_platform(Platform::AWS, &unverified, 1),
        Err(BridgeError::VerificationFailed)
    );
    assert_eq!(
        bridge.bridge_from_platform(Platform::Solana, &unverified, 1),
        Err(BridgeError::BridgeNotAvailable)
    );
}

#[test]
fn bridge_balances_by_platform() {
    let mut bridge = BridgeAdapter::new();
    bridge.initialize();
    let user = Address([4u8; 32]);
    let other = Address([5u8; 32]);
    bridge.convert_to_credits(&user, Platform::Filecoin, credits(10)).unwrap();
    bridge.convert_to_credits(&user, Platform::AWS, credits(20)).unwrap();
    bridge.convert_to_credits(&other, Platform::AWS, credits(30)).unwrap();
    let mine = bridge.get_all_platform_balances(&user);
    assert_eq!(mine.len(), 2);
    assert_eq!(mine.get(&Platform::Filecoin), Some(&10));
    assert_eq!(mine.get(&Platform::AWS), Some(&20));
}

#[test]
fn platform_names() {
    assert_eq!(Platform::RenderNetwork.name(), "Render Network");
    assert_eq!(Platform::AzureCloud.name(), "Azure");
    let b = PlatformBridge::new("render".to_string(), "https://api.render.network".to_string());
    assert_eq!(b.platform_id, "render");
}

#[test]
fn treasury_rules() {
    assert_eq!(treasury_fee(12_345), 123);
    assert_eq!(calculate_max_allocation(1000, FundingCategory::Research), 50);
    assert_eq!(calculate_max_allocation(1000, FundingCategory::Infrastructure), 100);
    assert_eq!(calculate_max_allocation(1000, FundingCategory::Community), 20);
    assert_eq!(calculate_max_allocation(1000, FundingCategory::Security), 200);
    assert_eq!(calculate_max_allocation(1000, FundingCategory::Innovation), 40);
    assert_eq!(check_vote(ProposalStatus::UnderReview, 0, 10), Err(TreasuryError::ProposalNotActive));
    assert_eq!(check_vote(ProposalStatus::Active, 11, 10), Err(TreasuryError::VotingClosed));
    assert_eq!(check_vote(ProposalStatus::Active, 10, 10), Ok(()));
}

#[test]
fn treasury_votes_and_decisions() {
    let mut votes = CommunityVotes::default();
    assert_eq!(
        calculate_funding_decision(&votes, true, 10, FundingCategory::Research, 1000),
        FundingDecision::Rejected
    );
    votes.record_vote(Vote::For, 70);
    votes.record_vote(Vote::Against, 30);
    votes.record_vote(Vote::Abstain, 5);
    assert_eq!(votes, CommunityVotes { for_votes: 70, against_votes: 30, abstain_votes: 5 });
    assert_eq!(
        calculate_funding_decision(&votes, true, 100, FundingCategory::Research, 1000),
        FundingDecision::Approved { amount: 50 }
    );
    assert_eq!(
        calculate_funding_decision(&votes, false, 100, FundingCategory::Research, 1000),
        FundingDecision::Rejected
    );
    assert_eq!(settle_decision(1000, FundingDecision::Approved { amount: 50 }), (ProposalStatus::Approved, 950));
    assert_eq!(
        settle_decision(10, FundingDecision::Approved { amount: 50 }),
        (ProposalStatus::RejectedInsufficientFunds, 10)
    );
    assert_eq!(settle_decision(10, FundingDecision::Rejected), (ProposalStatus::RejectedByVote, 10));
    assert_eq!(AICurator::new().evaluation_models.len(), 3);
}

#[test]
fn quadratic_vote_checks_and_costs() {
    assert_eq!(calculate_quadratic_base_cost(ProposalType::ParameterChange), 100);
    assert_eq!(calculate_quadratic_base_cost(ProposalType::EmergencyAction), 2000);
    assert_eq!(
        check_quadratic_vote(GovernanceProposalStatus::Passed, 0, 10, 1, 1),
        Err(GovernanceError::ProposalNotActive)
    );
    assert_eq!(
        check_quadratic_vote(GovernanceProposalStatus::Active, 11, 10, 1, 1),
        Err(GovernanceError::VotingEnded)
    );
    assert_eq!(
        check_quadratic_vote(GovernanceProposalStatus::Active, 5, 10, 2, 1),
        Err(GovernanceError::CostExceedsMaximum)
    );
    assert_eq!(check_quadratic_vote(GovernanceProposalStatus::Active, 5, 10, 1, 1), Ok(()));
    assert_eq!(quadratic_cost_after_vote(500, Some(100), 400), 800);
    assert_eq!(quadratic_cost_after_vote(500, None, 400), 900);
    assert_eq!(AgentType::SecurityAnalyzer.to_string(), "Security Analyzer");
    let p = Payout::for_stake(Address([1u8; 32]), 21);
    assert_eq!(p.amount, 42);
}

#[test]
fn delegations_are_counted() {
    let mut system = DelegationSystem::new();
    let a = Address([1u8; 32]);
    let r1 = system.create_delegation(a, Address([2u8; 32]), DelegationType::Full, 100);
    let r2 = system.create_delegation(a, Address([3u8; 32]), DelegationType::Temporary, 200);
    system.create_delegation(Address([4u8; 32]), a, DelegationType::Specific(vec![ProposalType::ProtocolUpgrade]), 300);
    assert!(r1.active && r2.active);
    assert_ne!(r1.delegation_id, r2.delegation_id);
    assert_eq!(system.count_delegations(), (3, 3));
}

#[test]
fn contribution_helpers() {
    assert_eq!(get_proof_type_for_contribution(&ContributionType::StorageProvision), "data_validation");
    assert_eq!(get_proof_type_for_contribution(&ContributionType::SymbolicMath), "model_optimization");
    assert_eq!(get_proof_type_for_contribution(&ContributionType::MLTraining), "ml_training");
    let data = [0u8, 1, 2, 255];
    let expected: Vec<u8> = data.iter().map(|&b| b.wrapping_mul(31).wrapping_add(17)).collect();
    assert_eq!(compute_workload_hash(&data), expected);
    assert_eq!(compute_workload_hash(&data), vec![17, 48, 79, 242]);
    let statement: Vec<u8> = (0u8..20).collect();
    let challenge = generate_challenge(&statement);
    assert_eq!(challenge.len(), 16);
    assert_eq!(challenge[0], 127);
    assert_eq!(challenge[15], 142);
    assert_eq!(generate_challenge(&[200u8]), vec![71]);
}

#[test]
fn model_specs_are_checked() {
    let qa = QualityAssuranceSystem::new();
    let mut spec = ModelSpec {
        model_name: "GPT-4 Chat".to_string(),
        model_type: ModelType::LanguageModel,
        model_version: "1.0.0".to_string(),
        description: "Advanced language model for chat".to_string(),
        compute_requirements: ComputeRequirements {
            cpu_cores: 8,
            memory_gb: 16,
            requires_gpu: true,
            gpu_memory_gb: Some(24),
            storage_gb: 100,
            network_bandwidth_mbps: 1000,
        },
        supported_input_formats: vec!["text/plain".to_string()],
        supported_output_formats: vec!["text/plain".to_string()],
        availability_zone: Some("us-west-2".to_string()),
        api_endpoint: "https://api.example.com/chat".to_string(),
    };
    assert_eq!(qa.validate_model_spec(&spec), Ok(()));
    spec.compute_requirements.cpu_cores = 0;
    assert_eq!(qa.validate_model_spec(&spec), Err(ModelError::InsufficientCpu));
    spec.compute_requirements.memory_gb = 0;
    assert_eq!(qa.validate_model_spec(&spec), Err(ModelError::InsufficientMemory));
    spec.model_name = String::new();
    assert_eq!(qa.validate_model_spec(&spec), Err(ModelError::EmptyModelName));
}

#[test]
fn model_pricing_and_balancing() {
    let engine = ModelPricingEngine::new();
    assert_eq!(engine.base_rate(ModelType::VideoAnalysis), 10_000_000);
    assert_eq!(engine.base_rate(ModelType::DataAnalysis), 1_000_000);
    assert_eq!(LoadBalancer::new().balancing_strategy, LoadBalancingStrategy::ReputationWeighted);
    let mut qa = QualityAssuranceSystem::new();
    qa.start_model_validation(9);
    let _ = ValidationStatus::InProgress;
}

#[test]
fn quantum_lattice_signatures() {
    let mut qr = QuantumResistantCrypto::new();
    qr.initialize();
    let who = Address([1u8; 32]);
    let data = [9u8; 40];
    assert!(matches!(
        qr.sign_contribution_proof(&who, &data, QRSignatureType::Lattice),
        Err(QRError::NoLatticeKey)
    ));
    let keys = qr.generate_contributor_keys(&who);
    assert_eq!(keys.address, who);
    assert_eq!(keys.lattice_public_key.len(), 32);
    assert_eq!(keys.lattice_public_key[0], 42u8.wrapping_mul(3).wrapping_add(7));
    let sig = qr.sign_contribution_proof(&who, &data, QRSignatureType::Lattice).unwrap();
    assert_eq!(sig.signature_data.len(), 16 + 32 + 13);
    assert!(sig.signature_data.ends_with(b"DILITHIUM_SIG"));
    assert_eq!(qr.verify_signature(&who, &data, &sig), Ok(true));
    assert_eq!(qr.verify_signature(&Address([2u8; 32]), &data, &sig), Err(QRError::NoLatticeKey));
}

#[test]
fn quantum_hash_signatures_use_up_the_tree() {
    let mut qr = QuantumResistantCrypto::new();
    let who = Address([3u8; 32]);
    qr.generate_contributor_keys(&who);
    let data = [1u8; 24];
    let first = qr.sign_contribution_proof(&who, &data, QRSignatureType::HashBased).unwrap();
    let second = qr.sign_contribution_proof(&who, &data, QRSignatureType::HashBased).unwrap();
    assert_eq!(&first.signature_data[..8], &0u64.to_le_bytes());
    assert_eq!(&second.signature_data[..8], &1u64.to_le_bytes());
    assert!(second.signature_data.ends_with(b"XMSS_SIGNATURE"));
    assert_eq!(qr.verify_signature(&who, &data, &first), Ok(true));
    let short = qr.sign_contribution_proof(&who, &[1u8; 3], QRSignatureType::HashBased).unwrap();
    assert_eq!(qr.verify_signature(&who, &[1u8; 3], &short), Ok(false));
}

#[test]
fn quantum_proofs_and_randomness() {
    let mut qr = QuantumResistantCrypto::new();
    let private_inputs = QRPrivateInputs { witness: vec![5u8; 40], randomness: vec![42u8; 32] };
    let public_inputs = QRPublicInputs { statement: vec![6u8; 40], challenge: vec![1u8; 16] };
    assert!(matches!(
        qr.generate_qr_zk_proof("ml_training", &private_inputs, &public_inputs),
        Err(QRError::NoProver)
    ));
    qr.initialize();
    let proof = qr.generate_qr_zk_proof("ml_training", &private_inputs, &public_inputs).unwrap();
    assert_eq!(proof.proof_data.len(), 80);
    assert!(proof.proof_data.ends_with(b"LATTICE_ZK_PROOF"));
    assert_eq!(qr.verify_qr_zk_proof(&proof), Ok(true));
    let secret = qr.quantum_safe_key_exchange(&Address([7u8; 32]));
    let mut expected = vec![42u8; 16];
    expected.extend_from_slice(&[7u8; 16]);
    assert_eq!(secret.secret, expected);
    let random = qr.get_quantum_random(vec!["ab".to_string()]);
    assert_eq!(random.value.len(), 66);
    assert_eq!(random.value[0], 127);
    assert_eq!(random.value[1], 128);
    assert_eq!(random.value[64], b'a'.wrapping_add(64));
}
