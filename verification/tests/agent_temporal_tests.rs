use paradigm_core::address::Address;
use paradigm_core::tokenomics::ai_agent_governance::{
    assess_feasibility, assess_risk, count_specializations, evolved_agent_seed, reasoning_basis, AIProposalType,
    AgentPersonality, AgentSpecialization, ConsensusPredictor, HumanVote, ImplementationFeasibility, ProposalData,
    RiskLevel, VoteDirection, VoteTrend,
};
use paradigm_core::tokenomics::privacy_preserving::{
    EncryptedContribution, EncryptionMetadata, HomomorphicEncryptionManager, PrivacyLevel,
};
use paradigm_core::tokenomics::temporal_evolution::{
    advance_activity_streak, get_staking_duration_days, EvolutionStage, StakingError, StakingStatus,
    TemporalStakingSystem, TemporalStakingType, TokenLifecycleManager,
};
use paradigm_core::vecmap::VecMap;

fn votes(for_votes: usize, total: usize) -> Vec<HumanVote> {
    (0..total)
        .map(|i| HumanVote {
            id: i as u128,
            voter: Address([i as u8; 32]),
            proposal_id: 1,
            direction: if i < for_votes { VoteDirection::For } else { VoteDirection::Against },
            weight: 1,
            timestamp: 0,
        })
        .collect()
}

fn proposal(proposal_type: AIProposalType) -> ProposalData {
    ProposalData {
        id: 9,
        title: "t".to_string(),
        description: "d".to_string(),
        proposal_type,
        created_at: 0,
    }
}

#[test]
fn vote_trend_follows_the_share_cast_for() {
    let p = ConsensusPredictor::new();
    assert_eq!(p.analyze_vote_trend(&[]), VoteTrend::Neutral);
    assert_eq!(p.analyze_vote_trend(&votes(8, 10)), VoteTrend::StronglyFor);
    assert_eq!(p.analyze_vote_trend(&votes(7, 10)), VoteTrend::For);
    assert_eq!(p.analyze_vote_trend(&votes(6, 10)), VoteTrend::For);
    assert_eq!(p.analyze_vote_trend(&votes(11, 20)), VoteTrend::Neutral);
    assert_eq!(p.analyze_vote_trend(&votes(5, 10)), VoteTrend::Neutral);
    assert_eq!(p.analyze_vote_trend(&votes(4, 10)), VoteTrend::Against);
    assert_eq!(p.analyze_vote_trend(&votes(3, 10)), VoteTrend::Against);
    assert_eq!(p.analyze_vote_trend(&votes(2, 10)), VoteTrend::StronglyAgainst);
}

#[test]
fn abstentions_count_toward_the_total_only() {
    let p = ConsensusPredictor::new();
    let mut v = votes(2, 2);
    v[1].direction = VoteDirection::Abstain;
    assert_eq!(p.analyze_vote_trend(&v), VoteTrend::Neutral);
}

#[test]
fn key_factors_name_turnout_then_what_the_kind_touches() {
    let p = ConsensusPredictor::new();
    assert_eq!(
        p.identify_key_factors(&proposal(AIProposalType::SecurityUpdate), &votes(0, 11)),
        vec!["High voter turnout".to_string(), "Security implications".to_string()]
    );
    assert_eq!(
        p.identify_key_factors(&proposal(AIProposalType::TreasuryAllocation), &votes(0, 10)),
        vec!["Economic impact".to_string()]
    );
    assert_eq!(
        p.identify_key_factors(&proposal(AIProposalType::NewFeature), &votes(0, 3)),
        vec!["Technical complexity".to_string()]
    );
    assert!(p.identify_key_factors(&proposal(AIProposalType::ParameterAdjustment), &votes(0, 10)).is_empty());
}

#[test]
fn risk_and_feasibility_tables() {
    assert_eq!(assess_risk(AgentSpecialization::Security, AIProposalType::SecurityUpdate), RiskLevel::Low);
    assert_eq!(assess_risk(AgentSpecialization::Security, AIProposalType::ParameterAdjustment), RiskLevel::Medium);
    assert_eq!(assess_risk(AgentSpecialization::Security, AIProposalType::NewFeature), RiskLevel::High);
    assert_eq!(assess_risk(AgentSpecialization::Economic, AIProposalType::RewardModification), RiskLevel::Medium);
    assert_eq!(assess_risk(AgentSpecialization::Economic, AIProposalType::NewFeature), RiskLevel::Low);
    assert_eq!(assess_risk(AgentSpecialization::Community, AIProposalType::SecurityUpdate), RiskLevel::Medium);
    assert_eq!(assess_feasibility(AIProposalType::NewFeature), ImplementationFeasibility::Medium);
    assert_eq!(assess_feasibility(AIProposalType::SecurityUpdate), ImplementationFeasibility::High);
    assert_eq!(reasoning_basis(AgentSpecialization::Security), "Security risk analysis reveals");
}

#[test]
fn specializations_are_counted() {
    let counts = count_specializations(&[
        AgentSpecialization::Economic,
        AgentSpecialization::Security,
        AgentSpecialization::Economic,
    ]);
    assert_eq!(counts.len(), 2);
    assert_eq!(counts.get(&AgentSpecialization::Economic), Some(&2));
    assert_eq!(counts.get(&AgentSpecialization::Security), Some(&1));
    assert_eq!(counts.get(&AgentSpecialization::Technical), None);
    assert_eq!(count_specializations(&[]).len(), 0);
}

#[test]
fn evolved_agents_cycle_through_the_kinds() {
    let seed = evolved_agent_seed(7);
    assert_eq!(seed.name, "Evolved Agent Gen-7");
    assert_eq!(seed.specialization, AgentSpecialization::Community);
    assert_eq!(seed.personality, AgentPersonality::Collaborative);
    let seed = evolved_agent_seed(10);
    assert_eq!(seed.name, "Evolved Agent Gen-10");
    assert_eq!(seed.specialization, AgentSpecialization::Economic);
    assert_eq!(seed.personality, AgentPersonality::Conservative);
}

#[test]
fn staking_periods() {
    assert_eq!(get_staking_duration_days(TemporalStakingType::ShortTerm), 30);
    assert_eq!(get_staking_duration_days(TemporalStakingType::MediumTerm), 90);
    assert_eq!(get_staking_duration_days(TemporalStakingType::LongTerm), 365);
    assert_eq!(get_staking_duration_days(TemporalStakingType::Evolution), 180);
}

#[test]
fn stake_then_unstake_early_pays_a_tenth() {
    let mut system = TemporalStakingSystem::new();
    let a = Address([1; 32]);
    let stake = system.stake_tokens_at(a, 1005, TemporalStakingType::ShortTerm, 42, 1_000);
    assert_eq!(stake.maturity_date, 1_000 + 30 * 86_400);
    assert_eq!(stake.status, StakingStatus::Active);
    assert_eq!(system.get_staking_info(&a), vec![stake]);
    assert_eq!(system.active_stake_totals(&a), (1005, 1));

    let u = system.unstake_tokens_at(&a, 42, 2_000).unwrap();
    assert_eq!(u.penalty_amount, 100);
    assert_eq!(u.final_amount, 905);
    assert_eq!(u.stake.status, StakingStatus::Unstaked);
    assert_eq!(u.stake.amount, 1005);
    assert!(system.get_staking_info(&a).is_empty());
    assert_eq!(system.active_stake_totals(&a), (0, 0));
    assert_eq!(system.unstake_tokens_at(&a, 42, 2_000).unwrap_err(), StakingError::StakeNotFound);
}

#[test]
fn unstaking_after_maturity_has_no_penalty() {
    let mut system = TemporalStakingSystem::new();
    let a = Address([2; 32]);
    let b = Address([3; 32]);
    system.stake_tokens_at(a, 500, TemporalStakingType::LongTerm, 1, 0);
    system.stake_tokens_at(a, 700, TemporalStakingType::MediumTerm, 2, 0);
    system.stake_tokens_at(b, 900, TemporalStakingType::Evolution, 3, 0);
    assert_eq!(system.active_stake_totals(&a), (1200, 2));
    let u = system.unstake_tokens_at(&a, 2, 90 * 86_400).unwrap();
    assert_eq!(u.penalty_amount, 0);
    assert_eq!(u.final_amount, 700);
    assert_eq!(system.get_staking_info(&a).len(), 1);
    assert_eq!(system.get_staking_info(&b).len(), 1);
    assert_eq!(system.unstake_tokens_at(&b, 1, 0).unwrap_err(), StakingError::StakeNotFound);
    assert!(system.get_staking_info(&Address([9; 32])).is_empty());
}

#[test]
fn staking_by_the_clock_locks_for_the_period() {
    let mut system = TemporalStakingSystem::new();
    let a = Address([4; 32]);
    let stake = system.stake_tokens(a, 10, TemporalStakingType::Evolution);
    assert_eq!(stake.maturity_date - stake.staked_at, 180 * 86_400);
    assert_eq!(stake.amount, 10);
    assert_eq!(system.get_staking_info(&a), vec![stake]);
}

#[test]
fn lifecycle_stages_and_bonuses() {
    let m = TokenLifecycleManager::new();
    let step = m.lifecycle_step(EvolutionStage::Genesis, 20_000, 8, 0, false);
    assert_eq!(step.new_stage, Some(EvolutionStage::Growth));
    assert_eq!(step.stage_bonus, 100);
    let step = m.lifecycle_step(EvolutionStage::Genesis, 20_000, 7, 30, false);
    assert_eq!(step.new_stage, None);
    assert_eq!(step.stage_bonus, 5);
    assert_eq!(m.determine_evolution_stage(EvolutionStage::Genesis, 0, 0, 31, false), EvolutionStage::Growth);
    assert_eq!(m.determine_evolution_stage(EvolutionStage::Growth, 100_001, 31, 0, false), EvolutionStage::Maturity);
    assert_eq!(m.determine_evolution_stage(EvolutionStage::Growth, 5, 0, 61, false), EvolutionStage::Decline);
    assert_eq!(m.determine_evolution_stage(EvolutionStage::Maturity, 9_999, 3, 0, false), EvolutionStage::Decline);
    assert_eq!(m.determine_evolution_stage(EvolutionStage::Decline, 10, 15, 0, true), EvolutionStage::Rebirth);
    assert_eq!(m.determine_evolution_stage(EvolutionStage::Decline, 10, 15, 0, false), EvolutionStage::Decline);
    assert_eq!(m.determine_evolution_stage(EvolutionStage::Decline, 0, 15, 0, false), EvolutionStage::Genesis);
    assert_eq!(m.determine_evolution_stage(EvolutionStage::Rebirth, 50_001, 31, 0, false), EvolutionStage::Growth);
    assert_eq!(m.determine_evolution_stage(EvolutionStage::Rebirth, 50_001, 0, 0, false), EvolutionStage::Decline);
    assert_eq!(m.calculate_stage_transition_bonus(EvolutionStage::Growth, EvolutionStage::Maturity), 500);
    assert_eq!(m.calculate_stage_transition_bonus(EvolutionStage::Maturity, EvolutionStage::Decline), 0);
    assert_eq!(m.calculate_stage_maintenance_bonus(EvolutionStage::Rebirth), 15);
}

#[test]
fn activity_streaks_grow_daily_and_restart_after_a_gap() {
    assert_eq!(advance_activity_streak(4, 1), (5, false));
    assert_eq!(advance_activity_streak(4, 0), (5, false));
    assert_eq!(advance_activity_streak(4, 2), (1, true));
}

#[test]
fn test_encrypted_contribution() {
    let manager = HomomorphicEncryptionManager::new();
    let contributor = Address([7; 32]);
    let data = EncryptedContribution {
        task_id: 77,
        contributor,
        encrypted_data: vec![1, 2, 3, 4, 5],
        encryption_metadata: EncryptionMetadata {
            scheme: "CKKS".to_string(),
            key_id: "key_123".to_string(),
            parameters: VecMap::new(),
        },
        timestamp: 0,
    };
    let receipt = manager.process_encrypted_contribution(&contributor, &data, 123).unwrap();
    assert_eq!(receipt.contributor, contributor);
    assert!(!receipt.computation_proof.is_empty());
    assert_eq!(receipt.task_id, 77);
    assert_eq!(receipt.submission_time, 123);
    assert_eq!(receipt.privacy_level, PrivacyLevel::HomomorphicEncryption);
    assert_eq!(receipt.estimated_contribution_value, 1000);
    let validation = manager.validate_encrypted_data(&data);
    assert!(validation.is_valid);
    assert_eq!(validation.encryption_scheme, "CKKS");
    assert_eq!(validation.security_level, 128);
}

#[test]
fn unstaking_by_the_clock_before_maturity_pays_a_tenth() {
    let mut system = TemporalStakingSystem::new();
    let a = Address([5; 32]);
    let stake = system.stake_tokens(a, 1000, TemporalStakingType::ShortTerm);
    let u = system.unstake_tokens(&a, stake.id).unwrap();
    assert!(u.unstaked_at < stake.maturity_date);
    assert_eq!(u.penalty_amount, 100);
    assert_eq!(u.final_amount, 900);
    assert_eq!(system.unstake_tokens(&a, stake.id).unwrap_err(), StakingError::StakeNotFound);
}

#[test]
fn contribution_proof_randomness_is_fixed() {
    assert_eq!(paradigm_core::tokenomics::generate_secure_randomness(), vec![42u8; 32]);
}
