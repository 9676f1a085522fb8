use ed25519_dalek::Signer;
use paradigm_core::address::Address;
use paradigm_core::tokenomics::advanced_governance::{
    FutarchyDecision, FutarchyMarket, FutarchyMarketType, FutarchyProposalData, FutarchyStatus, GovernanceError,
    PredictionMarket, RiskAssessment, RiskLevel,
};
use paradigm_core::tokenomics::bridge_adapter::{BridgeAdapter, Platform, INITIAL_LIQUIDITY};
use paradigm_core::tokenomics::treasury_manager::{
    FundingCategory, FundingDecision, FundingProposalRequest, Milestone, ProposalStatus, TreasuryError,
    TreasuryManager, Vote, INITIAL_TREASURY_BALANCE, VOTING_PERIOD_SECS,
};
use paradigm_core::transaction::Transaction;
use paradigm_core::transaction_throughput::{batch_signing_message, validate_transactions_batch};

fn request(amount: u64, category: FundingCategory) -> FundingProposalRequest {
    FundingProposalRequest {
        title: "Network Optimization Research".to_string(),
        description: "Research into advanced network optimization techniques".to_string(),
        requested_amount: amount,
        category,
        milestones: vec![
            Milestone { description: "Literature review".to_string(), deadline: 1_700_000_000 + 30 * 86_400 },
            Milestone { description: "Implementation".to_string(), deadline: 1_700_000_000 + 60 * 86_400 },
        ],
    }
}

#[test]
fn test_treasury_proposal_flow() {
    let mut treasury = TreasuryManager::new();
    treasury.initialize();
    let proposer = Address([9u8; 32]);
    let proposal_id = treasury.submit_funding_proposal(proposer, request(10_000_000_000, FundingCategory::Research));
    assert!(treasury.get_proposal(proposal_id).is_some());
    let stats = treasury.get_treasury_stats();
    assert_eq!(stats.active_proposals, 1);
    assert_eq!(stats.balance, INITIAL_TREASURY_BALANCE);
}

#[test]
fn treasury_proposal_starts_under_review_with_deadline() {
    let mut treasury = TreasuryManager::new();
    let id = treasury.submit_funding_proposal_at(Address([1u8; 32]), request(500, FundingCategory::Community), 1000);
    let p = treasury.get_proposal(id).unwrap();
    assert_eq!(p.status, ProposalStatus::UnderReview);
    assert_eq!(p.submitted_at, 1000);
    assert_eq!(p.voting_deadline, 1000 + VOTING_PERIOD_SECS);
    assert_eq!(p.milestones.len(), 2);
}

#[test]
fn treasury_refuses_votes_on_proposals_under_review_or_unknown() {
    let mut treasury = TreasuryManager::new();
    let id = treasury.submit_funding_proposal_at(Address([1u8; 32]), request(500, FundingCategory::Community), 1000);
    assert_eq!(
        treasury.vote_on_proposal_at(id, Address([2u8; 32]), Vote::For, 10, 1001),
        Err(TreasuryError::ProposalNotActive)
    );
    assert_eq!(
        treasury.vote_on_proposal_at(id.wrapping_add(1), Address([2u8; 32]), Vote::For, 10, 1001),
        Err(TreasuryError::ProposalNotFound)
    );
    assert_eq!(treasury.get_proposal(id).unwrap().community_votes.for_votes, 0);
}

#[test]
fn treasury_collects_one_percent_of_minted_tokens() {
    let mut treasury = TreasuryManager::new();
    treasury.record_contribution(&Address([3u8; 32]), 12_345);
    assert_eq!(treasury.get_treasury_stats().balance, 123);
}

#[test]
fn treasury_decides_and_pays_from_balance() {
    let mut treasury = TreasuryManager::new();
    treasury.set_balance(1_000_000);
    let id = treasury.submit_funding_proposal_at(Address([1u8; 32]), request(80_000, FundingCategory::Research), 0);
    // No votes were cast: rejected by vote.
    assert_eq!(treasury.decide_proposal(id, true), Some(FundingDecision::Rejected));
    assert_eq!(treasury.get_proposal(id).unwrap().status, ProposalStatus::RejectedByVote);
    assert_eq!(treasury.get_treasury_stats().balance, 1_000_000);
    assert_eq!(treasury.decide_proposal(id.wrapping_add(1), true), None);
    assert!(treasury.due_proposals_at(i64::MAX).is_empty());
}

fn futarchy_proposal() -> FutarchyProposalData {
    FutarchyProposalData {
        title: "Lower fees".to_string(),
        description: "Halve the base fee".to_string(),
        implementation_plan: "Change the constant".to_string(),
        success_criteria: vec!["more transactions".to_string()],
        risk_assessment: RiskAssessment {
            technical_risk: RiskLevel::Low,
            economic_risk: RiskLevel::Medium,
            adoption_risk: RiskLevel::Low,
            timeline_risk: RiskLevel::High,
        },
    }
}

#[test]
fn prediction_market_pays_double_each_stake() {
    let mut market = PredictionMarket::new("m".to_string());
    let a = market.place_bet(Address([1u8; 32]), 100);
    assert_eq!(a.expected_payout, 200);
    market.place_bet(Address([2u8; 32]), 7);
    let payouts = market.distribute_payouts();
    assert_eq!(payouts.len(), 2);
    assert_eq!(payouts[0].amount, 200);
    assert_eq!(payouts[0].recipient, Address([1u8; 32]));
    assert_eq!(payouts[1].amount, 14);
    assert_eq!(payouts[1].reason, "Prediction market resolution");
}

#[test]
fn futarchy_market_takes_bets_until_resolved() {
    let mut market = FutarchyMarket::open(Address([5u8; 32]), futarchy_proposal(), 100);
    assert_eq!(market.implement_market.name, "Implement: Lower fees");
    assert_eq!(market.no_implement_market.name, "Don't implement: Lower fees");
    assert_eq!(market.decision_deadline, 100 + 14 * 86_400);
    assert_eq!(market.resolution_deadline, 100 + 90 * 86_400);
    let bet = market.place_bet(FutarchyMarketType::Implement, Address([6u8; 32]), 50).unwrap();
    assert_eq!(bet.expected_payout, 100);
    market.place_bet(FutarchyMarketType::NoImplement, Address([7u8; 32]), 30).unwrap();
    let outcome = market.resolve(false).unwrap();
    assert_eq!(outcome.decision, FutarchyDecision::Reject);
    assert_eq!(outcome.implement_payouts.len(), 1);
    assert_eq!(outcome.implement_payouts[0].amount, 100);
    assert_eq!(outcome.no_implement_payouts[0].amount, 60);
    assert_eq!(market.status, FutarchyStatus::Resolved);
    assert_eq!(
        market.place_bet(FutarchyMarketType::Implement, Address([6u8; 32]), 1).err(),
        Some(GovernanceError::MarketNotActive)
    );
    assert_eq!(market.resolve(true).err(), Some(GovernanceError::MarketAlreadyResolved));
}

#[test]
fn batch_message_format() {
    let tx = Transaction::new(Address([0xab; 32]), Address([0x01; 32]), 42, 7, 5, &[3u8; 32]).unwrap();
    let message = batch_signing_message(&tx);
    let expected = format!("{}:{}:42:{}", "ab".repeat(32), "01".repeat(32), tx.nonce);
    assert_eq!(message, expected.into_bytes());
}

#[test]
fn batch_validation_checks_signatures_under_zero_key() {
    let mut signed = Transaction::new(Address([0xab; 32]), Address([0x01; 32]), 42, 7, 5, &[3u8; 32]).unwrap();
    let unsigned = Transaction::new(Address([0xab; 32]), Address([0x01; 32]), 43, 7, 5, &[3u8; 32]).unwrap();
    let key = ed25519_dalek::SigningKey::from_bytes(&[0u8; 32]);
    signed.signature = key.sign(&batch_signing_message(&signed)).to_bytes().to_vec();
    let verdicts = validate_transactions_batch(&[signed, unsigned]);
    assert_eq!(verdicts, vec![true, false]);
}

#[test]
fn bridge_reports_fees_liquidity_and_bridges() {
    let mut bridge = BridgeAdapter::new();
    assert_eq!(bridge.platform_fee(&Platform::AWS), None);
    assert!(!bridge.has_bridge(&Platform::AWS));
    bridge.initialize();
    assert_eq!(bridge.platform_fee(&Platform::Filecoin), Some(1_000_000));
    assert_eq!(bridge.platform_fee(&Platform::AWS), Some(2_000_000));
    assert_eq!(bridge.platform_fee(&Platform::Ethereum), None);
    assert_eq!(bridge.pool_liquidity(&Platform::Ethereum), Some(INITIAL_LIQUIDITY));
    assert_eq!(bridge.pool_liquidity(&Platform::Solana), None);
    assert!(bridge.has_bridge(&Platform::GoogleCloud));
    assert!(!bridge.has_bridge(&Platform::Polygon));
}

#[test]
fn prediction_market_total_stake() {
    let mut market = PredictionMarket::new("m".to_string());
    market.place_bet(Address([1u8; 32]), 10);
    market.place_bet(Address([1u8; 32]), 15);
    assert_eq!(market.get_total_stake(), 25);
}

fn render_credits_for_two_par() -> paradigm_core::tokenomics::bridge_adapter::PlatformCredits {
    paradigm_core::tokenomics::bridge_adapter::PlatformCredits {
        total_credits: 200,
        cpu_credits: 100,
        gpu_credits: 200,
        storage_credits: 60,
        bandwidth_credits: 120,
    }
}

#[test]
fn test_cross_platform_conversion() {
    let mut bridge = BridgeAdapter::new();
    bridge.initialize();
    let user = Address([21; 32]);
    let filecoin_credits_for_one_par = paradigm_core::tokenomics::bridge_adapter::PlatformCredits {
        total_credits: 1000,
        cpu_credits: 100,
        gpu_credits: 50,
        storage_credits: 1000,
        bandwidth_credits: 800,
    };
    let credits = bridge.convert_to_credits(&user, Platform::Filecoin, filecoin_credits_for_one_par).unwrap();
    assert!(credits.total_credits > 0);
    assert!(credits.storage_credits > credits.gpu_credits);
    let balance = bridge.get_credit_balance(&user, &Platform::Filecoin);
    assert_eq!(balance, credits.total_credits);
}

#[test]
fn test_platform_transfer() {
    let mut bridge = BridgeAdapter::new();
    bridge.initialize();
    let user = Address([22; 32]);
    bridge.convert_to_credits(&user, Platform::RenderNetwork, render_credits_for_two_par()).unwrap();
    let transfer_id =
        bridge.transfer_to_platform(&user, Platform::RenderNetwork, 50, "external_address_123".to_string()).unwrap();
    let transfer = bridge.get_transfer_status(&transfer_id).unwrap();
    assert_eq!(transfer.status, paradigm_core::tokenomics::bridge_adapter::TransferStatus::Pending);
    assert_eq!(transfer.credits, 50);
    assert_eq!(bridge.get_credit_balance(&user, &Platform::RenderNetwork), 150);
}

#[test]
fn test_bridge_stats() {
    let mut bridge = BridgeAdapter::new();
    bridge.initialize();
    let stats = bridge.get_bridge_stats();
    assert!(stats.total_platforms > 0);
    assert!(stats.total_liquidity > 0);
    assert!(!stats.active_bridges.is_empty());
    assert_eq!(stats.total_platforms, 6);
    assert_eq!(stats.total_liquidity, 60_000_000_000);
    assert_eq!(stats.total_pending_transfers, 0);
}
