//! Governance by quadratic voting, futarchy markets, conviction voting and
//! delegation: the kinds, statuses and records these mechanisms share, the
//! checks a quadratic vote must pass and its cost bookkeeping, and the
//! delegation ledger.
use vstd::prelude::*;
use crate::address::Address;
use crate::sys::{new_uuid, now_unix_seconds};
use crate::text::{push_text, text};
use crate::vecmap::{has_key, key_pos, VecMap};

verus! {

/// Why a governance operation was refused.
#[derive(Debug, Clone, Copy, PartialEq, Eq)]
pub enum GovernanceError {
    /// No proposal has that id.
    ProposalNotFound,
    /// The proposal is not open for voting.
    ProposalNotActive,
    /// The voting period has ended.
    VotingEnded,
    /// The vote would cost more than the voter allows.
    CostExceedsMaximum,
    /// No futarchy market has that id.
    MarketNotFound,
    /// The futarchy market no longer takes bets.
    MarketNotActive,
    /// The futarchy market has already been resolved.
    MarketAlreadyResolved,
}

/// How a proposal is expected to affect one aspect of the network.
#[derive(Debug, Clone, Copy, PartialEq, Eq, Structural)]
pub enum ImpactRating {
    VeryNegative,
    Negative,
    Neutral,
    Positive,
    VeryPositive,
}

/// A proposal's expected impact on each aspect of the network.
#[derive(Debug, Clone, Copy, PartialEq, Eq)]
pub struct ExpectedImpact {
    pub network_performance: ImpactRating,
    pub economic_efficiency: ImpactRating,
    pub decentralization: ImpactRating,
    pub user_experience: ImpactRating,
    pub security: ImpactRating,
}

/// The kinds of governance proposal.
#[derive(Debug, Clone, Copy, PartialEq, Eq, Structural)]
pub enum ProposalType {
    ParameterChange,
    ProtocolUpgrade,
    TreasuryAllocation,
    NetworkGovernance,
    EmergencyAction,
}

/// How risky one aspect of a proposal is.
#[derive(Debug, Clone, Copy, PartialEq, Eq, Structural)]
pub enum RiskLevel {
    Low,
    Medium,
    High,
    Critical,
}

/// The risks of a futarchy proposal.
#[derive(Debug, Clone, Copy, PartialEq, Eq)]
pub struct RiskAssessment {
    pub technical_risk: RiskLevel,
    pub economic_risk: RiskLevel,
    pub adoption_risk: RiskLevel,
    pub timeline_risk: RiskLevel,
}

/// A proposal decided by prediction markets.
#[derive(Debug)]
pub struct FutarchyProposalData {
    pub title: String,
    pub description: String,
    pub implementation_plan: String,
    pub success_criteria: Vec<String>,
    pub risk_assessment: RiskAssessment,
}

/// Where a quadratic voting proposal stands.
#[derive(Debug, Clone, Copy, PartialEq, Eq, Structural)]
pub enum GovernanceProposalStatus {
    Active,
    Passed,
    Rejected,
    Expired,
}

/// Where a futarchy market stands.
#[derive(Debug, Clone, Copy, PartialEq, Eq, Structural)]
pub enum FutarchyStatus {
    Active,
    Resolved,
    Expired,
}

/// Where a conviction voting proposal stands.
#[derive(Debug, Clone, Copy, PartialEq, Eq, Structural)]
pub enum ConvictionStatus {
    Active,
    Funded,
    Expired,
}

/// Whether a governance agent takes part.
#[derive(Debug, Clone, Copy, PartialEq, Eq, Structural)]
pub enum AgentStatus {
    Active,
    Inactive,
    Suspended,
}

/// What a governance agent analyses.
#[derive(Debug, Clone, Copy, PartialEq, Eq, Structural)]
pub enum AgentType {
    EconomicAnalyzer,
    SecurityAnalyzer,
    PerformanceAnalyzer,
    GovernanceAnalyzer,
}

/// An agent type's display name.
pub open spec fn agent_type_name(t: AgentType) -> Seq<char> {
    match t {
        AgentType::EconomicAnalyzer => "Economic Analyzer"@,
        AgentType::SecurityAnalyzer => "Security Analyzer"@,
        AgentType::PerformanceAnalyzer => "Performance Analyzer"@,
        AgentType::GovernanceAnalyzer => "Governance Analyzer"@,
    }
}

impl AgentType {
    /// The agent type's display name.
    pub fn to_string(&self) -> (r: String)
        ensures
            r@ == agent_type_name(*self),
    {
        match self {
            AgentType::EconomicAnalyzer => text("Economic Analyzer"),
            AgentType::SecurityAnalyzer => text("Security Analyzer"),
            AgentType::PerformanceAnalyzer => text("Performance Analyzer"),
            AgentType::GovernanceAnalyzer => text("Governance Analyzer"),
        }
    }
}

/// What a governance agent can do.
#[derive(Debug, Clone, Copy, PartialEq, Eq, Structural)]
pub enum AgentCapability {
    TokenomicsAnalysis,
    MarketImpactPrediction,
    IncentiveAlignment,
    VulnerabilityAssessment,
    AttackVectorAnalysis,
    CryptographicValidation,
    ScalabilityAnalysis,
    LatencyPrediction,
    ThroughputOptimization,
}

/// What voting power a delegation hands over.
#[derive(Debug, PartialEq, Eq)]
pub enum DelegationType {
    Full,
    Specific(Vec<ProposalType>),
    Temporary,
}

/// Where a delegation stands.
#[derive(Debug, Clone, Copy, PartialEq, Eq, Structural)]
pub enum DelegationStatus {
    Active,
    Expired,
    Revoked,
}

/// A delegation of voting power.
#[derive(Debug)]
pub struct Delegation {
    pub id: u128,
    pub delegator: Address,
    pub delegatee: Address,
    pub delegation_type: DelegationType,
    /// Unix time in seconds.
    pub created_at: i64,
    /// Unix time in seconds.
    pub expires_at: i64,
    pub status: DelegationStatus,
}

/// The receipt of a delegation.
#[derive(Debug, Clone, Copy, PartialEq, Eq)]
pub struct DelegationResult {
    pub delegation_id: u128,
    pub active: bool,
}

/// The two markets of a futarchy proposal.
#[derive(Debug, Clone, Copy, PartialEq, Eq, Structural)]
pub enum FutarchyMarketType {
    Implement,
    NoImplement,
}

/// What a resolved futarchy market decides.
#[derive(Debug, Clone, Copy, PartialEq, Eq, Structural)]
pub enum FutarchyDecision {
    Implement,
    Reject,
}

/// A payment to a winning bettor.
#[derive(Debug)]
pub struct Payout {
    pub recipient: Address,
    pub amount: u64,
    pub reason: String,
}

impl Payout {
    /// The payout of a resolved market to a bettor: double the stake.
    pub fn for_stake(recipient: Address, stake_amount: u64) -> (r: Payout)
        requires
            stake_amount * 2 <= u64::MAX,
        ensures
            r.recipient == recipient,
            r.amount == stake_amount * 2,
            r.reason@ == "Prediction market resolution"@,
    {
        Payout { recipient, amount: stake_amount * 2, reason: text("Prediction market resolution") }
    }
}

/// A stake placed in a prediction market.
#[derive(Debug, Clone, Copy)]
pub struct PredictionBet {
    pub id: u128,
    pub bettor: Address,
    pub stake_amount: u64,
    /// Unix time in seconds.
    pub placed_at: i64,
}

/// What placing a bet gives back: its id and what it pays if it wins.
#[derive(Debug, Clone, Copy, PartialEq, Eq)]
pub struct PlacedBet {
    pub bet_id: u128,
    pub expected_payout: u64,
}

/// The sum of the stakes of some bets.
pub open spec fn total_staked(s: Seq<(u128, PredictionBet)>) -> int
    decreases s.len(),
{
    if s.len() == 0 {
        0
    } else {
        total_staked(s.drop_last()) + s.last().1.stake_amount
    }
}

/// The stakes placed in one prediction market.
#[derive(Debug)]
pub struct PredictionMarket {
    pub name: String,
    bets: VecMap<u128, PredictionBet>,
    total_stake: u64,
}

impl PredictionMarket {
    /// The market's name.
    pub closed spec fn market_name(self) -> String {
        self.name
    }

    /// The bets by id.
    pub closed spec fn bets(self) -> Map<u128, PredictionBet> {
        self.bets@
    }

    /// The bets in the order they were placed.
    pub closed spec fn bet_list(self) -> Seq<(u128, PredictionBet)> {
        self.bets.entries()
    }

    /// The total staked.
    pub closed spec fn total_stake(self) -> u64 {
        self.total_stake
    }

    /// The stakes of the bets held add up to at most the total staked
    /// (a bet replaced under its id leaves its stake in the total), and
    /// each stake can be paid back double.
    pub closed spec fn wf(self) -> bool {
        &&& self.bets.wf()
        &&& total_staked(self.bets.entries()) <= self.total_stake
        &&& forall|i: int|
            0 <= i < self.bets.entries().len() ==> (#[trigger] self.bets.entries()[i]).1.stake_amount * 2
                <= u64::MAX
    }

    /// The total staked in the market.
    pub fn get_total_stake(&self) -> (r: u64)
        ensures
            r == self.total_stake(),
    {
        self.total_stake
    }

    /// A market with no bets.
    pub fn new(name: String) -> (r: PredictionMarket)
        ensures
            r.wf(),
            r.market_name() == name,
            r.bet_list() == Seq::<(u128, PredictionBet)>::empty(),
            r.total_stake() == 0,
    {
        PredictionMarket { name, bets: VecMap::new(), total_stake: 0 }
    }

    /// Places a stake under a fresh id (a bet already filed under the same
    /// id is replaced); the bet pays double if it wins.
    pub fn place_bet(&mut self, bettor: Address, stake_amount: u64) -> (r: PlacedBet)
        requires
            old(self).wf(),
            old(self).total_stake() + stake_amount <= u64::MAX,
            stake_amount * 2 <= u64::MAX,
        ensures
            final(self).wf(),
            final(self).market_name() == old(self).market_name(),
            final(self).total_stake() == old(self).total_stake() + stake_amount,
            r.expected_payout == stake_amount * 2,
            final(self).bets() == old(self).bets().insert(r.bet_id, final(self).bets()[r.bet_id]),
            final(self).bets()[r.bet_id].id == r.bet_id,
            final(self).bets()[r.bet_id].bettor == bettor,
            final(self).bets()[r.bet_id].stake_amount == stake_amount,
    {
        let bet_id = new_uuid();
        let bet = PredictionBet { id: bet_id, bettor, stake_amount, placed_at: now_unix_seconds() };
        let ghost before = self.bets.entries();
        proof {
            lemma_staked_nonneg(before);
        }
        self.bets.insert(bet_id, bet);
        self.total_stake = self.total_stake + stake_amount;
        proof {
            let after = self.bets.entries();
            if has_key(before, bet_id) {
                let i = key_pos(before, bet_id);
                lemma_staked_update(before, i, (bet_id, bet));
                lemma_staked_entry(before, i);
                assert forall|j: int| 0 <= j < after.len() implies (#[trigger] after[j]).1.stake_amount * 2
                    <= u64::MAX by {
                    if j != i {
                        assert(after[j] == before[j]);
                    }
                }
            } else {
                assert(after.drop_last() =~= before);
                assert forall|j: int| 0 <= j < after.len() implies (#[trigger] after[j]).1.stake_amount * 2
                    <= u64::MAX by {
                    if j < before.len() {
                        assert(after[j] == before[j]);
                    }
                }
            }
        }
        PlacedBet { bet_id, expected_payout: stake_amount * 2 }
    }

    /// One payout per bet, in the order the bets were placed: double the
    /// stake to the bettor.
    pub fn distribute_payouts(&self) -> (r: Vec<Payout>)
        requires
            self.wf(),
        ensures
            r@.len() == self.bet_list().len(),
            forall|i: int|
                0 <= i < r@.len() ==> (#[trigger] r@[i]).recipient == self.bet_list()[i].1.bettor
                    && r@[i].amount == self.bet_list()[i].1.stake_amount * 2 && r@[i].reason@
                    == "Prediction market resolution"@,
    {
        let mut r: Vec<Payout> = Vec::new();
        let n = self.bets.len();
        let mut i: usize = 0;
        while i < n
            invariant
                self.wf(),
                n == self.bet_list().len(),
                i <= n,
                r@.len() == i,
                forall|j: int|
                    0 <= j < i ==> (#[trigger] r@[j]).recipient == self.bet_list()[j].1.bettor && r@[j].amount
                        == self.bet_list()[j].1.stake_amount * 2 && r@[j].reason@ == "Prediction market resolution"@,
            decreases n - i,
        {
            let (_, bet) = self.bets.entry_at(i);
            assert(self.bets.entries()[i as int].1.stake_amount * 2 <= u64::MAX);
            r.push(Payout::for_stake(bet.bettor, bet.stake_amount));
            i = i + 1;
        }
        r
    }
}

/// How long a futarchy market takes bets: fourteen days, in seconds.
pub const FUTARCHY_DECISION_SECS: i64 = 1_209_600;

/// When a futarchy market's outcomes are measured: ninety days, in seconds.
pub const FUTARCHY_RESOLUTION_SECS: i64 = 7_776_000;

/// A proposal decided by betting on its outcome with and without it.
#[derive(Debug)]
pub struct FutarchyMarket {
    pub id: u128,
    pub proposer: Address,
    pub proposal: FutarchyProposalData,
    pub implement_market: PredictionMarket,
    pub no_implement_market: PredictionMarket,
    pub status: FutarchyStatus,
    /// Unix time in seconds.
    pub created_at: i64,
    /// Unix time in seconds.
    pub decision_deadline: i64,
    /// Unix time in seconds.
    pub resolution_deadline: i64,
}

/// The outcome of resolving a futarchy market: the decision and the
/// payouts of each of its two markets.
#[derive(Debug)]
pub struct FutarchyOutcome {
    pub decision: FutarchyDecision,
    pub implement_payouts: Vec<Payout>,
    pub no_implement_payouts: Vec<Payout>,
}

impl FutarchyMarket {
    /// Both prediction markets are well formed.
    pub open spec fn wf(self) -> bool {
        self.implement_market.wf() && self.no_implement_market.wf()
    }

    /// A market opened at `now` (Unix seconds) under a fresh id: an empty
    /// prediction market for implementing the proposal and one for not
    /// implementing it, taking bets for fourteen days, measured after
    /// ninety.
    pub fn open(proposer: Address, proposal: FutarchyProposalData, now: i64) -> (r: FutarchyMarket)
        requires
            now <= i64::MAX - FUTARCHY_RESOLUTION_SECS,
        ensures
            r.wf(),
            r.proposer == proposer,
            r.proposal == proposal,
            r.status == FutarchyStatus::Active,
            r.created_at == now,
            r.decision_deadline == now + FUTARCHY_DECISION_SECS,
            r.resolution_deadline == now + FUTARCHY_RESOLUTION_SECS,
            r.implement_market.market_name()@ == "Implement: "@ + proposal.title@,
            r.no_implement_market.market_name()@ == "Don't implement: "@ + proposal.title@,
            r.implement_market.bet_list().len() == 0,
            r.no_implement_market.bet_list().len() == 0,
    {
        let mut yes_name = text("Implement: ");
        push_text(&mut yes_name, proposal.title.as_str());
        let mut no_name = text("Don't implement: ");
        push_text(&mut no_name, proposal.title.as_str());
        FutarchyMarket {
            id: new_uuid(),
            proposer,
            proposal,
            implement_market: PredictionMarket::new(yes_name),
            no_implement_market: PredictionMarket::new(no_name),
            status: FutarchyStatus::Active,
            created_at: now,
            decision_deadline: now + FUTARCHY_DECISION_SECS,
            resolution_deadline: now + FUTARCHY_RESOLUTION_SECS,
        }
    }

    /// Places a stake in one of the two markets; refused once the market
    /// is no longer active.
    pub fn place_bet(&mut self, market_type: FutarchyMarketType, bettor: Address, stake_amount: u64) -> (r: Result<
        PlacedBet,
        GovernanceError,
    >)
        requires
            old(self).wf(),
            old(self).status == FutarchyStatus::Active ==> stake_amount * 2 <= u64::MAX && match market_type {
                FutarchyMarketType::Implement => old(self).implement_market.total_stake() + stake_amount
                    <= u64::MAX,
                FutarchyMarketType::NoImplement => old(self).no_implement_market.total_stake() + stake_amount
                    <= u64::MAX,
            },
        ensures
            final(self).wf(),
            old(self).status != FutarchyStatus::Active ==> r == Err::<PlacedBet, GovernanceError>(
                GovernanceError::MarketNotActive,
            ) && *final(self) == *old(self),
            old(self).status == FutarchyStatus::Active ==> (r matches Ok(b) && b.expected_payout == stake_amount * 2
                && match market_type {
                FutarchyMarketType::Implement => {
                    &&& final(self).implement_market.total_stake() == old(self).implement_market.total_stake()
                        + stake_amount
                    &&& final(self).implement_market.bets()[b.bet_id].bettor == bettor
                    &&& final(self).implement_market.bets()[b.bet_id].stake_amount == stake_amount
                    &&& final(self).no_implement_market == old(self).no_implement_market
                },
                FutarchyMarketType::NoImplement => {
                    &&& final(self).no_implement_market.total_stake() == old(self).no_implement_market.total_stake()
                        + stake_amount
                    &&& final(self).no_implement_market.bets()[b.bet_id].bettor == bettor
                    &&& final(self).no_implement_market.bets()[b.bet_id].stake_amount == stake_amount
                    &&& final(self).implement_market == old(self).implement_market
                },
            }),
            final(self).status == old(self).status,
            final(self).id == old(self).id,
    {
        if self.status != FutarchyStatus::Active {
            return Err(GovernanceError::MarketNotActive);
        }
        let placed = match market_type {
            FutarchyMarketType::Implement => self.implement_market.place_bet(bettor, stake_amount),
            FutarchyMarketType::NoImplement => self.no_implement_market.place_bet(bettor, stake_amount),
        };
        Ok(placed)
    }

    /// Resolves the market: implement when the implement market predicted
    /// the outcomes more accurately (`implement_wins`), reject otherwise;
    /// every bet of both markets is paid out. Refused when the market was
    /// already resolved.
    pub fn resolve(&mut self, implement_wins: bool) -> (r: Result<FutarchyOutcome, GovernanceError>)
        requires
            old(self).wf(),
        ensures
            final(self).wf(),
            old(self).status != FutarchyStatus::Active ==> r is Err && r == Err::<FutarchyOutcome, GovernanceError>(
                GovernanceError::MarketAlreadyResolved,
            ) && *final(self) == *old(self),
            old(self).status == FutarchyStatus::Active ==> final(self).status == FutarchyStatus::Resolved && (
            r matches Ok(o) && o.decision == (if implement_wins {
                FutarchyDecision::Implement
            } else {
                FutarchyDecision::Reject
            }) && o.implement_payouts@.len() == old(self).implement_market.bet_list().len()
                && o.no_implement_payouts@.len() == old(self).no_implement_market.bet_list().len() && (forall|i: int|
                0 <= i < o.implement_payouts@.len() ==> (#[trigger] o.implement_payouts@[i]).recipient == old(
                    self,
                ).implement_market.bet_list()[i].1.bettor && o.implement_payouts@[i].amount == old(
                    self,
                ).implement_market.bet_list()[i].1.stake_amount * 2) && (forall|i: int|
                0 <= i < o.no_implement_payouts@.len() ==> (#[trigger] o.no_implement_payouts@[i]).recipient == old(
                    self,
                ).no_implement_market.bet_list()[i].1.bettor && o.no_implement_payouts@[i].amount == old(
                    self,
                ).no_implement_market.bet_list()[i].1.stake_amount * 2)),
            final(self).implement_market == old(self).implement_market,
            final(self).no_implement_market == old(self).no_implement_market,
            final(self).id == old(self).id,
    {
        if self.status != FutarchyStatus::Active {
            return Err(GovernanceError::MarketAlreadyResolved);
        }
        let decision = if implement_wins {
            FutarchyDecision::Implement
        } else {
            FutarchyDecision::Reject
        };
        self.status = FutarchyStatus::Resolved;
        let implement_payouts = self.implement_market.distribute_payouts();
        let no_implement_payouts = self.no_implement_market.distribute_payouts();
        Ok(FutarchyOutcome { decision, implement_payouts, no_implement_payouts })
    }
}

/// Law: the payouts of a market come to exactly double the stakes of its
/// bets.
pub proof fn lemma_payouts_double_stakes(bets: Seq<(u128, PredictionBet)>, payouts: Seq<Payout>)
    requires
        payouts.len() == bets.len(),
        forall|i: int| 0 <= i < payouts.len() ==> (#[trigger] payouts[i]).amount == bets[i].1.stake_amount * 2,
    ensures
        total_paid(payouts) == 2 * total_staked(bets),
    decreases bets.len(),
{
    if bets.len() > 0 {
        lemma_payouts_double_stakes(bets.drop_last(), payouts.drop_last());
        assert(payouts[payouts.len() - 1].amount == bets[bets.len() - 1].1.stake_amount * 2);
    }
}

/// The sum of the amounts of some payouts.
pub open spec fn total_paid(s: Seq<Payout>) -> int
    decreases s.len(),
{
    if s.len() == 0 {
        0
    } else {
        total_paid(s.drop_last()) + s.last().amount
    }
}

proof fn lemma_staked_nonneg(s: Seq<(u128, PredictionBet)>)
    ensures
        total_staked(s) >= 0,
    decreases s.len(),
{
    if s.len() > 0 {
        lemma_staked_nonneg(s.drop_last());
    }
}

proof fn lemma_staked_entry(s: Seq<(u128, PredictionBet)>, i: int)
    requires
        0 <= i < s.len(),
    ensures
        total_staked(s) >= s[i].1.stake_amount,
    decreases s.len(),
{
    lemma_staked_nonneg(s.drop_last());
    if i < s.len() - 1 {
        lemma_staked_entry(s.drop_last(), i);
    }
}

proof fn lemma_staked_update(s: Seq<(u128, PredictionBet)>, i: int, e: (u128, PredictionBet))
    requires
        0 <= i < s.len(),
    ensures
        total_staked(s.update(i, e)) == total_staked(s) - s[i].1.stake_amount + e.1.stake_amount,
    decreases s.len(),
{
    if i == s.len() - 1 {
        assert(s.update(i, e).drop_last() =~= s.drop_last());
    } else {
        assert(s.update(i, e).drop_last() =~= s.drop_last().update(i, e));
        lemma_staked_update(s.drop_last(), i, e);
    }
}

/// A proposal funded by conviction voting.
#[derive(Debug)]
pub struct ConvictionProposalData {
    pub title: String,
    pub description: String,
    pub deliverables: Vec<String>,
    pub timeline: String,
}

/// What an AI agent recommends.
#[derive(Debug, Clone, Copy, PartialEq, Eq, Structural)]
pub enum VoteRecommendation {
    StronglySupport,
    Support,
    Neutral,
    Oppose,
    StronglyOppose,
}

/// The base cost of a vote on a proposal type: the unit that the square
/// of the vote strength is multiplied by.
pub open spec fn quadratic_base_cost(t: ProposalType) -> u64 {
    match t {
        ProposalType::ParameterChange => 100,
        ProposalType::ProtocolUpgrade => 1000,
        ProposalType::TreasuryAllocation => 500,
        ProposalType::NetworkGovernance => 200,
        ProposalType::EmergencyAction => 2000,
    }
}

/// The base cost of a quadratic vote grows with what a proposal can change:
/// 100 for a parameter change, 200 for network governance, 500 for a
/// treasury allocation, 1000 for a protocol upgrade (ten times a parameter
/// change) and 2000 for an emergency action (twice a protocol upgrade).
pub proof fn lemma_quadratic_base_costs()
    ensures
        quadratic_base_cost(ProposalType::ParameterChange) == 100,
        quadratic_base_cost(ProposalType::NetworkGovernance) == 200,
        quadratic_base_cost(ProposalType::TreasuryAllocation) == 500,
        quadratic_base_cost(ProposalType::ProtocolUpgrade) == 1000,
        quadratic_base_cost(ProposalType::EmergencyAction) == 2000,
        quadratic_base_cost(ProposalType::ProtocolUpgrade) == 10 * quadratic_base_cost(ProposalType::ParameterChange),
        quadratic_base_cost(ProposalType::EmergencyAction) == 2 * quadratic_base_cost(ProposalType::ProtocolUpgrade),
        forall|t: ProposalType|
            quadratic_base_cost(ProposalType::ParameterChange) <= #[trigger] quadratic_base_cost(t)
                <= quadratic_base_cost(ProposalType::EmergencyAction),
{
}

/// The base cost of a vote on a proposal type.
pub fn calculate_quadratic_base_cost(proposal_type: ProposalType) -> (r: u64)
    ensures
        r == quadratic_base_cost(proposal_type),
{
    match proposal_type {
        ProposalType::ParameterChange => 100,
        ProposalType::ProtocolUpgrade => 1000,
        ProposalType::TreasuryAllocation => 500,
        ProposalType::NetworkGovernance => 200,
        ProposalType::EmergencyAction => 2000,
    }
}

/// Whether a quadratic vote costing `cost` may be cast at `now` (Unix
/// seconds) on a proposal with this status and end of voting: it must be
/// active, voting not over, and the cost within the voter's maximum; the
/// checks are made in that order.
pub fn check_quadratic_vote(
    status: GovernanceProposalStatus,
    now: i64,
    voting_ends_at: i64,
    cost: u64,
    max_cost: u64,
) -> (r: Result<(), GovernanceError>)
    ensures
        status != GovernanceProposalStatus::Active ==> r == Err::<(), GovernanceError>(
            GovernanceError::ProposalNotActive,
        ),
        status == GovernanceProposalStatus::Active && now > voting_ends_at ==> r == Err::<(), GovernanceError>(
            GovernanceError::VotingEnded,
        ),
        status == GovernanceProposalStatus::Active && now <= voting_ends_at && cost > max_cost ==> r == Err::<
            (),
            GovernanceError,
        >(GovernanceError::CostExceedsMaximum),
        status == GovernanceProposalStatus::Active && now <= voting_ends_at && cost <= max_cost ==> r is Ok,
{
    if status != GovernanceProposalStatus::Active {
        return Err(GovernanceError::ProposalNotActive);
    }
    if now > voting_ends_at {
        return Err(GovernanceError::VotingEnded);
    }
    if cost > max_cost {
        return Err(GovernanceError::CostExceedsMaximum);
    }
    Ok(())
}

/// The cost a proposal has collected after a voter's vote: a voter's
/// earlier vote is refunded and the new cost is added.
pub fn quadratic_cost_after_vote(total_cost_paid: u64, previous_cost: Option<u64>, cost: u64) -> (r: u64)
    requires
        previous_cost matches Some(p) ==> p <= total_cost_paid,
        total_cost_paid - (if let Some(p) = previous_cost {
            p as int
        } else {
            0
        }) + cost <= u64::MAX,
    ensures
        r == total_cost_paid - (if let Some(p) = previous_cost {
            p as int
        } else {
            0
        }) + cost,
{
    let base = match previous_cost {
        Some(p) => total_cost_paid - p,
        None => total_cost_paid,
    };
    base + cost
}

/// The delegations made, by delegator.
#[derive(Debug)]
pub struct DelegationSystem {
    delegations: VecMap<Address, Vec<Delegation>>,
}

impl DelegationSystem {
    /// The delegations of each delegator, oldest first.
    pub closed spec fn by_delegator(self) -> Map<Seq<u8>, Seq<Delegation>> {
        Map::new(|a: Seq<u8>| self.delegations@.contains_key(a), |a: Seq<u8>| self.delegations@[a]@)
    }

    /// All delegations, delegator by delegator.
    pub closed spec fn all(self) -> Seq<Seq<Delegation>> {
        self.delegations.entries().map_values(|e: (Address, Vec<Delegation>)| e.1@)
    }

    /// The map is well formed.
    pub closed spec fn wf(self) -> bool {
        self.delegations.wf()
    }

    /// No delegations.
    pub fn new() -> (r: DelegationSystem)
        ensures
            r.wf(),
            r.by_delegator() == Map::<Seq<u8>, Seq<Delegation>>::empty(),
    {
        let r = DelegationSystem { delegations: VecMap::new() };
        assert(r.by_delegator() =~= Map::<Seq<u8>, Seq<Delegation>>::empty());
        r
    }

    /// Records an active delegation under a fresh id, after the
    /// delegator's earlier ones.
    pub fn create_delegation(
        &mut self,
        delegator: Address,
        delegatee: Address,
        delegation_type: DelegationType,
        expiry: i64,
    ) -> (r: DelegationResult)
        requires
            old(self).wf(),
        ensures
            final(self).wf(),
            r.active,
            final(self).by_delegator().contains_key(delegator@),
            ({
                let before = if old(self).by_delegator().contains_key(delegator@) {
                    old(self).by_delegator()[delegator@]
                } else {
                    Seq::<Delegation>::empty()
                };
                let after = final(self).by_delegator()[delegator@];
                &&& after.len() == before.len() + 1
                &&& after.take(before.len() as int) == before
                &&& after.last().id == r.delegation_id
                &&& after.last().delegator == delegator
                &&& after.last().delegatee == delegatee
                &&& after.last().delegation_type == delegation_type
                &&& after.last().expires_at == expiry
                &&& after.last().status == DelegationStatus::Active
            }),
            final(self).by_delegator() == old(self).by_delegator().insert(
                delegator@,
                final(self).by_delegator()[delegator@],
            ),
    {
        let id = new_uuid();
        let delegation = Delegation {
            id,
            delegator,
            delegatee,
            delegation_type,
            created_at: now_unix_seconds(),
            expires_at: expiry,
            status: DelegationStatus::Active,
        };
        let ghost d = delegation;
        let ghost m0 = self.by_delegator();
        let mut list = match self.delegations.remove(&delegator) {
            Some(l) => l,
            None => Vec::new(),
        };
        let ghost before = list@;
        list.push(delegation);
        proof {
            assert(list@.take(before.len() as int) =~= before);
        }
        self.delegations.insert(delegator, list);
        proof {
            assert(self.by_delegator() =~= m0.insert(delegator@, before.push(d)));
        }
        DelegationResult { delegation_id: id, active: true }
    }

    /// How many delegations there are, and how many of them are active.
    pub fn count_delegations(&self) -> (r: (usize, usize))
        requires
            self.wf(),
            delegation_total(self.all()) <= usize::MAX,
        ensures
            r.0 == delegation_total(self.all()),
            r.1 == active_total(self.all()),
    {
        let ghost s = self.all();
        let n = self.delegations.len();
        let mut total: usize = 0;
        let mut active: usize = 0;
        let mut i: usize = 0;
        while i < n
            invariant
                self.wf(),
                s == self.all(),
                n == s.len(),
                i <= n,
                total == delegation_total(s.take(i as int)),
                active == active_total(s.take(i as int)),
                delegation_total(s) <= usize::MAX,
            decreases n - i,
        {
            proof {
                lemma_totals_prefix(s, i + 1, n as int);
                lemma_active_le_total(s.take(i + 1));
                assert(s.take(n as int) =~= s);
                assert(s.take(i + 1).drop_last() =~= s.take(i as int));
            }
            let (_a, list) = self.delegations.entry_at(i);
            let m = list.len();
            let mut here: usize = 0;
            let mut j: usize = 0;
            while j < m
                invariant
                    m == list@.len(),
                    j <= m,
                    here == active_count(list@.take(j as int)),
                    here <= j,
                decreases m - j,
            {
                proof {
                    assert(list@.take(j + 1).drop_last() =~= list@.take(j as int));
                }
                if list[j].status == DelegationStatus::Active {
                    here = here + 1;
                }
                j = j + 1;
            }
            proof {
                assert(list@.take(m as int) =~= list@);
                assert(s[i as int] == list@);
            }
            total = total + m;
            active = active + here;
            i = i + 1;
        }
        proof {
            assert(s.take(n as int) =~= s);
        }
        (total, active)
    }
}

/// The number of active delegations in a list.
pub open spec fn active_count(l: Seq<Delegation>) -> int
    decreases l.len(),
{
    if l.len() == 0 {
        0
    } else {
        active_count(l.drop_last()) + if l.last().status == DelegationStatus::Active {
            1int
        } else {
            0
        }
    }
}

/// The number of delegations over all lists.
pub open spec fn delegation_total(s: Seq<Seq<Delegation>>) -> int
    decreases s.len(),
{
    if s.len() == 0 {
        0
    } else {
        delegation_total(s.drop_last()) + s.last().len()
    }
}

/// The number of active delegations over all lists.
pub open spec fn active_total(s: Seq<Seq<Delegation>>) -> int
    decreases s.len(),
{
    if s.len() == 0 {
        0
    } else {
        active_total(s.drop_last()) + active_count(s.last())
    }
}

proof fn lemma_active_count_le(l: Seq<Delegation>)
    ensures
        0 <= active_count(l) <= l.len(),
    decreases l.len(),
{
    if l.len() > 0 {
        lemma_active_count_le(l.drop_last());
    }
}

proof fn lemma_active_le_total(s: Seq<Seq<Delegation>>)
    ensures
        0 <= active_total(s) <= delegation_total(s),
    decreases s.len(),
{
    if s.len() > 0 {
        lemma_active_le_total(s.drop_last());
        lemma_active_count_le(s.last());
    }
}

proof fn lemma_totals_prefix(s: Seq<Seq<Delegation>>, i: int, j: int)
    requires
        0 <= i <= j <= s.len(),
    ensures
        0 <= delegation_total(s.take(i)) <= delegation_total(s.take(j)),
    decreases j - i,
{
    if i < j {
        lemma_totals_prefix(s, i, j - 1);
        assert(s.take(j).drop_last() =~= s.take(j - 1));
    } else {
        lemma_total_nonneg(s.take(i));
    }
}

proof fn lemma_total_nonneg(s: Seq<Seq<Delegation>>)
    ensures
        delegation_total(s) >= 0,
    decreases s.len(),
{
    if s.len() > 0 {
        lemma_total_nonneg(s.drop_last());
    }
}

} // verus!
