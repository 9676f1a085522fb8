//! The AI agents that take part in governance: their specializations,
//! personalities and states, the kinds of proposal they draft and how they
//! vote, and the engines that analyse the network and predict consensus.
use vstd::prelude::*;
use crate::address::Address;
use crate::text::{push_decimal, text, decimal};
use crate::vecmap::{KeyEq, VecMap};

verus! {

/// What an AI governance agent specializes in.
#[derive(Debug, Clone, Copy, PartialEq, Eq, Hash, Structural)]
pub enum AgentSpecialization {
    Economic,
    Technical,
    Community,
    Security,
    Arbitration,
}

/// How an AI governance agent leans.
#[derive(Debug, Clone, Copy, PartialEq, Eq, Structural)]
pub enum AgentPersonality {
    Conservative,
    Progressive,
    Collaborative,
    Cautious,
    Neutral,
}

/// Whether an AI governance agent takes part, and how.
#[derive(Debug, Clone, Copy, PartialEq, Eq, Structural)]
pub enum AgentStatus {
    Active,
    Inactive,
    Learning,
    Evolving,
}

/// The kinds of proposal the agents draft.
#[derive(Debug, Clone, Copy, PartialEq, Eq, Structural)]
pub enum AIProposalType {
    ParameterAdjustment,
    TreasuryAllocation,
    RewardModification,
    NewFeature,
    SecurityUpdate,
}

/// Which way an agent votes.
#[derive(Debug, Clone, Copy, PartialEq, Eq, Structural)]
pub enum VoteDirection {
    For,
    Against,
    Abstain,
}

/// How strongly an agent votes.
#[derive(Debug, Clone, Copy, PartialEq, Eq, Structural)]
pub enum VoteStrength {
    Weak,
    Moderate,
    Strong,
}

/// How risky a drafted proposal is.
#[derive(Debug, Clone, Copy, PartialEq, Eq, Structural)]
pub enum RiskLevel {
    Low,
    Medium,
    High,
    Critical,
}

/// How feasible a drafted proposal is.
#[derive(Debug, Clone, Copy, PartialEq, Eq, Structural)]
pub enum ImplementationFeasibility {
    Low,
    Medium,
    High,
}

/// How urgent a drafted proposal is.
#[derive(Debug, Clone, Copy, PartialEq, Eq, Structural)]
pub enum ProposalPriority {
    Low,
    Medium,
    High,
    Critical,
}

/// How a past proposal ended.
#[derive(Debug, Clone, Copy, PartialEq, Eq, Structural)]
pub enum ProposalOutcome {
    Passed,
    Failed,
    Withdrawn,
    Expired,
}

/// What the consensus predictor expects of a proposal.
#[derive(Debug, Clone, Copy, PartialEq, Eq, Structural)]
pub enum PredictedOutcome {
    Pass,
    Fail,
    Uncertain,
}

/// Which way the votes cast so far lean.
#[derive(Debug, Clone, Copy, PartialEq, Eq, Structural)]
pub enum VoteTrend {
    StronglyFor,
    For,
    Neutral,
    Against,
    StronglyAgainst,
}

/// What kind of feedback a human gives an agent.
#[derive(Debug, Clone, Copy, PartialEq, Eq, Structural)]
pub enum FeedbackType {
    Positive,
    Negative,
    Neutral,
    Corrective,
}

/// The models the consensus predictor draws on.
#[derive(Debug)]
pub struct PredictionModels {}

impl PredictionModels {
    /// The models.
    pub fn new() -> (r: PredictionModels) {
        PredictionModels {}
    }
}

/// The engine that reads the network's state for the proposal generator.
#[derive(Debug)]
pub struct NetworkAnalysisEngine {}

impl NetworkAnalysisEngine {
    /// The engine.
    pub fn new() -> (r: NetworkAnalysisEngine) {
        NetworkAnalysisEngine {}
    }
}

/// Predicts whether proposals will reach consensus, from its models and
/// the outcomes of past proposals.
#[derive(Debug)]
pub struct ConsensusPredictor {
    pub prediction_models: PredictionModels,
    pub historical_data: Vec<ProposalOutcome>,
}

impl ConsensusPredictor {
    /// A predictor with no history yet.
    pub fn new() -> (r: ConsensusPredictor)
        ensures
            r.historical_data@ == Seq::<ProposalOutcome>::empty(),
    {
        ConsensusPredictor { prediction_models: PredictionModels::new(), historical_data: Vec::new() }
    }
}

impl View for AgentSpecialization {
    type V = AgentSpecialization;

    open spec fn view(&self) -> AgentSpecialization {
        *self
    }
}

impl KeyEq for AgentSpecialization {
    fn key_eq(&self, other: &Self) -> (r: bool) {
        *self == *other
    }
}

/// A proposal as the agents see it.
#[derive(Debug, Clone)]
pub struct ProposalData {
    pub id: u128,
    pub title: String,
    pub description: String,
    pub proposal_type: AIProposalType,
    /// Unix seconds.
    pub created_at: i64,
}

/// A human's vote on a proposal, of some weight.
#[derive(Debug, Clone)]
pub struct HumanVote {
    pub id: u128,
    pub voter: Address,
    pub proposal_id: u128,
    pub direction: VoteDirection,
    pub weight: u64,
    /// Unix seconds.
    pub timestamp: i64,
}

/// How many of the votes are cast for.
pub open spec fn votes_for(votes: Seq<HumanVote>) -> nat
    decreases votes.len(),
{
    if votes.len() == 0 {
        0
    } else {
        votes_for(votes.drop_last()) + if votes.last().direction == VoteDirection::For {
            1nat
        } else {
            0nat
        }
    }
}

/// The trend of `total` votes of which `for_votes` are for: neutral with
/// no votes; otherwise by the share cast for, strongly for above 70%, for
/// above 55%, strongly against below 30%, against below 45%, and neutral
/// in between.
pub open spec fn trend_of(for_votes: int, total: int) -> VoteTrend {
    if total == 0 {
        VoteTrend::Neutral
    } else if 10 * for_votes > 7 * total {
        VoteTrend::StronglyFor
    } else if 20 * for_votes > 11 * total {
        VoteTrend::For
    } else if 10 * for_votes < 3 * total {
        VoteTrend::StronglyAgainst
    } else if 20 * for_votes < 9 * total {
        VoteTrend::Against
    } else {
        VoteTrend::Neutral
    }
}

/// What could sway a proposal's vote: a turnout above ten voters, and what
/// its kind touches (security, the economy or technical complexity).
pub open spec fn key_factors(proposal_type: AIProposalType, voters: int) -> Seq<Seq<char>> {
    let turnout = if voters > 10 {
        seq!["High voter turnout"@]
    } else {
        Seq::<Seq<char>>::empty()
    };
    turnout + match proposal_type {
        AIProposalType::SecurityUpdate => seq!["Security implications"@],
        AIProposalType::TreasuryAllocation => seq!["Economic impact"@],
        AIProposalType::NewFeature => seq!["Technical complexity"@],
        _ => Seq::<Seq<char>>::empty(),
    }
}

impl ConsensusPredictor {
    /// Which way the votes cast so far lean, from the share cast for.
    pub fn analyze_vote_trend(&self, votes: &[HumanVote]) -> (r: VoteTrend)
        ensures
            r == trend_of(votes_for(votes@) as int, votes@.len() as int),
    {
        let n = votes.len();
        let mut for_votes: usize = 0;
        let mut i: usize = 0;
        while i < n
            invariant
                n == votes@.len(),
                i <= n,
                for_votes == votes_for(votes@.take(i as int)),
                for_votes <= i,
            decreases n - i,
        {
            proof {
                assert(votes@.take(i as int + 1).drop_last() =~= votes@.take(i as int));
            }
            if votes[i].direction == VoteDirection::For {
                for_votes = for_votes + 1;
            }
            i = i + 1;
        }
        proof {
            assert(votes@.take(n as int) =~= votes@);
        }
        let f = for_votes as u128;
        let t = n as u128;
        if t == 0 {
            VoteTrend::Neutral
        } else if 10 * f > 7 * t {
            VoteTrend::StronglyFor
        } else if 20 * f > 11 * t {
            VoteTrend::For
        } else if 10 * f < 3 * t {
            VoteTrend::StronglyAgainst
        } else if 20 * f < 9 * t {
            VoteTrend::Against
        } else {
            VoteTrend::Neutral
        }
    }

    /// What could sway the proposal's vote, in the order: turnout, then
    /// what its kind touches.
    pub fn identify_key_factors(&self, proposal: &ProposalData, votes: &[HumanVote]) -> (r: Vec<String>)
        ensures
            r@.len() == key_factors(proposal.proposal_type, votes@.len() as int).len(),
            forall|i: int|
                0 <= i < r@.len() ==> #[trigger] r@[i]@ == key_factors(
                    proposal.proposal_type,
                    votes@.len() as int,
                )[i],
    {
        let mut factors: Vec<String> = Vec::new();
        if votes.len() > 10 {
            factors.push(text("High voter turnout"));
        }
        let ghost before = factors@;
        match proposal.proposal_type {
            AIProposalType::SecurityUpdate => factors.push(text("Security implications")),
            AIProposalType::TreasuryAllocation => factors.push(text("Economic impact")),
            AIProposalType::NewFeature => factors.push(text("Technical complexity")),
            _ => {},
        }
        proof {
            let ks = key_factors(proposal.proposal_type, votes@.len() as int);
            assert forall|i: int| 0 <= i < factors@.len() implies #[trigger] factors@[i]@ == ks[i] by {
                if i < before.len() {
                    assert(factors@[i] == before[i]);
                }
            }
        }
        factors
    }
}

/// How risky an agent of a specialization judges a kind of proposal: the
/// security agent calls security updates low-risk, parameter changes
/// medium and the rest high; the economist calls treasury and reward
/// changes medium and the rest low; every other agent says medium.
pub open spec fn risk_of(specialization: AgentSpecialization, proposal_type: AIProposalType) -> RiskLevel {
    match specialization {
        AgentSpecialization::Security => match proposal_type {
            AIProposalType::SecurityUpdate => RiskLevel::Low,
            AIProposalType::ParameterAdjustment => RiskLevel::Medium,
            _ => RiskLevel::High,
        },
        AgentSpecialization::Economic => match proposal_type {
            AIProposalType::TreasuryAllocation => RiskLevel::Medium,
            AIProposalType::RewardModification => RiskLevel::Medium,
            _ => RiskLevel::Low,
        },
        _ => RiskLevel::Medium,
    }
}

/// The risk an agent of this specialization sees in a kind of proposal.
pub fn assess_risk(specialization: AgentSpecialization, proposal_type: AIProposalType) -> (r: RiskLevel)
    ensures
        r == risk_of(specialization, proposal_type),
{
    match specialization {
        AgentSpecialization::Security => match proposal_type {
            AIProposalType::SecurityUpdate => RiskLevel::Low,
            AIProposalType::ParameterAdjustment => RiskLevel::Medium,
            _ => RiskLevel::High,
        },
        AgentSpecialization::Economic => match proposal_type {
            AIProposalType::TreasuryAllocation => RiskLevel::Medium,
            AIProposalType::RewardModification => RiskLevel::Medium,
            _ => RiskLevel::Low,
        },
        _ => RiskLevel::Medium,
    }
}

/// How feasible a kind of proposal is to carry out: reward changes and new
/// features medium, the rest high.
pub open spec fn feasibility_of(proposal_type: AIProposalType) -> ImplementationFeasibility {
    match proposal_type {
        AIProposalType::RewardModification => ImplementationFeasibility::Medium,
        AIProposalType::NewFeature => ImplementationFeasibility::Medium,
        _ => ImplementationFeasibility::High,
    }
}

/// How feasible a kind of proposal is to carry out.
pub fn assess_feasibility(proposal_type: AIProposalType) -> (r: ImplementationFeasibility)
    ensures
        r == feasibility_of(proposal_type),
{
    match proposal_type {
        AIProposalType::ParameterAdjustment => ImplementationFeasibility::High,
        AIProposalType::TreasuryAllocation => ImplementationFeasibility::High,
        AIProposalType::RewardModification => ImplementationFeasibility::Medium,
        AIProposalType::NewFeature => ImplementationFeasibility::Medium,
        AIProposalType::SecurityUpdate => ImplementationFeasibility::High,
    }
}

/// The opening words of an agent's reasoning, by its specialization.
pub open spec fn reasoning_basis_of(specialization: AgentSpecialization) -> Seq<char> {
    match specialization {
        AgentSpecialization::Economic => "Economic impact analysis indicates"@,
        AgentSpecialization::Technical => "Technical feasibility assessment shows"@,
        AgentSpecialization::Community => "Community benefit evaluation suggests"@,
        AgentSpecialization::Security => "Security risk analysis reveals"@,
        AgentSpecialization::Arbitration => "Balanced evaluation considering all factors indicates"@,
    }
}

/// The opening words of an agent's reasoning.
pub fn reasoning_basis(specialization: AgentSpecialization) -> (r: String)
    ensures
        r@ == reasoning_basis_of(specialization),
{
    match specialization {
        AgentSpecialization::Economic => text("Economic impact analysis indicates"),
        AgentSpecialization::Technical => text("Technical feasibility assessment shows"),
        AgentSpecialization::Community => text("Community benefit evaluation suggests"),
        AgentSpecialization::Security => text("Security risk analysis reveals"),
        AgentSpecialization::Arbitration => text("Balanced evaluation considering all factors indicates"),
    }
}

/// How many of the agents have a specialization.
pub open spec fn specialization_count(specs: Seq<AgentSpecialization>, s: AgentSpecialization) -> nat
    decreases specs.len(),
{
    if specs.len() == 0 {
        0
    } else {
        specialization_count(specs.drop_last(), s) + if specs.last() == s {
            1nat
        } else {
            0nat
        }
    }
}

/// Counts the agents of each specialization: the map holds exactly the
/// specializations that occur, each with its number of agents.
pub fn count_specializations(specs: &[AgentSpecialization]) -> (r: VecMap<AgentSpecialization, usize>)
    ensures
        r.wf(),
        forall|s: AgentSpecialization|
            #![trigger r@.contains_key(s)]
            r@.contains_key(s) <==> specialization_count(specs@, s) > 0,
        forall|s: AgentSpecialization|
            r@.contains_key(s) ==> r@[s] == specialization_count(specs@, s),
{
    let mut counts: VecMap<AgentSpecialization, usize> = VecMap::new();
    let n = specs.len();
    let mut i: usize = 0;
    while i < n
        invariant
            n == specs@.len(),
            i <= n,
            counts.wf(),
            forall|s: AgentSpecialization|
                #![trigger counts@.contains_key(s)]
                counts@.contains_key(s) <==> specialization_count(specs@.take(i as int), s) > 0,
            forall|s: AgentSpecialization|
                counts@.contains_key(s) ==> counts@[s] == specialization_count(specs@.take(i as int), s),
            forall|s: AgentSpecialization| specialization_count(specs@.take(i as int), s) <= i,
        decreases n - i,
    {
        let s = specs[i];
        let ghost prev = specs@.take(i as int);
        proof {
            assert(specs@.take(i as int + 1).drop_last() =~= prev);
            assert(specs@.take(i as int + 1).last() == s);
        }
        let current: usize = match counts.get(&s) {
            Some(c) => *c,
            None => 0,
        };
        counts.insert(s, current + 1);
        i = i + 1;
        proof {
            assert forall|t: AgentSpecialization| #[trigger]
                specialization_count(specs@.take(i as int), t) <= i by {
                assert(specs@.take(i as int).drop_last() =~= prev);
                assert(specialization_count(prev, t) <= i - 1);
            }
        }
    }
    proof {
        assert(specs@.take(n as int) =~= specs@);
    }
    counts
}

/// What the evolution system gives the agent it creates in a generation.
#[derive(Debug, Clone)]
pub struct EvolvedAgentSeed {
    pub name: String,
    pub specialization: AgentSpecialization,
    pub personality: AgentPersonality,
}

/// The specialization of the `i`-th of the five kinds, in the order the
/// evolution system cycles through them.
pub open spec fn cycled_specialization(i: int) -> AgentSpecialization {
    if i == 0 {
        AgentSpecialization::Economic
    } else if i == 1 {
        AgentSpecialization::Technical
    } else if i == 2 {
        AgentSpecialization::Community
    } else if i == 3 {
        AgentSpecialization::Security
    } else {
        AgentSpecialization::Arbitration
    }
}

/// The personality of the `i`-th of the five kinds, in the order the
/// evolution system cycles through them.
pub open spec fn cycled_personality(i: int) -> AgentPersonality {
    if i == 0 {
        AgentPersonality::Conservative
    } else if i == 1 {
        AgentPersonality::Progressive
    } else if i == 2 {
        AgentPersonality::Collaborative
    } else if i == 3 {
        AgentPersonality::Cautious
    } else {
        AgentPersonality::Neutral
    }
}

/// The agent the evolution system creates in a generation: named after the
/// generation, with the specialization and personality that the
/// generation picks, modulo five, from the cycles above.
pub fn evolved_agent_seed(generation: u32) -> (r: EvolvedAgentSeed)
    ensures
        r.name@ == "Evolved Agent Gen-"@ + decimal(generation as nat),
        r.specialization == cycled_specialization(generation as int % 5),
        r.personality == cycled_personality(generation as int % 5),
{
    let mut name = text("Evolved Agent Gen-");
    push_decimal(&mut name, generation as u64);
    let k = generation % 5;
    let specialization = if k == 0 {
        AgentSpecialization::Economic
    } else if k == 1 {
        AgentSpecialization::Technical
    } else if k == 2 {
        AgentSpecialization::Community
    } else if k == 3 {
        AgentSpecialization::Security
    } else {
        AgentSpecialization::Arbitration
    };
    let personality = if k == 0 {
        AgentPersonality::Conservative
    } else if k == 1 {
        AgentPersonality::Progressive
    } else if k == 2 {
        AgentPersonality::Collaborative
    } else if k == 3 {
        AgentPersonality::Cautious
    } else {
        AgentPersonality::Neutral
    };
    EvolvedAgentSeed { name, specialization, personality }
}

} // verus!
