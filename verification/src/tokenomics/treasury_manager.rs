//! The treasury's rules: its cut of minted tokens, how much a funding
//! category may receive, when a vote may be cast, how votes are tallied,
//! and how a funding decision is settled against the balance.
use vstd::prelude::*;
use crate::address::Address;
use crate::sys::{new_uuid, now_unix_seconds};
use crate::text::text;
use crate::vecmap::VecMap;

verus! {

/// Why a treasury operation was refused.
#[derive(Debug, Clone, Copy, PartialEq, Eq)]
pub enum TreasuryError {
    /// The proposal is not open for voting.
    ProposalNotActive,
    /// The voting deadline has passed.
    VotingClosed,
    /// No proposal has that id.
    ProposalNotFound,
}

/// What a funding proposal is for.
#[derive(Debug, Clone, Copy, PartialEq, Eq, Hash, Structural)]
pub enum FundingCategory {
    Research,
    Infrastructure,
    Community,
    Security,
    Innovation,
}

/// Where a funding proposal stands.
#[derive(Debug, Clone, Copy, PartialEq, Eq, Structural)]
pub enum ProposalStatus {
    UnderReview,
    Active,
    Approved,
    RejectedByVote,
    RejectedInsufficientFunds,
    Completed,
}

/// The voting power cast each way on a proposal.
#[derive(Debug, Clone, Copy, PartialEq, Eq, Default)]
pub struct CommunityVotes {
    pub for_votes: u64,
    pub against_votes: u64,
    pub abstain_votes: u64,
}

/// A vote.
#[derive(Debug, Clone, Copy, PartialEq, Eq, Structural)]
pub enum Vote {
    For,
    Against,
    Abstain,
}

/// The outcome of a proposal's vote.
#[derive(Debug, Clone, Copy, PartialEq, Eq, Structural)]
pub enum FundingDecision {
    Approved { amount: u64 },
    Rejected,
}

/// The treasury's totals.
#[derive(Debug, Clone, Copy, PartialEq, Eq)]
pub struct TreasuryStats {
    pub balance: u64,
    pub active_proposals: usize,
    pub total_grants_awarded: usize,
    pub total_amount_granted: u64,
}

/// The treasury that `initialize` sets up holds one million PAR.
pub const INITIAL_TREASURY_BALANCE: u64 = 100_000_000_000_000;

/// The treasury's cut of minted tokens: one percent, rounded down.
pub open spec fn fee_of(tokens_minted: u64) -> u64 {
    tokens_minted / 100
}

/// The treasury's cut of a contribution's minted tokens.
pub fn treasury_fee(tokens_minted: u64) -> (r: u64)
    ensures
        r == fee_of(tokens_minted),
{
    tokens_minted / 100
}

/// The largest grant a category may receive from a balance: 5% for
/// research, 10% for infrastructure, 2% for community, 20% for security
/// and 4% for innovation (rounded down).
pub open spec fn max_allocation(balance: u64, category: FundingCategory) -> u64 {
    match category {
        FundingCategory::Research => balance / 20,
        FundingCategory::Infrastructure => balance / 10,
        FundingCategory::Community => balance / 50,
        FundingCategory::Security => balance / 5,
        FundingCategory::Innovation => balance / 25,
    }
}

/// The largest grant a category may receive from a balance.
pub fn calculate_max_allocation(balance: u64, category: FundingCategory) -> (r: u64)
    ensures
        r == max_allocation(balance, category),
{
    match category {
        FundingCategory::Research => balance / 20,
        FundingCategory::Infrastructure => balance / 10,
        FundingCategory::Community => balance / 50,
        FundingCategory::Security => balance / 5,
        FundingCategory::Innovation => balance / 25,
    }
}

/// Whether a vote may be cast at `now` on a proposal with this status and
/// deadline: refused when it is not active, then when the deadline is past.
pub open spec fn vote_check(status: ProposalStatus, now: i64, voting_deadline: i64) -> Result<(), TreasuryError> {
    if status != ProposalStatus::Active {
        Err(TreasuryError::ProposalNotActive)
    } else if now > voting_deadline {
        Err(TreasuryError::VotingClosed)
    } else {
        Ok(())
    }
}

/// Whether a vote may be cast at `now` on a proposal with this status and
/// deadline (Unix seconds): it must be active, and the deadline not past.
pub fn check_vote(status: ProposalStatus, now: i64, voting_deadline: i64) -> (r: Result<(), TreasuryError>)
    ensures
        r == vote_check(status, now, voting_deadline),
        status != ProposalStatus::Active ==> r == Err::<(), TreasuryError>(TreasuryError::ProposalNotActive),
        status == ProposalStatus::Active && now > voting_deadline ==> r == Err::<(), TreasuryError>(
            TreasuryError::VotingClosed,
        ),
        status == ProposalStatus::Active && now <= voting_deadline ==> r is Ok,
{
    if status != ProposalStatus::Active {
        return Err(TreasuryError::ProposalNotActive);
    }
    if now > voting_deadline {
        return Err(TreasuryError::VotingClosed);
    }
    Ok(())
}

/// The tally after a vote of some power.
pub open spec fn tallied(v: CommunityVotes, vote: Vote, power: u64) -> CommunityVotes {
    match vote {
        Vote::For => CommunityVotes { for_votes: (v.for_votes + power) as u64, ..v },
        Vote::Against => CommunityVotes { against_votes: (v.against_votes + power) as u64, ..v },
        Vote::Abstain => CommunityVotes { abstain_votes: (v.abstain_votes + power) as u64, ..v },
    }
}

impl CommunityVotes {
    /// The power cast in total.
    pub open spec fn total(self) -> int {
        self.for_votes + self.against_votes + self.abstain_votes
    }

    /// Adds a vote's power to its side of the tally.
    pub fn record_vote(&mut self, vote: Vote, power: u64)
        requires
            match vote {
                Vote::For => old(self).for_votes + power <= u64::MAX,
                Vote::Against => old(self).against_votes + power <= u64::MAX,
                Vote::Abstain => old(self).abstain_votes + power <= u64::MAX,
            },
        ensures
            *final(self) == tallied(*old(self), vote, power),
    {
        match vote {
            Vote::For => self.for_votes = self.for_votes + power,
            Vote::Against => self.against_votes = self.against_votes + power,
            Vote::Abstain => self.abstain_votes = self.abstain_votes + power,
        }
    }
}

/// The decision on a proposal: rejected without votes; otherwise approved
/// for the request capped at the category's allocation, when the combined
/// community and AI score approves and the balance covers it.
pub open spec fn decision_for(
    votes: CommunityVotes,
    score_approves: bool,
    requested: u64,
    category: FundingCategory,
    balance: u64,
) -> FundingDecision {
    let amount = if requested <= max_allocation(balance, category) {
        requested
    } else {
        max_allocation(balance, category)
    };
    if votes.total() == 0 {
        FundingDecision::Rejected
    } else if score_approves && balance >= amount {
        FundingDecision::Approved { amount }
    } else {
        FundingDecision::Rejected
    }
}

/// Decides a proposal. `score_approves` says whether its combined score
/// (70% community approval, 30% AI evaluation) reaches 0.6.
pub fn calculate_funding_decision(
    votes: &CommunityVotes,
    score_approves: bool,
    requested: u64,
    category: FundingCategory,
    balance: u64,
) -> (r: FundingDecision)
    requires
        votes.total() <= u64::MAX,
    ensures
        r == decision_for(*votes, score_approves, requested, category, balance),
{
    let total = votes.for_votes + votes.against_votes + votes.abstain_votes;
    if total == 0 {
        return FundingDecision::Rejected;
    }
    let max = calculate_max_allocation(balance, category);
    let amount = if requested <= max {
        requested
    } else {
        max
    };
    if score_approves && balance >= amount {
        FundingDecision::Approved { amount }
    } else {
        FundingDecision::Rejected
    }
}

/// A decision applied to the balance: an approval the balance covers is
/// paid out; one it does not cover is rejected for lack of funds; a
/// rejection leaves the balance.
pub open spec fn settled(balance: u64, decision: FundingDecision) -> (ProposalStatus, u64) {
    match decision {
        FundingDecision::Approved { amount } => if balance >= amount {
            (ProposalStatus::Approved, (balance - amount) as u64)
        } else {
            (ProposalStatus::RejectedInsufficientFunds, balance)
        },
        FundingDecision::Rejected => (ProposalStatus::RejectedByVote, balance),
    }
}

/// Law: an approved grant never exceeds the request, the category's
/// allocation or the balance.
pub proof fn lemma_grant_within_limits(
    votes: CommunityVotes,
    score_approves: bool,
    requested: u64,
    category: FundingCategory,
    balance: u64,
)
    ensures
        decision_for(votes, score_approves, requested, category, balance) matches FundingDecision::Approved {
            amount,
        } ==> amount <= requested && amount <= max_allocation(balance, category) && amount <= balance,
{
}

/// Law: settling a decision never raises the balance and never takes more
/// than an approved amount; only an approval takes anything.
pub proof fn lemma_settlement_never_overdraws(balance: u64, decision: FundingDecision)
    ensures
        settled(balance, decision).1 <= balance,
        settled(balance, decision).0 == ProposalStatus::Approved <==> (decision matches FundingDecision::Approved {
            amount,
        } && balance >= amount),
        decision matches FundingDecision::Approved { amount } ==> (balance >= amount ==> settled(
            balance,
            decision,
        ).1 == balance - amount),
        !(settled(balance, decision).0 == ProposalStatus::Approved) ==> settled(balance, decision).1 == balance,
{
}

/// Applies a decision to the balance; the proposal's new status and the
/// new balance.
pub fn settle_decision(balance: u64, decision: FundingDecision) -> (r: (ProposalStatus, u64))
    ensures
        r == settled(balance, decision),
{
    match decision {
        FundingDecision::Approved { amount } => if balance >= amount {
            (ProposalStatus::Approved, balance - amount)
        } else {
            (ProposalStatus::RejectedInsufficientFunds, balance)
        },
        FundingDecision::Rejected => (ProposalStatus::RejectedByVote, balance),
    }
}

/// The curator that scores funding proposals.
#[derive(Debug)]
pub struct AICurator {
    pub evaluation_models: Vec<String>,
}

impl AICurator {
    /// A curator with its three evaluation models.
    pub fn new() -> (r: AICurator)
        ensures
            r.evaluation_models@.map_values(|s: String| s@) == seq![
                "impact_prediction"@,
                "feasibility_analysis"@,
                "risk_assessment"@,
            ],
    {
        let mut models: Vec<String> = Vec::new();
        models.push(text("impact_prediction"));
        models.push(text("feasibility_analysis"));
        models.push(text("risk_assessment"));
        proof {
            assert(models@.map_values(|s: String| s@) =~= seq![
                "impact_prediction"@,
                "feasibility_analysis"@,
                "risk_assessment"@,
            ]);
        }
        AICurator { evaluation_models: models }
    }
}


/// How long a proposal stays open for votes: fourteen days, in seconds.
pub const VOTING_PERIOD_SECS: i64 = 1_209_600;

/// A stage of a funded project.
#[derive(Debug)]
pub struct Milestone {
    pub description: String,
    /// Unix time in seconds.
    pub deadline: i64,
}

/// What a proposer asks the treasury for.
#[derive(Debug)]
pub struct FundingProposalRequest {
    pub title: String,
    pub description: String,
    pub requested_amount: u64,
    pub category: FundingCategory,
    pub milestones: Vec<Milestone>,
}

/// A proposal before the treasury.
#[derive(Debug)]
pub struct FundingProposal {
    pub id: u128,
    pub proposer: Address,
    pub title: String,
    pub description: String,
    pub requested_amount: u64,
    pub category: FundingCategory,
    pub milestones: Vec<Milestone>,
    /// Unix time in seconds.
    pub submitted_at: i64,
    /// Unix time in seconds.
    pub voting_deadline: i64,
    pub community_votes: CommunityVotes,
    pub status: ProposalStatus,
}

/// A grant paid out.
#[derive(Debug, Clone, Copy)]
pub struct CompletedGrant {
    pub proposal_id: u128,
    pub amount: u64,
    /// Unix time in seconds.
    pub completed_at: i64,
}

/// The sum of the amounts granted.
pub open spec fn total_granted(s: Seq<CompletedGrant>) -> int
    decreases s.len(),
{
    if s.len() == 0 {
        0
    } else {
        total_granted(s.drop_last()) + s.last().amount
    }
}

/// Each voter's latest ballot on each proposal.
#[derive(Debug)]
pub struct CommunityVoting {
    votes: VecMap<u128, VecMap<Address, (Vote, u64)>>,
}

impl CommunityVoting {
    /// The ballots by proposal and voter.
    pub closed spec fn ballots(self) -> Map<u128, Map<Seq<u8>, (Vote, u64)>> {
        Map::new(|k: u128| self.votes@.contains_key(k), |k: u128| self.votes@[k]@)
    }

    /// The maps are well formed.
    pub closed spec fn wf(self) -> bool {
        &&& self.votes.wf()
        &&& forall|k: u128| #[trigger] self.votes@.contains_key(k) ==> self.votes@[k].wf()
    }

    /// No ballots yet.
    pub fn new() -> (r: CommunityVoting)
        ensures
            r.wf(),
            r.ballots() == Map::<u128, Map<Seq<u8>, (Vote, u64)>>::empty(),
    {
        let r = CommunityVoting { votes: VecMap::new() };
        proof {
            assert(r.ballots() =~= Map::<u128, Map<Seq<u8>, (Vote, u64)>>::empty());
        }
        r
    }

    /// Files a voter's ballot on a proposal, replacing an earlier one.
    pub fn record_vote(&mut self, proposal_id: u128, voter: Address, vote: Vote, voting_power: u64)
        requires
            old(self).wf(),
        ensures
            final(self).wf(),
            final(self).ballots() == old(self).ballots().insert(
                proposal_id,
                (if old(self).ballots().contains_key(proposal_id) {
                    old(self).ballots()[proposal_id]
                } else {
                    Map::<Seq<u8>, (Vote, u64)>::empty()
                }).insert(voter@, (vote, voting_power)),
            ),
    {
        let ghost b0 = self.ballots();
        let mut inner = match self.votes.remove(&proposal_id) {
            Some(m) => m,
            None => VecMap::new(),
        };
        inner.insert(voter, (vote, voting_power));
        self.votes.insert(proposal_id, inner);
        proof {
            assert(self.ballots() =~= b0.insert(
                proposal_id,
                (if b0.contains_key(proposal_id) {
                    b0[proposal_id]
                } else {
                    Map::<Seq<u8>, (Vote, u64)>::empty()
                }).insert(voter@, (vote, voting_power)),
            ));
        }
    }
}

/// The ids of the listed proposals that are active with their deadline
/// before `now`, in list order.
pub open spec fn due_ids(s: Seq<(u128, FundingProposal)>, now: i64) -> Seq<u128>
    decreases s.len(),
{
    if s.len() == 0 {
        Seq::empty()
    } else {
        let rest = due_ids(s.drop_last(), now);
        let e = s.last();
        if e.1.status == ProposalStatus::Active && now > e.1.voting_deadline {
            rest.push(e.0)
        } else {
            rest
        }
    }
}

/// The treasury: its balance, the proposals before it, the grants it paid
/// and the ballots cast.
#[derive(Debug)]
pub struct TreasuryManager {
    balance: u64,
    active_proposals: VecMap<u128, FundingProposal>,
    grant_history: Vec<CompletedGrant>,
    ai_curator: AICurator,
    voting_system: CommunityVoting,
}

impl TreasuryManager {
    /// The balance, in base units.
    pub closed spec fn balance(self) -> u64 {
        self.balance
    }

    /// The names of the curator's evaluation models.
    pub closed spec fn curator_models(self) -> Seq<Seq<char>> {
        self.ai_curator.evaluation_models@.map_values(|s: String| s@)
    }

    /// The proposals by id.
    pub closed spec fn proposals(self) -> Map<u128, FundingProposal> {
        self.active_proposals@
    }

    /// The proposals in the order they were last filed.
    pub closed spec fn proposal_list(self) -> Seq<(u128, FundingProposal)> {
        self.active_proposals.entries()
    }

    /// The grants paid, oldest first.
    pub closed spec fn grants(self) -> Seq<CompletedGrant> {
        self.grant_history@
    }

    /// The ballots cast.
    pub closed spec fn ballots(self) -> Map<u128, Map<Seq<u8>, (Vote, u64)>> {
        self.voting_system.ballots()
    }

    /// The maps are well formed, each proposal is filed under its id, and
    /// the grants paid add up to a 64-bit amount.
    pub closed spec fn wf(self) -> bool {
        &&& self.active_proposals.wf()
        &&& self.voting_system.wf()
        &&& forall|k: u128| #[trigger] self.active_proposals@.contains_key(k) ==> self.active_proposals@[k].id == k
        &&& total_granted(self.grant_history@) <= u64::MAX
    }

    /// An empty treasury.
    pub fn new() -> (r: TreasuryManager)
        ensures
            r.wf(),
            r.balance() == 0,
            r.proposals() == Map::<u128, FundingProposal>::empty(),
            r.grants() == Seq::<CompletedGrant>::empty(),
            r.ballots() == Map::<u128, Map<Seq<u8>, (Vote, u64)>>::empty(),
            r.curator_models() == seq!["impact_prediction"@, "feasibility_analysis"@, "risk_assessment"@],
    {
        TreasuryManager {
            balance: 0,
            active_proposals: VecMap::new(),
            grant_history: Vec::new(),
            ai_curator: AICurator::new(),
            voting_system: CommunityVoting::new(),
        }
    }

    /// Endows the treasury with its initial one million PAR.
    pub fn initialize(&mut self)
        requires
            old(self).wf(),
        ensures
            final(self).wf(),
            final(self).balance() == INITIAL_TREASURY_BALANCE,
            final(self).proposals() == old(self).proposals(),
            final(self).grants() == old(self).grants(),
            final(self).ballots() == old(self).ballots(),
    {
        self.balance = INITIAL_TREASURY_BALANCE;
    }

    /// Collects the treasury's cut of tokens minted for a contribution.
    pub fn record_contribution(&mut self, contributor: &Address, tokens_minted: u64)
        requires
            old(self).wf(),
            old(self).balance() + fee_of(tokens_minted) <= u64::MAX,
        ensures
            final(self).wf(),
            final(self).balance() == old(self).balance() + fee_of(tokens_minted),
            final(self).proposals() == old(self).proposals(),
            final(self).grants() == old(self).grants(),
            final(self).ballots() == old(self).ballots(),
    {
        self.balance = self.balance + treasury_fee(tokens_minted);
    }

    /// Files a proposal submitted at `now` (Unix seconds) under a fresh id,
    /// under review, with no votes and a deadline fourteen days on; hands
    /// back the id.
    pub fn submit_funding_proposal_at(&mut self, proposer: Address, proposal: FundingProposalRequest, now: i64) -> (r:
        u128)
        requires
            old(self).wf(),
            now <= i64::MAX - VOTING_PERIOD_SECS,
        ensures
            final(self).wf(),
            final(self).proposals().contains_key(r),
            ({
                let p = final(self).proposals()[r];
                &&& p.id == r
                &&& p.proposer == proposer
                &&& p.title == proposal.title
                &&& p.description == proposal.description
                &&& p.requested_amount == proposal.requested_amount
                &&& p.category == proposal.category
                &&& p.milestones == proposal.milestones
                &&& p.submitted_at == now
                &&& p.voting_deadline == now + VOTING_PERIOD_SECS
                &&& p.community_votes == (CommunityVotes { for_votes: 0, against_votes: 0, abstain_votes: 0 })
                &&& p.status == ProposalStatus::UnderReview
            }),
            final(self).proposals() == old(self).proposals().insert(r, final(self).proposals()[r]),
            final(self).balance() == old(self).balance(),
            final(self).grants() == old(self).grants(),
            final(self).ballots() == old(self).ballots(),
    {
        let id = new_uuid();
        let FundingProposalRequest { title, description, requested_amount, category, milestones } = proposal;
        let p = FundingProposal {
            id,
            proposer,
            title,
            description,
            requested_amount,
            category,
            milestones,
            submitted_at: now,
            voting_deadline: now + VOTING_PERIOD_SECS,
            community_votes: CommunityVotes { for_votes: 0, against_votes: 0, abstain_votes: 0 },
            status: ProposalStatus::UnderReview,
        };
        self.active_proposals.insert(id, p);
        id
    }

    /// Files a proposal submitted now, by the clock; a clock reading too
    /// late for its deadline to fit is taken as the latest that fits.
    pub fn submit_funding_proposal(&mut self, proposer: Address, proposal: FundingProposalRequest) -> (r: u128)
        requires
            old(self).wf(),
        ensures
            final(self).wf(),
            final(self).proposals().contains_key(r),
            final(self).proposals()[r].status == ProposalStatus::UnderReview,
            final(self).proposals()[r].requested_amount == proposal.requested_amount,
            final(self).proposals() == old(self).proposals().insert(r, final(self).proposals()[r]),
            final(self).balance() == old(self).balance(),
            final(self).grants() == old(self).grants(),
            final(self).ballots() == old(self).ballots(),
    {
        let clock = now_unix_seconds();
        let now = if clock > i64::MAX - VOTING_PERIOD_SECS {
            i64::MAX - VOTING_PERIOD_SECS
        } else {
            clock
        };
        self.submit_funding_proposal_at(proposer, proposal, now)
    }

    /// Casts a vote of some power on a proposal at `now`: refused when no
    /// proposal has the id, when it is not active, or when its deadline
    /// has passed; otherwise the power joins its side of the tally and the
    /// voter's ballot is filed.
    pub fn vote_on_proposal_at(&mut self, proposal_id: u128, voter: Address, vote: Vote, voting_power: u64, now: i64) -> (r:
        Result<(), TreasuryError>)
        requires
            old(self).wf(),
            old(self).proposals().contains_key(proposal_id) && old(self).proposals()[proposal_id].status
                == ProposalStatus::Active ==> match vote {
                Vote::For => old(self).proposals()[proposal_id].community_votes.for_votes + voting_power <= u64::MAX,
                Vote::Against => old(self).proposals()[proposal_id].community_votes.against_votes + voting_power
                    <= u64::MAX,
                Vote::Abstain => old(self).proposals()[proposal_id].community_votes.abstain_votes + voting_power
                    <= u64::MAX,
            },
        ensures
            final(self).wf(),
            !old(self).proposals().contains_key(proposal_id) ==> r == Err::<(), TreasuryError>(
                TreasuryError::ProposalNotFound,
            ),
            old(self).proposals().contains_key(proposal_id) ==> r == vote_check(
                old(self).proposals()[proposal_id].status,
                now,
                old(self).proposals()[proposal_id].voting_deadline,
            ),
            r is Err ==> final(self).proposals() == old(self).proposals() && final(self).ballots() == old(
                self,
            ).ballots(),
            r is Ok ==> final(self).proposals() == old(self).proposals().insert(
                proposal_id,
                FundingProposal {
                    community_votes: tallied(old(self).proposals()[proposal_id].community_votes, vote, voting_power),
                    ..old(self).proposals()[proposal_id]
                },
            ) && final(self).ballots() == old(self).ballots().insert(
                proposal_id,
                (if old(self).ballots().contains_key(proposal_id) {
                    old(self).ballots()[proposal_id]
                } else {
                    Map::<Seq<u8>, (Vote, u64)>::empty()
                }).insert(voter@, (vote, voting_power)),
            ),
            final(self).balance() == old(self).balance(),
            final(self).grants() == old(self).grants(),
    {
        let (status, deadline) = match self.active_proposals.get(&proposal_id) {
            Some(p) => (p.status, p.voting_deadline),
            None => {
                return Err(TreasuryError::ProposalNotFound);
            },
        };
        match check_vote(status, now, deadline) {
            Err(e) => {
                return Err(e);
            },
            Ok(()) => {},
        }
        let ghost p0 = self.active_proposals@;
        self.voting_system.record_vote(proposal_id, voter, vote, voting_power);
        let mut p = match self.active_proposals.remove(&proposal_id) {
            Some(p) => p,
            None => {
                return Ok(());
            },
        };
        p.community_votes.record_vote(vote, voting_power);
        self.active_proposals.insert(proposal_id, p);
        proof {
            assert(self.active_proposals@ =~= p0.insert(
                proposal_id,
                FundingProposal { community_votes: tallied(p0[proposal_id].community_votes, vote, voting_power), ..p0[proposal_id] },
            ));
        }
        Ok(())
    }

    /// Casts a vote now, by the clock.
    pub fn vote_on_proposal(&mut self, proposal_id: u128, voter: Address, vote: Vote, voting_power: u64) -> (r:
        Result<(), TreasuryError>)
        requires
            old(self).wf(),
            old(self).proposals().contains_key(proposal_id) && old(self).proposals()[proposal_id].status
                == ProposalStatus::Active ==> match vote {
                Vote::For => old(self).proposals()[proposal_id].community_votes.for_votes + voting_power <= u64::MAX,
                Vote::Against => old(self).proposals()[proposal_id].community_votes.against_votes + voting_power
                    <= u64::MAX,
                Vote::Abstain => old(self).proposals()[proposal_id].community_votes.abstain_votes + voting_power
                    <= u64::MAX,
            },
        ensures
            final(self).wf(),
            !old(self).proposals().contains_key(proposal_id) ==> r == Err::<(), TreasuryError>(
                TreasuryError::ProposalNotFound,
            ),
            old(self).proposals().contains_key(proposal_id) && old(self).proposals()[proposal_id].status
                != ProposalStatus::Active ==> r == Err::<(), TreasuryError>(TreasuryError::ProposalNotActive),
            r is Err ==> final(self).proposals() == old(self).proposals(),
            r is Ok ==> final(self).proposals() == old(self).proposals().insert(
                proposal_id,
                FundingProposal {
                    community_votes: tallied(old(self).proposals()[proposal_id].community_votes, vote, voting_power),
                    ..old(self).proposals()[proposal_id]
                },
            ),
            final(self).balance() == old(self).balance(),
            final(self).grants() == old(self).grants(),
    {
        self.vote_on_proposal_at(proposal_id, voter, vote, voting_power, now_unix_seconds())
    }

    /// The ids of the active proposals whose deadline lies before `now`,
    /// in the order the proposals are listed.
    pub fn due_proposals_at(&self, now: i64) -> (r: Vec<u128>)
        requires
            self.wf(),
        ensures
            r@ == due_ids(self.proposal_list(), now),
    {
        let ghost list = self.proposal_list();
        let mut r: Vec<u128> = Vec::new();
        let n = self.active_proposals.len();
        let mut i: usize = 0;
        while i < n
            invariant
                n == list.len(),
                list == self.proposal_list(),
                i <= n,
                r@ == due_ids(list.take(i as int), now),
            decreases n - i,
        {
            let (k, p) = self.active_proposals.entry_at(i);
            proof {
                assert(list.take(i as int + 1).drop_last() =~= list.take(i as int));
            }
            if p.status == ProposalStatus::Active && now > p.voting_deadline {
                r.push(*k);
            }
            i = i + 1;
        }
        proof {
            assert(list.take(n as int) =~= list);
        }
        r
    }

    /// Decides a proposal and applies the decision to the balance: the
    /// decision and the proposal's new status follow `decision_for` and
    /// `settled`. `score_approves` says whether the proposal's combined
    /// score (70% community approval, 30% AI evaluation) reaches 0.6.
    /// Nothing happens when no proposal has the id.
    pub fn decide_proposal(&mut self, proposal_id: u128, score_approves: bool) -> (r: Option<FundingDecision>)
        requires
            old(self).wf(),
            old(self).proposals().contains_key(proposal_id) ==> old(self).proposals()[proposal_id].community_votes.total()
                <= u64::MAX,
        ensures
            final(self).wf(),
            !old(self).proposals().contains_key(proposal_id) ==> r is None && final(self).proposals() == old(
                self,
            ).proposals() && final(self).balance() == old(self).balance(),
            old(self).proposals().contains_key(proposal_id) ==> {
                let p = old(self).proposals()[proposal_id];
                let d = decision_for(p.community_votes, score_approves, p.requested_amount, p.category, old(self).balance());
                &&& r == Some(d)
                &&& final(self).proposals() == old(self).proposals().insert(
                    proposal_id,
                    FundingProposal { status: settled(old(self).balance(), d).0, ..p },
                )
                &&& final(self).balance() == settled(old(self).balance(), d).1
            },
            final(self).grants() == old(self).grants(),
            final(self).ballots() == old(self).ballots(),
    {
        let ghost p0 = self.active_proposals@;
        let mut p = match self.active_proposals.remove(&proposal_id) {
            Some(p) => p,
            None => {
                return None;
            },
        };
        let decision = calculate_funding_decision(
            &p.community_votes,
            score_approves,
            p.requested_amount,
            p.category,
            self.balance,
        );
        let (status, balance) = settle_decision(self.balance, decision);
        p.status = status;
        self.balance = balance;
        self.active_proposals.insert(proposal_id, p);
        proof {
            assert(self.active_proposals@ =~= p0.insert(proposal_id, FundingProposal { status, ..p0[proposal_id] }));
        }
        Some(decision)
    }

    /// The proposal with an id, if any.
    pub fn get_proposal(&self, proposal_id: u128) -> (r: Option<&FundingProposal>)
        requires
            self.wf(),
        ensures
            match r {
                Some(p) => self.proposals().contains_key(proposal_id) && *p == self.proposals()[proposal_id],
                None => !self.proposals().contains_key(proposal_id),
            },
    {
        self.active_proposals.get(&proposal_id)
    }

    /// The balance, the number of proposals, and the number and total of
    /// grants paid.
    pub fn get_treasury_stats(&self) -> (r: TreasuryStats)
        requires
            self.wf(),
        ensures
            r.balance == self.balance(),
            r.active_proposals == self.proposals().dom().len(),
            r.total_grants_awarded == self.grants().len(),
            r.total_amount_granted == total_granted(self.grants()),
    {
        let n = self.grant_history.len();
        let mut total: u64 = 0;
        let mut i: usize = 0;
        while i < n
            invariant
                n == self.grant_history@.len(),
                self.wf(),
                i <= n,
                total == total_granted(self.grant_history@.take(i as int)),
            decreases n - i,
        {
            proof {
                let t = self.grant_history@.take(i as int + 1);
                assert(t.drop_last() =~= self.grant_history@.take(i as int));
                lemma_granted_prefix(self.grant_history@, i as int + 1);
            }
            total = total + self.grant_history[i].amount;
            i = i + 1;
        }
        proof {
            assert(self.grant_history@.take(n as int) =~= self.grant_history@);
        }
        TreasuryStats {
            balance: self.balance,
            active_proposals: self.active_proposals.len(),
            total_grants_awarded: n,
            total_amount_granted: total,
        }
    }

    /// Every proposal, in the order they were last filed.
    pub fn get_active_proposals(&self) -> (r: Vec<&FundingProposal>)
        requires
            self.wf(),
        ensures
            r@.len() == self.proposal_list().len(),
            forall|i: int| 0 <= i < r@.len() ==> *#[trigger] r@[i] == self.proposal_list()[i].1,
    {
        let mut r: Vec<&FundingProposal> = Vec::new();
        let n = self.active_proposals.len();
        let mut i: usize = 0;
        while i < n
            invariant
                n == self.proposal_list().len(),
                i <= n,
                r@.len() == i,
                forall|j: int| 0 <= j < i ==> *#[trigger] r@[j] == self.proposal_list()[j].1,
            decreases n - i,
        {
            let (_, p) = self.active_proposals.entry_at(i);
            r.push(p);
            i = i + 1;
        }
        r
    }

    /// Sets the balance (at genesis).
    pub fn set_balance(&mut self, balance: u64)
        requires
            old(self).wf(),
        ensures
            final(self).wf(),
            final(self).balance() == balance,
            final(self).proposals() == old(self).proposals(),
            final(self).grants() == old(self).grants(),
            final(self).ballots() == old(self).ballots(),
    {
        self.balance = balance;
    }
}

proof fn lemma_granted_prefix(s: Seq<CompletedGrant>, k: int)
    requires
        0 <= k <= s.len(),
    ensures
        0 <= total_granted(s.take(k)) <= total_granted(s),
{
    lemma_granted_nonneg(s.take(k));
    lemma_granted_prefix_aux(s, k);
}

proof fn lemma_granted_nonneg(s: Seq<CompletedGrant>)
    ensures
        total_granted(s) >= 0,
    decreases s.len(),
{
    if s.len() > 0 {
        lemma_granted_nonneg(s.drop_last());
    }
}

proof fn lemma_granted_prefix_aux(s: Seq<CompletedGrant>, k: int)
    requires
        0 <= k <= s.len(),
    ensures
        total_granted(s.take(k)) <= total_granted(s),
    decreases s.len(),
{
    if k < s.len() {
        assert(s.drop_last().take(k) =~= s.take(k));
        lemma_granted_prefix_aux(s.drop_last(), k);
    } else {
        assert(s.take(k) =~= s);
    }
}

} // verus!
