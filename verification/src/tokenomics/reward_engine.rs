//! The reward engine's integer bookkeeping: the base rate of each kind of
//! contribution, the base reward for a piece of work, and the bounded
//! history of rewards paid with its statistics.
use vstd::prelude::*;
use crate::sys::now_unix_seconds;
use crate::tokenomics::ContributionType;

verus! {

/// Base reward units paid per compute unit.
pub const UNITS_PER_COMPUTE_UNIT: u64 = 1000;

/// The cap on a base reward: 10 PAR.
pub const MAX_BASE_REWARD: u64 = 1_000_000_000;

/// The largest reward one contribution can earn: 1000 PAR. The base reward
/// is capped at 10 PAR and its multipliers together come to at most 32.4.
pub const MAX_REWARD: u64 = 100_000_000_000;

/// The most records the history keeps.
pub const MAX_REWARD_HISTORY: usize = 10000;

/// How many of the oldest records are dropped when the history overflows.
pub const REWARD_HISTORY_TRIM: usize = 1000;

/// The base rate of each kind of contribution the engine knows, in the
/// smallest PAR units (a PAR is 100 000 000 of them).
pub open spec fn initial_base_rates() -> Seq<(ContributionType, u64)> {
    seq![
        (ContributionType::MLTraining, 100_000_000u64),
        (ContributionType::InferenceServing, 50_000_000u64),
        (ContributionType::DataValidation, 25_000_000u64),
        (ContributionType::ModelOptimization, 150_000_000u64),
        (ContributionType::NetworkMaintenance, 75_000_000u64),
        (ContributionType::GovernanceParticipation, 10_000_000u64),
        (ContributionType::CrossPlatformCompute, 200_000_000u64),
        (ContributionType::StorageProvision, 30_000_000u64),
        (ContributionType::GenerativeMedia, 80_000_000u64),
        (ContributionType::SymbolicMath, 120_000_000u64),
    ]
}

/// The base reward for work of `compute_units`: a thousand units per
/// compute unit, capped at 10 PAR.
pub open spec fn base_reward(compute_units: u64) -> int {
    let raw = compute_units * UNITS_PER_COMPUTE_UNIT;
    if raw < MAX_BASE_REWARD {
        raw
    } else {
        MAX_BASE_REWARD as int
    }
}

/// One reward paid.
#[derive(Debug, Clone, Copy)]
pub struct RewardRecord {
    /// Unix time in seconds.
    pub timestamp: i64,
    pub compute_units: u64,
    pub final_reward: u64,
}

/// The sum of the rewards in a history.
pub open spec fn total_rewards(s: Seq<RewardRecord>) -> int
    decreases s.len(),
{
    if s.len() == 0 {
        0
    } else {
        total_rewards(s.drop_last()) + s.last().final_reward
    }
}

/// The history after one more record: the record appended, then, when the
/// history has grown past its limit, its oldest thousand records dropped.
pub open spec fn history_after(s: Seq<RewardRecord>, r: RewardRecord) -> Seq<RewardRecord> {
    let grown = s.push(r);
    if grown.len() > MAX_REWARD_HISTORY {
        grown.skip(REWARD_HISTORY_TRIM as int)
    } else {
        grown
    }
}

/// Statistics over the rewards in the history.
#[derive(Debug, Clone, Copy, PartialEq, Eq, Structural)]
pub struct RewardStats {
    pub total_rewards_distributed: u64,
    /// The mean reward, rounded down.
    pub average_reward: u64,
    pub total_contributions: usize,
}

/// Pays for contributions: base rates and the history of rewards.
#[derive(Debug)]
pub struct RewardEngine {
    base_rates: Vec<(ContributionType, u64)>,
    reward_history: Vec<RewardRecord>,
}

proof fn lemma_total_bounded(s: Seq<RewardRecord>)
    requires
        forall|i: int| 0 <= i < s.len() ==> #[trigger] s[i].final_reward <= MAX_REWARD,
    ensures
        0 <= total_rewards(s) <= s.len() * MAX_REWARD,
    decreases s.len(),
{
    if s.len() > 0 {
        let p = s.drop_last();
        assert forall|i: int| 0 <= i < p.len() implies #[trigger] p[i].final_reward <= MAX_REWARD by {
            assert(p[i] == s[i]);
        }
        lemma_total_bounded(p);
        assert(s[s.len() - 1].final_reward <= MAX_REWARD);
    }
}

proof fn lemma_total_push(s: Seq<RewardRecord>, r: RewardRecord)
    ensures
        total_rewards(s.push(r)) == total_rewards(s) + r.final_reward,
{
    assert(s.push(r).drop_last() =~= s);
}

/// Recording a reward while the history is below its limit adds one
/// contribution and adds the reward to the total paid.
pub proof fn lemma_record_adds_to_total(s: Seq<RewardRecord>, r: RewardRecord)
    requires
        s.len() < MAX_REWARD_HISTORY,
    ensures
        history_after(s, r).len() == s.len() + 1,
        total_rewards(history_after(s, r)) == total_rewards(s) + r.final_reward,
{
    lemma_total_push(s, r);
}

impl RewardEngine {
    /// The base rates the engine pays by.
    pub closed spec fn base_rates(&self) -> Seq<(ContributionType, u64)> {
        self.base_rates@
    }

    /// The rewards paid, oldest first.
    pub closed spec fn history(&self) -> Seq<RewardRecord> {
        self.reward_history@
    }

    /// The history stays within its limit and each reward within the most
    /// one contribution can earn.
    pub closed spec fn wf(&self) -> bool {
        &&& self.reward_history@.len() <= MAX_REWARD_HISTORY
        &&& forall|i: int|
            0 <= i < self.reward_history@.len() ==> #[trigger] self.reward_history@[i].final_reward
                <= MAX_REWARD
    }

    /// An engine with the standard base rates and no reward paid yet.
    pub fn new() -> (r: RewardEngine)
        ensures
            r.wf(),
            r.base_rates() == initial_base_rates(),
            r.history() == Seq::<RewardRecord>::empty(),
    {
        let mut base_rates: Vec<(ContributionType, u64)> = Vec::new();
        base_rates.push((ContributionType::MLTraining, 100_000_000));
        base_rates.push((ContributionType::InferenceServing, 50_000_000));
        base_rates.push((ContributionType::DataValidation, 25_000_000));
        base_rates.push((ContributionType::ModelOptimization, 150_000_000));
        base_rates.push((ContributionType::NetworkMaintenance, 75_000_000));
        base_rates.push((ContributionType::GovernanceParticipation, 10_000_000));
        base_rates.push((ContributionType::CrossPlatformCompute, 200_000_000));
        base_rates.push((ContributionType::StorageProvision, 30_000_000));
        base_rates.push((ContributionType::GenerativeMedia, 80_000_000));
        base_rates.push((ContributionType::SymbolicMath, 120_000_000));
        proof {
            assert(base_rates@ =~= initial_base_rates());
        }
        RewardEngine { base_rates, reward_history: Vec::new() }
    }

    /// The base reward for work of `compute_units`. The product must fit
    /// in 64 bits.
    pub fn calculate_base_reward(&self, compute_units: u64) -> (r: u64)
        requires
            compute_units * UNITS_PER_COMPUTE_UNIT <= u64::MAX,
        ensures
            r == base_reward(compute_units),
            r <= MAX_BASE_REWARD,
    {
        let raw = compute_units * UNITS_PER_COMPUTE_UNIT;
        if raw < MAX_BASE_REWARD {
            raw
        } else {
            MAX_BASE_REWARD
        }
    }

    /// Records a reward paid for work of `compute_units`, stamped with the
    /// current time; once the history holds more than ten thousand records
    /// its oldest thousand are dropped.
    pub fn record_reward(&mut self, compute_units: u64, final_reward: u64)
        requires
            old(self).wf(),
            final_reward <= MAX_REWARD,
        ensures
            final(self).wf(),
            final(self).base_rates() == old(self).base_rates(),
            exists|timestamp: i64|
                final(self).history() == #[trigger] history_after(
                    old(self).history(),
                    (RewardRecord { timestamp, compute_units, final_reward }),
                ),
    {
        let record = RewardRecord { timestamp: now_unix_seconds(), compute_units, final_reward };
        let ghost grown = self.reward_history@.push(record);
        self.reward_history.push(record);
        assert(self.reward_history@ == grown);
        if self.reward_history.len() > MAX_REWARD_HISTORY {
            let n = self.reward_history.len();
            let mut kept: Vec<RewardRecord> = Vec::new();
            let mut i: usize = REWARD_HISTORY_TRIM;
            while i < n
                invariant
                    n == grown.len(),
                    n > MAX_REWARD_HISTORY,
                    self.reward_history@ == grown,
                    REWARD_HISTORY_TRIM <= i <= n,
                    kept@ == grown.subrange(REWARD_HISTORY_TRIM as int, i as int),
                decreases n - i,
            {
                kept.push(self.reward_history[i]);
                i = i + 1;
                proof {
                    assert(kept@ =~= grown.subrange(REWARD_HISTORY_TRIM as int, i as int));
                }
            }
            self.reward_history = kept;
            proof {
                assert(self.reward_history@ =~= grown.skip(REWARD_HISTORY_TRIM as int));
            }
        }
        proof {
            assert(self.reward_history@ == history_after(old(self).history(), record));
            assert forall|i: int| 0 <= i < self.reward_history@.len() implies #[trigger] self.reward_history@[i].final_reward
                <= MAX_REWARD by {
                if grown.len() > MAX_REWARD_HISTORY {
                    assert(self.reward_history@[i] == grown[i + REWARD_HISTORY_TRIM]);
                } else {
                    assert(self.reward_history@[i] == grown[i]);
                }
            }
        }
    }

    /// The total, mean (rounded down) and count of the rewards in the
    /// history; all zero when it is empty.
    pub fn get_reward_stats(&self) -> (r: RewardStats)
        requires
            self.wf(),
        ensures
            r.total_contributions == self.history().len(),
            r.total_rewards_distributed == total_rewards(self.history()),
            self.history().len() == 0 ==> r.average_reward == 0,
            self.history().len() > 0 ==> r.average_reward == total_rewards(self.history())
                / (self.history().len() as int),
    {
        let n = self.reward_history.len();
        if n == 0 {
            return RewardStats { total_rewards_distributed: 0, average_reward: 0, total_contributions: 0 };
        }
        let mut total: u64 = 0;
        let mut i: usize = 0;
        while i < n
            invariant
                n == self.reward_history@.len(),
                self.wf(),
                i <= n,
                total == total_rewards(self.reward_history@.take(i as int)),
            decreases n - i,
        {
            proof {
                let t = self.reward_history@.take(i as int + 1);
                assert(t =~= self.reward_history@.take(i as int).push(self.reward_history@[i as int]));
                lemma_total_push(self.reward_history@.take(i as int), self.reward_history@[i as int]);
                assert forall|j: int| 0 <= j < t.len() implies #[trigger] t[j].final_reward <= MAX_REWARD by {
                    assert(t[j] == self.reward_history@[j]);
                }
                lemma_total_bounded(t);
                assert(t.len() * MAX_REWARD <= MAX_REWARD_HISTORY * MAX_REWARD) by (nonlinear_arith)
                    requires
                        t.len() <= MAX_REWARD_HISTORY,
                ;
            }
            total = total + self.reward_history[i].final_reward;
            i = i + 1;
        }
        proof {
            assert(self.reward_history@.take(n as int) =~= self.reward_history@);
        }
        RewardStats { total_rewards_distributed: total, average_reward: total / (n as u64), total_contributions: n }
    }
}

} // verus!
