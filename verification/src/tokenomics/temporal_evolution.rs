//! Temporal token evolution: the stages a holding passes through, the
//! kinds of temporal staking, and the engines that evolve, decay and age
//! tokens.
use vstd::prelude::*;
use crate::address::Address;
use crate::sys::{new_uuid, now_unix_seconds};
use crate::vecmap::VecMap;

verus! {

/// The stage of a holding's life.
#[derive(Debug, Clone, Copy, PartialEq, Eq, Structural)]
pub enum EvolutionStage {
    Genesis,
    Growth,
    Maturity,
    Decline,
    Rebirth,
}

/// How long tokens are staked: 30, 90, 365 days, or 180 with evolution bonuses.
#[derive(Debug, Clone, Copy, PartialEq, Eq, Structural)]
pub enum TemporalStakingType {
    ShortTerm,
    MediumTerm,
    LongTerm,
    Evolution,
}

/// Where a stake stands.
#[derive(Debug, Clone, Copy, PartialEq, Eq, Structural)]
pub enum StakingStatus {
    Active,
    Matured,
    Unstaked,
    Penalized,
}

/// The rules tokens evolve by.
#[derive(Debug)]
pub struct EvolutionRules {}

/// The models that predict how tokens will evolve.
#[derive(Debug)]
pub struct PredictionModels {}

/// The rules of temporal staking.
#[derive(Debug)]
pub struct StakingRules {}

/// The parameters of adaptive decay.
#[derive(Debug)]
pub struct DecayParameters {}

/// The models of how a token's utility evolves.
#[derive(Debug)]
pub struct UtilityModels {}

/// The rules of a token's passage between stages.
#[derive(Debug)]
pub struct LifecycleRules {}

impl PredictionModels {
    /// The models.
    pub fn new() -> (r: PredictionModels) {
        PredictionModels {}
    }
}

impl UtilityModels {
    /// The models.
    pub fn new() -> (r: UtilityModels) {
        UtilityModels {}
    }
}

/// Evolves tokens by its rules and predictions.
#[derive(Debug)]
pub struct EvolutionEngine {
    pub evolution_rules: EvolutionRules,
    pub prediction_models: PredictionModels,
}

impl EvolutionEngine {
    /// The engine with the default rules.
    pub fn new() -> (r: EvolutionEngine) {
        EvolutionEngine { evolution_rules: EvolutionRules {}, prediction_models: PredictionModels::new() }
    }
}

/// Decays idle tokens by its parameters.
#[derive(Debug)]
pub struct AdaptiveDecayMechanism {
    pub decay_parameters: DecayParameters,
}

impl AdaptiveDecayMechanism {
    /// The mechanism with the default parameters.
    pub fn new() -> (r: AdaptiveDecayMechanism) {
        AdaptiveDecayMechanism { decay_parameters: DecayParameters {} }
    }
}

/// Evolves what tokens are good for.
#[derive(Debug)]
pub struct TokenUtilityEvolution {
    pub utility_models: UtilityModels,
}

impl TokenUtilityEvolution {
    /// The evolution with its models.
    pub fn new() -> (r: TokenUtilityEvolution) {
        TokenUtilityEvolution { utility_models: UtilityModels::new() }
    }
}

/// Moves tokens between the stages of their life.
#[derive(Debug)]
pub struct TokenLifecycleManager {
    pub lifecycle_rules: LifecycleRules,
}

impl TokenLifecycleManager {
    /// The manager with the default rules.
    pub fn new() -> (r: TokenLifecycleManager) {
        TokenLifecycleManager { lifecycle_rules: LifecycleRules {} }
    }
}

/// Seconds in a day.
pub const SECONDS_PER_DAY: i64 = 86_400;

/// The longest staking period, in seconds: a year.
pub const MAX_STAKING_SECS: i64 = 31_536_000;

/// How many days a kind of stake is locked for.
pub open spec fn staking_days(t: TemporalStakingType) -> int {
    match t {
        TemporalStakingType::ShortTerm => 30,
        TemporalStakingType::MediumTerm => 90,
        TemporalStakingType::LongTerm => 365,
        TemporalStakingType::Evolution => 180,
    }
}

/// How many days a kind of stake is locked for.
pub fn get_staking_duration_days(staking_type: TemporalStakingType) -> (r: i64)
    ensures
        r == staking_days(staking_type),
{
    match staking_type {
        TemporalStakingType::ShortTerm => 30,
        TemporalStakingType::MediumTerm => 90,
        TemporalStakingType::LongTerm => 365,
        TemporalStakingType::Evolution => 180,
    }
}

/// Tokens staked for a while.
#[derive(Debug, Clone, Copy, PartialEq, Eq)]
pub struct TemporalStake {
    pub id: u128,
    pub staker: Address,
    pub amount: u64,
    pub staking_type: TemporalStakingType,
    /// Unix seconds.
    pub staked_at: i64,
    /// Unix seconds: the end of the lock.
    pub maturity_date: i64,
    pub accumulated_rewards: u64,
    pub status: StakingStatus,
}

/// A stake taken back: the stake as it ends, the penalty for taking it
/// back before it matured, and what is returned.
#[derive(Debug, Clone, Copy)]
pub struct Unstaked {
    pub stake: TemporalStake,
    pub penalty_amount: u64,
    pub final_amount: u64,
    /// Unix seconds.
    pub unstaked_at: i64,
}

/// Why an unstake was refused.
#[derive(Debug, Clone, Copy, PartialEq, Eq)]
pub enum StakingError {
    /// The address has no stake with that id.
    StakeNotFound,
}

/// The penalty for taking a stake back at `now`: a tenth of it before it
/// matures, nothing after.
pub open spec fn early_penalty(stake: TemporalStake, now: i64) -> u64 {
    if now < stake.maturity_date {
        stake.amount / 10
    } else {
        0
    }
}

/// Position `i` holds the first stake in `s` with the id.
pub open spec fn first_with_id(s: Seq<TemporalStake>, id: u128, i: int) -> bool {
    &&& 0 <= i < s.len()
    &&& s[i].id == id
    &&& forall|j: int| 0 <= j < i ==> s[j].id != id
}

/// The amount in the stakes that are still active.
pub open spec fn active_total(s: Seq<TemporalStake>) -> int
    decreases s.len(),
{
    if s.len() == 0 {
        0
    } else {
        active_total(s.drop_last()) + if s.last().status == StakingStatus::Active {
            s.last().amount as int
        } else {
            0
        }
    }
}

/// How many of the stakes are still active.
pub open spec fn active_count(s: Seq<TemporalStake>) -> int
    decreases s.len(),
{
    if s.len() == 0 {
        0
    } else {
        active_count(s.drop_last()) + if s.last().status == StakingStatus::Active {
            1int
        } else {
            0
        }
    }
}

/// The stakes of each address, in the order they were made.
#[derive(Debug)]
pub struct TemporalStakingSystem {
    stakes: VecMap<Address, Vec<TemporalStake>>,
    staking_rules: StakingRules,
}

impl TemporalStakingSystem {
    /// The map of stakes is well formed.
    pub closed spec fn wf(self) -> bool {
        self.stakes.wf()
    }

    /// The stakes of an address, oldest first.
    pub closed spec fn stakes_of(self, a: Seq<u8>) -> Seq<TemporalStake> {
        if self.stakes@.contains_key(a) {
            self.stakes@[a]@
        } else {
            Seq::empty()
        }
    }

    /// No stakes yet.
    pub fn new() -> (r: TemporalStakingSystem)
        ensures
            r.wf(),
            forall|a: Seq<u8>| #[trigger] r.stakes_of(a) == Seq::<TemporalStake>::empty(),
    {
        TemporalStakingSystem { stakes: VecMap::new(), staking_rules: StakingRules {} }
    }

    /// Stakes `amount` of an address's tokens at `now` under an id: the
    /// stake is active, locked until its period has run, and joins the
    /// end of the address's stakes.
    pub fn stake_tokens_at(
        &mut self,
        address: Address,
        amount: u64,
        staking_type: TemporalStakingType,
        id: u128,
        now: i64,
    ) -> (r: TemporalStake)
        requires
            old(self).wf(),
            now <= i64::MAX - MAX_STAKING_SECS,
        ensures
            final(self).wf(),
            r == (TemporalStake {
                id,
                staker: address,
                amount,
                staking_type,
                staked_at: now,
                maturity_date: (now + staking_days(staking_type) * SECONDS_PER_DAY) as i64,
                accumulated_rewards: 0,
                status: StakingStatus::Active,
            }),
            final(self).stakes_of(address@) == old(self).stakes_of(address@).push(r),
            forall|b: Seq<u8>| b != address@ ==> #[trigger] final(self).stakes_of(b) == old(self).stakes_of(b),
    {
        let days = get_staking_duration_days(staking_type);
        let stake = TemporalStake {
            id,
            staker: address,
            amount,
            staking_type,
            staked_at: now,
            maturity_date: now + days * SECONDS_PER_DAY,
            accumulated_rewards: 0,
            status: StakingStatus::Active,
        };
        let mut list: Vec<TemporalStake> = Vec::new();
        match self.stakes.get(&address) {
            Some(v) => {
                let n = v.len();
                let mut i: usize = 0;
                while i < n
                    invariant
                        n == v@.len(),
                        i <= n,
                        list@ == v@.take(i as int),
                    decreases n - i,
                {
                    list.push(v[i]);
                    i = i + 1;
                    proof {
                        assert(list@ =~= v@.take(i as int));
                    }
                }
                proof {
                    assert(v@.take(n as int) =~= v@);
                }
            },
            None => {},
        }
        list.push(stake);
        self.stakes.insert(address, list);
        stake
    }

    /// Stakes `amount` now, by the clock, under a fresh id; a clock
    /// reading too late for the lock's end to fit is taken as the latest
    /// that fits.
    pub fn stake_tokens(&mut self, address: Address, amount: u64, staking_type: TemporalStakingType) -> (r:
        TemporalStake)
        requires
            old(self).wf(),
        ensures
            final(self).wf(),
            r.staker == address,
            r.amount == amount,
            r.staking_type == staking_type,
            r.maturity_date == r.staked_at + staking_days(staking_type) * SECONDS_PER_DAY,
            r.accumulated_rewards == 0,
            r.status == StakingStatus::Active,
            final(self).stakes_of(address@) == old(self).stakes_of(address@).push(r),
            forall|b: Seq<u8>| b != address@ ==> #[trigger] final(self).stakes_of(b) == old(self).stakes_of(b),
    {
        let clock = now_unix_seconds();
        let now = if clock > i64::MAX - MAX_STAKING_SECS {
            i64::MAX - MAX_STAKING_SECS
        } else {
            clock
        };
        let id = new_uuid();
        self.stake_tokens_at(address, amount, staking_type, id, now)
    }

    /// Takes back the address's first stake with the id at `now`: refused
    /// when the address has none; otherwise the stake leaves the
    /// address's list, marked unstaked, and what it held comes back less
    /// a tenth if it had not matured.
    pub fn unstake_tokens_at(&mut self, address: &Address, stake_id: u128, now: i64) -> (r: Result<Unstaked, StakingError>)
        requires
            old(self).wf(),
        ensures
            final(self).wf(),
            r is Err <==> forall|i: int|
                0 <= i < old(self).stakes_of(address@).len() ==> (#[trigger] old(self).stakes_of(address@)[i]).id
                    != stake_id,
            r is Err ==> r == Err::<Unstaked, StakingError>(StakingError::StakeNotFound)
                && final(self).stakes_of(address@) == old(self).stakes_of(address@),
            r matches Ok(u) ==> exists|i: int|
                {
                    &&& first_with_id(old(self).stakes_of(address@), stake_id, i)
                    &&& final(self).stakes_of(address@) == old(self).stakes_of(address@).remove(i)
                    &&& u.stake == (TemporalStake {
                        status: StakingStatus::Unstaked,
                        ..old(self).stakes_of(address@)[i]
                    })
                },
            r matches Ok(u) ==> u.unstaked_at == now && u.penalty_amount == early_penalty(u.stake, now)
                && u.final_amount == u.stake.amount - u.penalty_amount,
            forall|b: Seq<u8>| b != address@ ==> #[trigger] final(self).stakes_of(b) == old(self).stakes_of(b),
    {
        let mut list: Vec<TemporalStake> = Vec::new();
        let mut pos: Option<usize> = None;
        match self.stakes.get(address) {
            Some(v) => {
                let n = v.len();
                let mut i: usize = 0;
                while i < n
                    invariant
                        n == v@.len(),
                        i <= n,
                        list@ == v@.take(i as int),
                        match pos {
                            None => forall|j: int| 0 <= j < i ==> (#[trigger] v@[j]).id != stake_id,
                            Some(p) => p < i && first_with_id(v@, stake_id, p as int),
                        },
                    decreases n - i,
                {
                    if pos.is_none() && v[i].id == stake_id {
                        pos = Some(i);
                    }
                    list.push(v[i]);
                    i = i + 1;
                    proof {
                        assert(list@ =~= v@.take(i as int));
                    }
                }
                proof {
                    assert(v@.take(n as int) =~= v@);
                }
            },
            None => {},
        }
        match pos {
            None => Err(StakingError::StakeNotFound),
            Some(p) => {
                let mut stake = list.remove(p);
                stake.status = StakingStatus::Unstaked;
                self.stakes.insert(*address, list);
                let penalty: u64 = if now < stake.maturity_date {
                    stake.amount / 10
                } else {
                    0
                };
                Ok(Unstaked { stake, penalty_amount: penalty, final_amount: stake.amount - penalty, unstaked_at: now })
            },
        }
    }
}

impl TemporalStakingSystem {
    /// Takes back the address's first stake with the id now, by the clock;
    /// as `unstake_tokens_at`, with the clock reading as the time.
    pub fn unstake_tokens(&mut self, address: &Address, stake_id: u128) -> (r: Result<Unstaked, StakingError>)
        requires
            old(self).wf(),
        ensures
            final(self).wf(),
            r is Err <==> forall|i: int|
                0 <= i < old(self).stakes_of(address@).len() ==> (#[trigger] old(self).stakes_of(address@)[i]).id
                    != stake_id,
            r is Err ==> r == Err::<Unstaked, StakingError>(StakingError::StakeNotFound)
                && final(self).stakes_of(address@) == old(self).stakes_of(address@),
            r matches Ok(u) ==> exists|i: int|
                {
                    &&& first_with_id(old(self).stakes_of(address@), stake_id, i)
                    &&& final(self).stakes_of(address@) == old(self).stakes_of(address@).remove(i)
                    &&& u.stake == (TemporalStake {
                        status: StakingStatus::Unstaked,
                        ..old(self).stakes_of(address@)[i]
                    })
                },
            r matches Ok(u) ==> u.penalty_amount == early_penalty(u.stake, u.unstaked_at) && u.final_amount
                == u.stake.amount - u.penalty_amount,
            forall|b: Seq<u8>| b != address@ ==> #[trigger] final(self).stakes_of(b) == old(self).stakes_of(b),
    {
        self.unstake_tokens_at(address, stake_id, now_unix_seconds())
    }
}

impl TemporalStakingSystem {
    /// The stakes of an address, oldest first; none for an address that
    /// never staked.
    pub fn get_staking_info(&self, address: &Address) -> (r: Vec<TemporalStake>)
        requires
            self.wf(),
        ensures
            r@ == self.stakes_of(address@),
    {
        let mut out: Vec<TemporalStake> = Vec::new();
        match self.stakes.get(address) {
            Some(v) => {
                let n = v.len();
                let mut i: usize = 0;
                while i < n
                    invariant
                        n == v@.len(),
                        i <= n,
                        out@ == v@.take(i as int),
                    decreases n - i,
                {
                    out.push(v[i]);
                    i = i + 1;
                    proof {
                        assert(out@ =~= v@.take(i as int));
                    }
                }
                proof {
                    assert(v@.take(n as int) =~= v@);
                }
            },
            None => {},
        }
        out
    }

    /// The amount an address holds in active stakes, and how many active
    /// stakes it has.
    pub fn active_stake_totals(&self, address: &Address) -> (r: (u64, usize))
        requires
            self.wf(),
            active_total(self.stakes_of(address@)) <= u64::MAX,
        ensures
            r.0 == active_total(self.stakes_of(address@)),
            r.1 == active_count(self.stakes_of(address@)),
    {
        let stakes = self.get_staking_info(address);
        let ghost s = stakes@;
        let n = stakes.len();
        let mut total: u64 = 0;
        let mut count: usize = 0;
        let mut i: usize = 0;
        while i < n
            invariant
                n == s.len(),
                s == stakes@,
                i <= n,
                active_total(s) <= u64::MAX,
                total == active_total(s.take(i as int)),
                count == active_count(s.take(i as int)),
                count <= i,
            decreases n - i,
        {
            proof {
                assert(s.take(i as int + 1).drop_last() =~= s.take(i as int));
                lemma_active_total_prefix(s, i as int + 1);
            }
            if stakes[i].status == StakingStatus::Active {
                total = total + stakes[i].amount;
                count = count + 1;
            }
            i = i + 1;
        }
        proof {
            assert(s.take(n as int) =~= s);
        }
        (total, count)
    }
}

/// Law: taking back a stake just made, under an id the address did not use
/// yet, takes back that very stake and leaves the address's stakes as
/// they were before it was made.
pub proof fn lemma_unstake_undoes_stake(before: Seq<TemporalStake>, stake: TemporalStake, i: int)
    requires
        forall|j: int| 0 <= j < before.len() ==> (#[trigger] before[j]).id != stake.id,
        first_with_id(before.push(stake), stake.id, i),
    ensures
        i == before.len(),
        before.push(stake)[i] == stake,
        before.push(stake).remove(i) == before,
{
    if i < before.len() {
        assert(before.push(stake)[i] == before[i]);
    }
    assert(before.push(stake).remove(i) =~= before);
}

/// The active amount in a prefix of the stakes is no more than in all of
/// them.
proof fn lemma_active_total_prefix(s: Seq<TemporalStake>, k: int)
    requires
        0 <= k <= s.len(),
    ensures
        active_total(s.take(k)) <= active_total(s),
    decreases s.len() - k,
{
    if k < s.len() {
        lemma_active_total_prefix(s, k + 1);
        assert(s.take(k + 1).drop_last() =~= s.take(k));
    } else {
        assert(s.take(k) =~= s);
    }
}

/// The activity streak after a contribution: one more when the streak
/// began at most a day ago, otherwise a fresh streak of one (`true` in the
/// second place says the streak restarts now).
pub open spec fn next_streak(streak: u32, days_since_streak_start: i64) -> (u32, bool) {
    if days_since_streak_start <= 1 {
        ((streak + 1) as u32, false)
    } else {
        (1, true)
    }
}

/// The activity streak after a contribution.
pub fn advance_activity_streak(streak: u32, days_since_streak_start: i64) -> (r: (u32, bool))
    requires
        days_since_streak_start <= 1 ==> streak < u32::MAX,
    ensures
        r == next_streak(streak, days_since_streak_start),
{
    if days_since_streak_start <= 1 {
        (streak + 1, false)
    } else {
        (1, true)
    }
}

/// The stage a holding moves to, from where it is, its balance, its days
/// of activity in a row, its days in the current stage and whether the
/// network is healthy (above 90% uptime):
/// - genesis grows with over 10 000 tokens and over a week of activity,
///   or after 30 days;
/// - growth matures with over 100 000 tokens and over 30 days of
///   activity, and declines after 60 idle days;
/// - maturity declines after 90 idle days, or under 10 000 tokens;
/// - decline is reborn after over 14 days of activity on a healthy
///   network, and starts over when the balance is gone;
/// - rebirth grows with over 30 days of activity and over 50 000 tokens,
///   and declines when idle.
pub open spec fn next_stage(
    stage: EvolutionStage,
    balance: u64,
    activity_days: u32,
    time_in_stage: i64,
    network_healthy: bool,
) -> EvolutionStage {
    match stage {
        EvolutionStage::Genesis => if balance > 10000 && activity_days > 7 {
            EvolutionStage::Growth
        } else if time_in_stage > 30 {
            EvolutionStage::Growth
        } else {
            EvolutionStage::Genesis
        },
        EvolutionStage::Growth => if balance > 100000 && activity_days > 30 {
            EvolutionStage::Maturity
        } else if activity_days == 0 && time_in_stage > 60 {
            EvolutionStage::Decline
        } else {
            EvolutionStage::Growth
        },
        EvolutionStage::Maturity => if activity_days == 0 && time_in_stage > 90 {
            EvolutionStage::Decline
        } else if balance < 10000 {
            EvolutionStage::Decline
        } else {
            EvolutionStage::Maturity
        },
        EvolutionStage::Decline => if activity_days > 14 && network_healthy {
            EvolutionStage::Rebirth
        } else if balance == 0 {
            EvolutionStage::Genesis
        } else {
            EvolutionStage::Decline
        },
        EvolutionStage::Rebirth => if activity_days > 30 && balance > 50000 {
            EvolutionStage::Growth
        } else if activity_days == 0 {
            EvolutionStage::Decline
        } else {
            EvolutionStage::Rebirth
        },
    }
}

/// The bonus for moving between stages: 100 into growth from genesis, 500
/// into maturity, 200 into rebirth, 300 back into growth from rebirth, and
/// nothing for any other move.
pub open spec fn transition_bonus(from: EvolutionStage, to: EvolutionStage) -> u64 {
    match (from, to) {
        (EvolutionStage::Genesis, EvolutionStage::Growth) => 100,
        (EvolutionStage::Growth, EvolutionStage::Maturity) => 500,
        (EvolutionStage::Decline, EvolutionStage::Rebirth) => 200,
        (EvolutionStage::Rebirth, EvolutionStage::Growth) => 300,
        _ => 0,
    }
}

/// Every move a holding's lifecycle makes up into growth, maturity or
/// rebirth pays a bonus (100 from genesis into growth, 500 into maturity,
/// 200 from decline into rebirth, 300 from rebirth into growth), every
/// move down into decline or back to genesis pays none, and no other pair
/// of stages pays anything.
pub proof fn lemma_upward_moves_pay(
    stage: EvolutionStage,
    balance: u64,
    activity_days: u32,
    time_in_stage: i64,
    network_healthy: bool,
)
    ensures
        transition_bonus(EvolutionStage::Genesis, EvolutionStage::Growth) == 100,
        transition_bonus(EvolutionStage::Growth, EvolutionStage::Maturity) == 500,
        transition_bonus(EvolutionStage::Decline, EvolutionStage::Rebirth) == 200,
        transition_bonus(EvolutionStage::Rebirth, EvolutionStage::Growth) == 300,
        forall|from: EvolutionStage, to: EvolutionStage|
            #[trigger] transition_bonus(from, to) > 0 ==> (to == EvolutionStage::Growth && (from
                == EvolutionStage::Genesis || from == EvolutionStage::Rebirth)) || (from == EvolutionStage::Growth
                && to == EvolutionStage::Maturity) || (from == EvolutionStage::Decline && to
                == EvolutionStage::Rebirth),
        ({
            let next = next_stage(stage, balance, activity_days, time_in_stage, network_healthy);
            &&& next != stage && (next == EvolutionStage::Growth || next == EvolutionStage::Maturity || next
                == EvolutionStage::Rebirth) ==> transition_bonus(stage, next) > 0
            &&& next != stage && (next == EvolutionStage::Decline || next == EvolutionStage::Genesis)
                ==> transition_bonus(stage, next) == 0
        }),
{
}

/// The bonus for staying in a stage.
pub open spec fn maintenance_bonus(stage: EvolutionStage) -> u64 {
    match stage {
        EvolutionStage::Genesis => 5,
        EvolutionStage::Growth => 10,
        EvolutionStage::Maturity => 20,
        EvolutionStage::Decline => 0,
        EvolutionStage::Rebirth => 15,
    }
}

/// Where a holding stands after a lifecycle step: the stage it was in,
/// the stage it moves to if it moves, and the bonus the step earns.
#[derive(Debug, Clone, Copy, PartialEq, Eq)]
pub struct LifecycleStep {
    pub current_stage: EvolutionStage,
    pub new_stage: Option<EvolutionStage>,
    pub stage_bonus: u64,
}

impl TokenLifecycleManager {
    /// The stage a holding moves to.
    pub fn determine_evolution_stage(
        &self,
        stage: EvolutionStage,
        balance: u64,
        activity_days: u32,
        time_in_stage: i64,
        network_healthy: bool,
    ) -> (r: EvolutionStage)
        ensures
            r == next_stage(stage, balance, activity_days, time_in_stage, network_healthy),
    {
        match stage {
            EvolutionStage::Genesis => if balance > 10000 && activity_days > 7 {
                EvolutionStage::Growth
            } else if time_in_stage > 30 {
                EvolutionStage::Growth
            } else {
                EvolutionStage::Genesis
            },
            EvolutionStage::Growth => if balance > 100000 && activity_days > 30 {
                EvolutionStage::Maturity
            } else if activity_days == 0 && time_in_stage > 60 {
                EvolutionStage::Decline
            } else {
                EvolutionStage::Growth
            },
            EvolutionStage::Maturity => if activity_days == 0 && time_in_stage > 90 {
                EvolutionStage::Decline
            } else if balance < 10000 {
                EvolutionStage::Decline
            } else {
                EvolutionStage::Maturity
            },
            EvolutionStage::Decline => if activity_days > 14 && network_healthy {
                EvolutionStage::Rebirth
            } else if balance == 0 {
                EvolutionStage::Genesis
            } else {
                EvolutionStage::Decline
            },
            EvolutionStage::Rebirth => if activity_days > 30 && balance > 50000 {
                EvolutionStage::Growth
            } else if activity_days == 0 {
                EvolutionStage::Decline
            } else {
                EvolutionStage::Rebirth
            },
        }
    }

    /// The bonus for moving from one stage to another.
    pub fn calculate_stage_transition_bonus(&self, from: EvolutionStage, to: EvolutionStage) -> (r: u64)
        ensures
            r == transition_bonus(from, to),
    {
        match (from, to) {
            (EvolutionStage::Genesis, EvolutionStage::Growth) => 100,
            (EvolutionStage::Growth, EvolutionStage::Maturity) => 500,
            (EvolutionStage::Decline, EvolutionStage::Rebirth) => 200,
            (EvolutionStage::Rebirth, EvolutionStage::Growth) => 300,
            _ => 0,
        }
    }

    /// The bonus for staying in a stage.
    pub fn calculate_stage_maintenance_bonus(&self, stage: EvolutionStage) -> (r: u64)
        ensures
            r == maintenance_bonus(stage),
    {
        match stage {
            EvolutionStage::Genesis => 5,
            EvolutionStage::Growth => 10,
            EvolutionStage::Maturity => 20,
            EvolutionStage::Decline => 0,
            EvolutionStage::Rebirth => 15,
        }
    }

    /// One lifecycle step: the stage the holding moves to, if it moves,
    /// with the bonus for the move; otherwise the bonus for staying.
    pub fn lifecycle_step(
        &self,
        stage: EvolutionStage,
        balance: u64,
        activity_days: u32,
        time_in_stage: i64,
        network_healthy: bool,
    ) -> (r: LifecycleStep)
        ensures
            r.current_stage == stage,
            ({
                let next = next_stage(stage, balance, activity_days, time_in_stage, network_healthy);
                if next != stage {
                    r.new_stage == Some(next) && r.stage_bonus == transition_bonus(stage, next)
                } else {
                    r.new_stage is None && r.stage_bonus == maintenance_bonus(stage)
                }
            }),
    {
        let next = self.determine_evolution_stage(stage, balance, activity_days, time_in_stage, network_healthy);
        if next != stage {
            LifecycleStep {
                current_stage: stage,
                new_stage: Some(next),
                stage_bonus: self.calculate_stage_transition_bonus(stage, next),
            }
        } else {
            LifecycleStep { current_stage: stage, new_stage: None, stage_bonus: self.calculate_stage_maintenance_bonus(stage) }
        }
    }
}

} // verus!
