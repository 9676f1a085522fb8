//! The PAR token ledger: balances, allowances, frozen amounts, and the
//! history of every mint and burn.
use vstd::prelude::*;
use crate::address::Address;
use crate::sys::now_unix_seconds;
use crate::vecmap::{amount_of, credited, debited, VecMap};

verus! {

/// Why a ledger operation was refused.
#[derive(Debug, Clone, Copy, PartialEq, Eq)]
pub enum TokenError {
    /// A transfer names the same address as sender and receiver.
    SameAddress,
    /// The sender's available balance is below the amount.
    InsufficientBalance,
    /// The spender's allowance is below the amount.
    InsufficientAllowance,
    /// A mint of zero tokens.
    ZeroMint,
    /// A mint that would take the supply past its fixed maximum.
    SupplyCapExceeded,
    /// The available balance is below the amount to burn.
    InsufficientBalanceToBurn,
    /// The available balance is below the amount to freeze.
    InsufficientAvailableToFreeze,
    /// More would be unfrozen than is frozen.
    UnfreezeExceedsFrozen,
}

/// The fixed maximum supply: one billion PAR at eight decimals.
pub const MAX_SUPPLY: u64 = 100_000_000_000_000_000;

/// Token metadata.
#[derive(Debug)]
pub struct TokenInfo {
    pub name: String,
    pub symbol: String,
    pub decimals: u8,
    pub version: String,
}

/// Why tokens were minted.
#[derive(Debug, Clone, Copy, PartialEq, Eq)]
pub enum MintReason {
    ContributionReward,
    InferencePayment,
    GovernanceIncentive,
    NetworkMaintenance,
    CrossPlatformBridge,
}

/// Why tokens were burned.
#[derive(Debug, Clone, Copy, PartialEq, Eq)]
pub enum BurnReason {
    Deflationary,
    PenaltySlashing,
    ComputeConsumption,
    BridgeTransfer,
    GovernanceDecision,
}

/// A mint, as kept in the ledger's history.
#[derive(Debug, Clone, Copy)]
pub struct MintRecord {
    pub to: Address,
    pub amount: u64,
    /// Unix time in seconds.
    pub timestamp: i64,
    pub reason: MintReason,
}

/// A burn, as kept in the ledger's history.
#[derive(Debug, Clone, Copy)]
pub struct BurnRecord {
    pub from: Address,
    pub amount: u64,
    /// Unix time in seconds.
    pub timestamp: i64,
    pub reason: BurnReason,
}

/// Compute credits that a PAR balance stands for.
#[derive(Debug, Clone, Copy, PartialEq, Eq)]
pub struct ComputeCredits {
    pub par_balance: u64,
    pub cpu_credits: u64,
    pub gpu_credits: u64,
    pub storage_credits: u64,
    pub bandwidth_credits: u64,
}

/// The frozen amounts after unfreezing `x` for `a`: an amount that drops to
/// zero leaves the map.
pub open spec fn unfrozen(f: Map<Seq<u8>, u64>, a: Seq<u8>, x: u64) -> Map<Seq<u8>, u64> {
    if amount_of(f, a) == x {
        f.remove(a)
    } else {
        debited(f, a, x)
    }
}

/// The PAR token ledger.
#[derive(Debug)]
pub struct CoreToken {
    total_supply: u64,
    balances: VecMap<Address, u64>,
    allowances: VecMap<(Address, Address), u64>,
    frozen_balances: VecMap<Address, u64>,
    token_info: TokenInfo,
    mint_history: Vec<MintRecord>,
    burn_history: Vec<BurnRecord>,
}

impl CoreToken {
    /// Tokens in existence.
    pub closed spec fn supply(self) -> u64 {
        self.total_supply
    }

    /// The balance held for each address that has one.
    pub closed spec fn balances(self) -> Map<Seq<u8>, u64> {
        self.balances@
    }

    /// The frozen amount held for each address that has one.
    pub closed spec fn frozen(self) -> Map<Seq<u8>, u64> {
        self.frozen_balances@
    }

    /// The allowance of each (owner, spender) pair that has one.
    pub closed spec fn allowances(self) -> Map<(Seq<u8>, Seq<u8>), u64> {
        self.allowances@
    }

    /// Every mint, oldest first.
    pub closed spec fn mints(self) -> Seq<MintRecord> {
        self.mint_history@
    }

    /// Every burn, oldest first.
    pub closed spec fn burns(self) -> Seq<BurnRecord> {
        self.burn_history@
    }

    /// The sum of all balances.
    pub closed spec fn balance_total(self) -> int {
        self.balances.sum()
    }

    /// The balance of an address (zero when it has none).
    pub open spec fn balance(self, a: Seq<u8>) -> u64 {
        amount_of(self.balances(), a)
    }

    /// The frozen amount of an address (zero when it has none).
    pub open spec fn frozen_amount(self, a: Seq<u8>) -> u64 {
        amount_of(self.frozen(), a)
    }

    /// The balance that is not frozen.
    pub open spec fn available(self, a: Seq<u8>) -> u64 {
        if self.balance(a) >= self.frozen_amount(a) {
            (self.balance(a) - self.frozen_amount(a)) as u64
        } else {
            0
        }
    }

    /// What `spender` may still move out of `owner`'s balance.
    pub open spec fn allowance(self, owner: Seq<u8>, spender: Seq<u8>) -> u64 {
        amount_of(self.allowances(), (owner, spender))
    }

    /// The ledger is consistent: the supply is the sum of all balances, and
    /// no address has more frozen than it holds.
    pub closed spec fn wf(self) -> bool {
        &&& self.balances.wf()
        &&& self.allowances.wf()
        &&& self.frozen_balances.wf()
        &&& self.total_supply == self.balances.sum()
        &&& self.total_supply <= MAX_SUPPLY
        &&& forall|a: Seq<u8>| #[trigger]
            self.frozen_balances@.contains_key(a) ==> self.frozen_balances@[a] <= self.balance(a)
    }

    /// Everything but the balances and the supply is as it was.
    pub open spec fn same_except_balances(self, other: CoreToken) -> bool {
        &&& self.frozen() == other.frozen()
        &&& self.allowances() == other.allowances()
        &&& self.mints() == other.mints()
        &&& self.burns() == other.burns()
    }

    /// An empty ledger for the PAR token (eight decimals).
    pub fn new() -> (r: CoreToken)
        ensures
            r.wf(),
            r.supply() == 0,
            r.balances() == Map::<Seq<u8>, u64>::empty(),
            r.frozen() == Map::<Seq<u8>, u64>::empty(),
            r.allowances() == Map::<(Seq<u8>, Seq<u8>), u64>::empty(),
            r.mints().len() == 0,
            r.burns().len() == 0,
            r.info().name@ == "Paradigm"@,
            r.info().symbol@ == "PAR"@,
            r.info().decimals == 8,
            r.info().version@ == "2.0"@,
    {
        let balances: VecMap<Address, u64> = VecMap::new();
        proof {
            balances.lemma_sum_empty();
        }
        CoreToken {
            total_supply: 0,
            balances,
            allowances: VecMap::new(),
            frozen_balances: VecMap::new(),
            token_info: TokenInfo {
                name: String::from_str("Paradigm"),
                symbol: String::from_str("PAR"),
                decimals: 8,
                version: String::from_str("2.0"),
            },
            mint_history: Vec::new(),
            burn_history: Vec::new(),
        }
    }

    /// The token's metadata.
    pub closed spec fn info(self) -> TokenInfo {
        self.token_info
    }

    /// Prepares the ledger for use; it changes nothing.
    pub fn initialize(&mut self) -> (r: Result<(), TokenError>)
        ensures
            r is Ok,
            *final(self) == *old(self),
    {
        Ok(())
    }

    /// The balance of an address.
    pub fn balance_of(&self, address: &Address) -> (r: u64)
        requires
            self.wf(),
        ensures
            r == self.balance(address@),
    {
        match self.balances.get(address) {
            Some(b) => *b,
            None => 0,
        }
    }

    /// Tokens in existence.
    pub fn total_supply(&self) -> (r: u64)
        ensures
            r == self.supply(),
    {
        self.total_supply
    }

    fn frozen_of(&self, address: &Address) -> (r: u64)
        requires
            self.wf(),
        ensures
            r == self.frozen_amount(address@),
    {
        match self.frozen_balances.get(address) {
            Some(f) => *f,
            None => 0,
        }
    }

    /// The balance of an address that is not frozen.
    pub fn available_balance(&self, address: &Address) -> (r: u64)
        requires
            self.wf(),
        ensures
            r == self.available(address@),
            r <= self.balance(address@),
    {
        let total_balance = self.balance_of(address);
        let frozen = self.frozen_of(address);
        total_balance.saturating_sub(frozen)
    }

    /// The supply never passes the fixed maximum of one billion PAR: every
    /// consistent ledger, and so every ledger that the operations here
    /// produce, holds at most `MAX_SUPPLY` base units.
    pub proof fn lemma_supply_within_cap(self)
        requires
            self.wf(),
        ensures
            self.supply() <= MAX_SUPPLY,
            self.balance_total() == self.supply(),
    {
    }

    proof fn lemma_frozen_le_balance(self, a: Seq<u8>)
        requires
            self.wf(),
        ensures
            self.frozen_amount(a) <= self.balance(a),
            self.available(a) == self.balance(a) - self.frozen_amount(a),
    {
        if self.frozen_balances@.contains_key(a) {
            assert(self.frozen_balances@[a] <= self.balance(a));
        }
    }

    proof fn lemma_balance_le_supply(self, a: Seq<u8>)
        requires
            self.wf(),
        ensures
            self.balance(a) <= self.supply(),
    {
        self.balances.lemma_sum_bounds(a);
    }

    /// Moves `amount` from `from` to `to`. Refused when the two are the same
    /// address, or when the sender's available balance is below the amount;
    /// a refused transfer changes nothing.
    pub fn transfer(&mut self, from: &Address, to: &Address, amount: u64) -> (r: Result<(), TokenError>)
        requires
            old(self).wf(),
        ensures
            final(self).wf(),
            from@ == to@ ==> r == Err::<(), TokenError>(TokenError::SameAddress),
            from@ != to@ && old(self).available(from@) < amount ==> r == Err::<(), TokenError>(
                TokenError::InsufficientBalance,
            ),
            r is Err ==> *final(self) == *old(self),
            from@ != to@ && old(self).available(from@) >= amount ==> r is Ok,
            r is Ok ==> {
                &&& final(self).balances() == credited(debited(old(self).balances(), from@, amount), to@, amount)
                &&& final(self).supply() == old(self).supply()
                &&& final(self).same_except_balances(*old(self))
            },
    {
        if from.equals(to) {
            return Err(TokenError::SameAddress);
        }
        let from_available = self.available_balance(from);
        if from_available < amount {
            return Err(TokenError::InsufficientBalance);
        }
        proof {
            self.lemma_frozen_le_balance(from@);
        }
        let from_balance = self.balance_of(from);
        let ghost b0 = self.balances;
        let ghost t0 = *self;
        self.balances.insert(*from, from_balance - amount);
        proof {
            VecMap::lemma_sum_insert(b0, self.balances, *from, (from_balance - amount) as u64);
            self.balances.lemma_sum_bounds(to@);
        }
        let to_balance = match self.balances.get(to) {
            Some(b) => *b,
            None => 0,
        };
        let ghost b1 = self.balances;
        self.balances.insert(*to, to_balance + amount);
        proof {
            VecMap::lemma_sum_insert(b1, self.balances, *to, (to_balance + amount) as u64);
            assert forall|a: Seq<u8>| #[trigger]
                self.frozen_balances@.contains_key(a) implies self.frozen_balances@[a] <= self.balance(a) by {
                assert(t0.frozen_balances@.contains_key(a));
                assert(t0.frozen_balances@[a] <= t0.balance(a));
                t0.lemma_frozen_le_balance(from@);
            }
        }
        Ok(())
    }

    /// Sets the allowance of `spender` over `owner`'s balance.
    pub fn approve(&mut self, owner: &Address, spender: &Address, amount: u64) -> (r: Result<(), TokenError>)
        requires
            old(self).wf(),
        ensures
            final(self).wf(),
            r is Ok,
            final(self).allowances() == old(self).allowances().insert((owner@, spender@), amount),
            final(self).balances() == old(self).balances(),
            final(self).frozen() == old(self).frozen(),
            final(self).supply() == old(self).supply(),
            final(self).mints() == old(self).mints(),
            final(self).burns() == old(self).burns(),
    {
        self.allowances.insert((*owner, *spender), amount);
        Ok(())
    }

    /// Moves `amount` from `from` to `to` on behalf of `spender`, out of the
    /// allowance that `from` gave `spender`. Refused, with nothing changed,
    /// when the allowance is below the amount or the transfer is refused.
    pub fn transfer_from(&mut self, spender: &Address, from: &Address, to: &Address, amount: u64) -> (r:
        Result<(), TokenError>)
        requires
            old(self).wf(),
            amount > 0 || from@ == to@ || exists|s: Seq<u8>| #[trigger]
                old(self).allowances().contains_key((from@, s)),
        ensures
            final(self).wf(),
            old(self).allowance(from@, spender@) < amount ==> r == Err::<(), TokenError>(
                TokenError::InsufficientAllowance,
            ),
            old(self).allowance(from@, spender@) >= amount && from@ == to@ ==> r == Err::<(), TokenError>(
                TokenError::SameAddress,
            ),
            old(self).allowance(from@, spender@) >= amount && from@ != to@ && old(self).available(from@)
                < amount ==> r == Err::<(), TokenError>(TokenError::InsufficientBalance),
            r is Err ==> *final(self) == *old(self),
            old(self).allowance(from@, spender@) >= amount && from@ != to@ && old(self).available(from@)
                >= amount ==> r is Ok,
            r is Ok ==> {
                &&& final(self).balances() == credited(debited(old(self).balances(), from@, amount), to@, amount)
                &&& final(self).allowances() == debited(old(self).allowances(), (from@, spender@), amount)
                &&& final(self).supply() == old(self).supply()
                &&& final(self).frozen() == old(self).frozen()
                &&& final(self).mints() == old(self).mints()
                &&& final(self).burns() == old(self).burns()
            },
    {
        let allowance = match self.allowances.get(&(*from, *spender)) {
            Some(a) => *a,
            None => 0,
        };
        if allowance < amount {
            return Err(TokenError::InsufficientAllowance);
        }
        match self.transfer(from, to, amount) {
            Ok(()) => {},
            Err(e) => {
                return Err(e);
            },
        }
        self.allowances.insert((*from, *spender), allowance - amount);
        Ok(())
    }

    /// Creates `amount` new tokens for `to` as a contribution reward, and
    /// records the mint. Minting zero is refused, and so is a mint that
    /// would take the supply past its fixed maximum; either changes nothing.
    pub fn mint_tokens(&mut self, to: &Address, amount: u64) -> (r: Result<u64, TokenError>)
        requires
            old(self).wf(),
        ensures
            final(self).wf(),
            final(self).supply() <= MAX_SUPPLY,
            amount == 0 ==> r == Err::<u64, TokenError>(TokenError::ZeroMint) && *final(self) == *old(self),
            amount > 0 && old(self).supply() + amount > MAX_SUPPLY ==> r == Err::<u64, TokenError>(
                TokenError::SupplyCapExceeded,
            ) && *final(self) == *old(self),
            amount > 0 && old(self).supply() + amount <= MAX_SUPPLY ==> {
                &&& r == Ok::<u64, TokenError>(amount)
                &&& final(self).balances() == credited(old(self).balances(), to@, amount)
                &&& final(self).supply() == old(self).supply() + amount
                &&& final(self).frozen() == old(self).frozen()
                &&& final(self).allowances() == old(self).allowances()
                &&& final(self).burns() == old(self).burns()
                &&& final(self).mints().len() == old(self).mints().len() + 1
                &&& final(self).mints().drop_last() == old(self).mints()
                &&& final(self).mints().last().to == *to
                &&& final(self).mints().last().amount == amount
                &&& final(self).mints().last().reason == MintReason::ContributionReward
            },
    {
        if amount == 0 {
            return Err(TokenError::ZeroMint);
        }
        if amount > MAX_SUPPLY - self.total_supply {
            return Err(TokenError::SupplyCapExceeded);
        }
        proof {
            self.lemma_balance_le_supply(to@);
        }
        let current_balance = self.balance_of(to);
        let ghost b0 = self.balances;
        let ghost t0 = *self;
        self.balances.insert(*to, current_balance + amount);
        self.total_supply = self.total_supply + amount;
        proof {
            VecMap::lemma_sum_insert(b0, self.balances, *to, (current_balance + amount) as u64);
            assert forall|a: Seq<u8>| #[trigger]
                self.frozen_balances@.contains_key(a) implies self.frozen_balances@[a] <= self.balance(a) by {
                assert(t0.frozen_balances@.contains_key(a));
                assert(t0.frozen_balances@[a] <= t0.balance(a));
            }
        }
        let timestamp = now_unix_seconds();
        self.mint_history.push(MintRecord { to: *to, amount, timestamp, reason: MintReason::ContributionReward });
        proof {
            assert(self.mint_history@.drop_last() =~= t0.mint_history@);
        }
        Ok(amount)
    }

    /// Destroys `amount` of `from`'s available tokens and records the burn.
    /// Refused, with nothing changed, when the available balance is below
    /// the amount.
    pub fn burn_tokens(&mut self, from: &Address, amount: u64) -> (r: Result<(), TokenError>)
        requires
            old(self).wf(),
        ensures
            final(self).wf(),
            old(self).available(from@) < amount ==> r == Err::<(), TokenError>(
                TokenError::InsufficientBalanceToBurn,
            ) && *final(self) == *old(self),
            old(self).available(from@) >= amount ==> {
                &&& r is Ok
                &&& final(self).balances() == debited(old(self).balances(), from@, amount)
                &&& final(self).supply() == old(self).supply() - amount
                &&& final(self).frozen() == old(self).frozen()
                &&& final(self).allowances() == old(self).allowances()
                &&& final(self).mints() == old(self).mints()
                &&& final(self).burns().len() == old(self).burns().len() + 1
                &&& final(self).burns().drop_last() == old(self).burns()
                &&& final(self).burns().last().from == *from
                &&& final(self).burns().last().amount == amount
                &&& final(self).burns().last().reason == BurnReason::Deflationary
            },
    {
        let available = self.available_balance(from);
        if available < amount {
            return Err(TokenError::InsufficientBalanceToBurn);
        }
        proof {
            self.lemma_frozen_le_balance(from@);
            self.lemma_balance_le_supply(from@);
        }
        let current_balance = self.balance_of(from);
        let ghost b0 = self.balances;
        let ghost t0 = *self;
        self.balances.insert(*from, current_balance - amount);
        self.total_supply = self.total_supply.saturating_sub(amount);
        proof {
            VecMap::lemma_sum_insert(b0, self.balances, *from, (current_balance - amount) as u64);
            assert forall|a: Seq<u8>| #[trigger]
                self.frozen_balances@.contains_key(a) implies self.frozen_balances@[a] <= self.balance(a) by {
                assert(t0.frozen_balances@.contains_key(a));
                assert(t0.frozen_balances@[a] <= t0.balance(a));
                t0.lemma_frozen_le_balance(from@);
            }
        }
        let timestamp = now_unix_seconds();
        self.burn_history.push(BurnRecord { from: *from, amount, timestamp, reason: BurnReason::Deflationary });
        proof {
            assert(self.burn_history@.drop_last() =~= t0.burn_history@);
        }
        Ok(())
    }

    /// Freezes `amount` of an address's available balance. Refused, with
    /// nothing changed, when the available balance is below the amount.
    pub fn freeze_tokens(&mut self, address: &Address, amount: u64) -> (r: Result<(), TokenError>)
        requires
            old(self).wf(),
        ensures
            final(self).wf(),
            old(self).available(address@) < amount ==> r == Err::<(), TokenError>(
                TokenError::InsufficientAvailableToFreeze,
            ) && *final(self) == *old(self),
            old(self).available(address@) >= amount ==> {
                &&& r is Ok
                &&& final(self).frozen() == credited(old(self).frozen(), address@, amount)
                &&& final(self).balances() == old(self).balances()
                &&& final(self).supply() == old(self).supply()
                &&& final(self).allowances() == old(self).allowances()
                &&& final(self).mints() == old(self).mints()
                &&& final(self).burns() == old(self).burns()
            },
    {
        let available = self.available_balance(address);
        if available < amount {
            return Err(TokenError::InsufficientAvailableToFreeze);
        }
        proof {
            self.lemma_frozen_le_balance(address@);
        }
        let current_frozen = self.frozen_of(address);
        let ghost t0 = *self;
        self.frozen_balances.insert(*address, current_frozen + amount);
        proof {
            assert forall|a: Seq<u8>| #[trigger]
                self.frozen_balances@.contains_key(a) implies self.frozen_balances@[a] <= self.balance(a) by {
                if a != address@ {
                    assert(t0.frozen_balances@.contains_key(a));
                    assert(t0.frozen_balances@[a] <= t0.balance(a));
                }
            }
        }
        Ok(())
    }

    /// Unfreezes `amount` of an address's frozen tokens; an address whose
    /// frozen amount drops to zero leaves the frozen map. Refused, with
    /// nothing changed, when less than the amount is frozen.
    pub fn unfreeze_tokens(&mut self, address: &Address, amount: u64) -> (r: Result<(), TokenError>)
        requires
            old(self).wf(),
        ensures
            final(self).wf(),
            old(self).frozen_amount(address@) < amount ==> r == Err::<(), TokenError>(
                TokenError::UnfreezeExceedsFrozen,
            ) && *final(self) == *old(self),
            old(self).frozen_amount(address@) >= amount ==> {
                &&& r is Ok
                &&& final(self).frozen() == unfrozen(old(self).frozen(), address@, amount)
                &&& final(self).balances() == old(self).balances()
                &&& final(self).supply() == old(self).supply()
                &&& final(self).allowances() == old(self).allowances()
                &&& final(self).mints() == old(self).mints()
                &&& final(self).burns() == old(self).burns()
            },
    {
        let current_frozen = self.frozen_of(address);
        if current_frozen < amount {
            return Err(TokenError::UnfreezeExceedsFrozen);
        }
        let new_frozen = current_frozen - amount;
        let ghost t0 = *self;
        if new_frozen == 0 {
            self.frozen_balances.remove(address);
        } else {
            self.frozen_balances.insert(*address, new_frozen);
        }
        proof {
            assert forall|a: Seq<u8>| #[trigger]
                self.frozen_balances@.contains_key(a) implies self.frozen_balances@[a] <= self.balance(a) by {
                assert(t0.frozen_balances@.contains_key(a));
                assert(t0.frozen_balances@[a] <= t0.balance(a));
            }
        }
        Ok(())
    }

    /// The compute credits that an address's available balance stands for:
    /// one CPU unit per 1000 base units, one GPU unit per 10000, ten storage
    /// units and five bandwidth units per base unit.
    pub fn get_compute_credits(&self, address: &Address) -> (r: ComputeCredits)
        requires
            self.wf(),
            self.available(address@) * 10 <= u64::MAX,
        ensures
            r.par_balance == self.available(address@),
            r.cpu_credits == self.available(address@) / 1000,
            r.gpu_credits == self.available(address@) / 10000,
            r.storage_credits == self.available(address@) * 10,
            r.bandwidth_credits == self.available(address@) * 5,
    {
        let balance = self.available_balance(address);
        ComputeCredits {
            par_balance: balance,
            cpu_credits: balance / 1000,
            gpu_credits: balance / 10000,
            storage_credits: balance * 10,
            bandwidth_credits: balance * 5,
        }
    }

    /// Every mint, oldest first.
    pub fn get_mint_history(&self) -> (r: &Vec<MintRecord>)
        ensures
            r@ == self.mints(),
    {
        &self.mint_history
    }

    /// Every burn, oldest first.
    pub fn get_burn_history(&self) -> (r: &Vec<BurnRecord>)
        ensures
            r@ == self.burns(),
    {
        &self.burn_history
    }

    /// The token's metadata.
    pub fn get_token_info(&self) -> (r: &TokenInfo)
        ensures
            *r == self.info(),
    {
        &self.token_info
    }
}

/// Law: in a consistent ledger the supply equals the sum of all balances,
/// so every transfer conserves that sum and every mint or burn moves it by
/// exactly the amount minted or burned.
pub proof fn lemma_supply_is_balance_total(t: CoreToken)
    requires
        t.wf(),
    ensures
        t.supply() == t.balance_total(),
        forall|a: Seq<u8>| t.frozen_amount(a) <= #[trigger] t.balance(a),
{
    assert forall|a: Seq<u8>| t.frozen_amount(a) <= #[trigger] t.balance(a) by {
        t.lemma_frozen_le_balance(a);
    }
}

/// Law: transferring an amount from one address to another and the same
/// amount back leaves every balance as it was.
pub proof fn lemma_transfer_round_trip(m: Map<Seq<u8>, u64>, from: Seq<u8>, to: Seq<u8>, x: u64, a: Seq<u8>)
    requires
        from != to,
        amount_of(m, from) >= x,
        amount_of(m, to) + x <= u64::MAX,
    ensures
        amount_of(credited(debited(credited(debited(m, from, x), to, x), to, x), from, x), a) == amount_of(
            m,
            a,
        ),
{
}

/// Law: a transfer changes only the two balances it names, and the
/// receiver gains exactly what the sender loses.
pub proof fn lemma_transfer_moves_amount(m: Map<Seq<u8>, u64>, from: Seq<u8>, to: Seq<u8>, x: u64, a: Seq<u8>)
    requires
        from != to,
        amount_of(m, from) >= x,
        amount_of(m, to) + x <= u64::MAX,
    ensures
        amount_of(credited(debited(m, from, x), to, x), from) == amount_of(m, from) - x,
        amount_of(credited(debited(m, from, x), to, x), to) == amount_of(m, to) + x,
        a != from && a != to ==> amount_of(credited(debited(m, from, x), to, x), a) == amount_of(m, a),
{
}

/// Law: minting an amount to an address and then burning the same amount
/// from it leaves every balance as it was.
pub proof fn lemma_mint_then_burn(m: Map<Seq<u8>, u64>, to: Seq<u8>, x: u64, a: Seq<u8>)
    requires
        amount_of(m, to) + x <= u64::MAX,
    ensures
        amount_of(debited(credited(m, to, x), to, x), a) == amount_of(m, a),
{
}

/// Law: freezing an amount and then unfreezing the same amount leaves every
/// frozen amount as it was.
pub proof fn lemma_freeze_then_unfreeze(f: Map<Seq<u8>, u64>, addr: Seq<u8>, x: u64, a: Seq<u8>)
    requires
        amount_of(f, addr) + x <= u64::MAX,
    ensures
        amount_of(unfrozen(credited(f, addr, x), addr, x), a) == amount_of(f, a),
{
}

} // verus!
