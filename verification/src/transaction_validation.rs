//! The rules that every transaction is checked against before it is
//! accepted: signature, balance and fee, message format, timestamp window,
//! per-address rate limit, black/white lists and memo policy, duplicates,
//! and a risk score.
use vstd::prelude::*;
use vstd::utf8::encode_utf8;
use crate::address::Address;
use crate::text::{decimal, push_decimal, text};
use crate::transaction::{validation_outcome, Transaction};
use crate::vecmap::{amount_of, credited, has_key, VecMap};

verus! {

/// Why a transaction fails validation.
#[derive(Debug, PartialEq, Eq)]
pub enum ValidationError {
    InvalidSignature,
    InsufficientBalance,
    InvalidAmount,
    InvalidFee,
    TransactionTooOld,
    TransactionInFuture,
    DuplicateTransaction,
    InvalidNonce,
    ExceedsRateLimit,
    BlockedAddress,
    InvalidMessageFormat,
    ExceedsMaxTransactionSize,
    UnsupportedTransactionType,
    InvalidTimestamp,
    NetworkMismatch,
    PolicyViolation(String),
}

/// What a validation rule checks.
#[derive(Debug, Clone, Copy, PartialEq, Eq, Structural)]
pub enum ValidationRuleType {
    Signature,
    Balance,
    Format,
    Temporal,
    RateLimit,
    Policy,
    Network,
    Risk,
}

/// How a failed rule counts.
#[derive(Debug, Clone, Copy, PartialEq, Eq, Structural)]
pub enum ValidationSeverity {
    /// The transaction must be rejected.
    Critical,
    /// Logged as a warning; the transaction is allowed.
    Warning,
    /// Informational only.
    Info,
}

/// Network settings that the rules read.
#[derive(Debug)]
pub struct NetworkValidationConfig {
    pub network_id: String,
    pub chain_id: u64,
    pub min_fee: u64,
    pub max_transaction_size: usize,
    pub max_message_size: usize,
    pub transaction_timeout_hours: u32,
    pub rate_limit_per_address_per_hour: u32,
    pub require_memo_for_large_amounts: bool,
    pub large_amount_threshold: u64,
    pub enable_address_whitelist: bool,
    pub enable_address_blacklist: bool,
    pub enable_risk_scoring: bool,
}

impl Default for NetworkValidationConfig {
    /// Main-net settings: a 0.0001 PAR minimum fee, 1 MiB transactions, 1 KiB
    /// messages, a 24-hour window, 1000 transactions per address per hour,
    /// memos required from 10,000 PAR, the blacklist and risk scoring on.
    fn default() -> (r: Self)
        ensures
            r.network_id@ == "paradigm-mainnet"@,
            r.chain_id == 1,
            r.min_fee == 10_000,
            r.max_transaction_size == 1024 * 1024,
            r.max_message_size == 1024,
            r.transaction_timeout_hours == 24,
            r.rate_limit_per_address_per_hour == 1000,
            r.require_memo_for_large_amounts,
            r.large_amount_threshold == 1_000_000_000_000,
            !r.enable_address_whitelist,
            r.enable_address_blacklist,
            r.enable_risk_scoring,
    {
        NetworkValidationConfig {
            network_id: String::from_str("paradigm-mainnet"),
            chain_id: 1,
            min_fee: 10_000,
            max_transaction_size: 1024 * 1024,
            max_message_size: 1024,
            transaction_timeout_hours: 24,
            rate_limit_per_address_per_hour: 1000,
            require_memo_for_large_amounts: true,
            large_amount_threshold: 1_000_000_000_000,
            enable_address_whitelist: false,
            enable_address_blacklist: true,
            enable_risk_scoring: true,
        }
    }
}

/// What the validator remembers of an address.
#[derive(Debug, Clone, Copy)]
pub struct AddressTracker {
    pub address: Address,
    /// Transactions counted in the current hour.
    pub transaction_count: u32,
    /// Unix time of the last counted transaction, in nanoseconds.
    pub last_transaction: i64,
    /// Total amount counted (saturating).
    pub total_volume: u64,
    /// Number of risk flags raised against the address.
    pub risk_flags: u32,
    /// Unix time the address was first seen, in nanoseconds.
    pub first_seen: i64,
}

/// One hour in nanoseconds.
pub const HOUR_NANOS: i64 = 3_600_000_000_000;

/// Seven days in nanoseconds.
pub const WEEK_NANOS: i64 = 604_800_000_000_000;

/// The whole seconds of a nanosecond timestamp, rounded down.
pub open spec fn seconds_of(nanos: i64) -> int {
    nanos as int / 1_000_000_000
}

fn floor_seconds(nanos: i64) -> (r: i64)
    ensures
        r == seconds_of(nanos),
{
    if nanos >= 0 {
        nanos / 1_000_000_000
    } else {
        let m: i64 = -(nanos + 1);
        let q: i64 = m / 1_000_000_000;
        proof {
            let n = nanos as int;
            let mm = m as int;
            let qq = q as int;
            assert(mm == -(n + 1));
            assert(0 <= mm - 1_000_000_000 * qq < 1_000_000_000) by (nonlinear_arith)
                requires
                    qq == mm / 1_000_000_000,
                    mm >= 0,
            ;
            assert(n == 1_000_000_000 * (-qq - 1) + (999_999_999 - (mm - 1_000_000_000 * qq)));
            assert(n / 1_000_000_000 == -qq - 1) by (nonlinear_arith)
                requires
                    n == 1_000_000_000 * (-qq - 1) + (999_999_999 - (mm - 1_000_000_000 * qq)),
                    0 <= mm - 1_000_000_000 * qq < 1_000_000_000,
            ;
        }
        -q - 1
    }
}

/// The balance rule: the balance covers amount plus fee, the amount is not
/// zero, and the fee meets the minimum, checked in that order.
pub open spec fn balance_check(config: NetworkValidationConfig, tx: Transaction, balance: u64) -> Result<
    (),
    ValidationError,
> {
    if balance < tx.amount + tx.fee {
        Err(ValidationError::InsufficientBalance)
    } else if tx.amount == 0 {
        Err(ValidationError::InvalidAmount)
    } else if tx.fee < config.min_fee {
        Err(ValidationError::InvalidFee)
    } else {
        Ok(())
    }
}

/// The format rule: a message may not exceed the configured size nor 1000
/// bytes, nor hold a NUL character.
pub open spec fn format_check(config: NetworkValidationConfig, tx: Transaction) -> Result<(), ValidationError> {
    match tx.message {
        Some(m) => if encode_utf8(m@).len() > config.max_message_size || m@.contains('\0') || encode_utf8(
            m@,
        ).len() > 1000 {
            Err(ValidationError::InvalidMessageFormat)
        } else {
            Ok(())
        },
        None => Ok(()),
    }
}

/// The temporal rule at clock reading `now` (nanoseconds), in whole
/// seconds: not older than the timeout, not more than five minutes ahead.
pub open spec fn temporal_check(config: NetworkValidationConfig, tx: Transaction, now: i64) -> Result<
    (),
    ValidationError,
> {
    if seconds_of(now) - seconds_of(tx.timestamp) > config.transaction_timeout_hours * 3600 {
        Err(ValidationError::TransactionTooOld)
    } else if seconds_of(tx.timestamp) > seconds_of(now) + 300 {
        Err(ValidationError::TransactionInFuture)
    } else {
        Ok(())
    }
}

/// The signature rule: a signature is present and the transaction passes
/// its own checks (amount, fee, timestamp, signature) at `now`.
pub open spec fn signature_check(tx: Transaction, public_key: Seq<u8>, now: i64) -> Result<(), ValidationError> {
    if tx.signature@.len() == 0 {
        Err(ValidationError::InvalidSignature)
    } else if validation_outcome(tx, public_key, now) is Err {
        Err(ValidationError::InvalidSignature)
    } else {
        Ok(())
    }
}

/// The text of the policy violation for unlisted addresses.
pub open spec fn not_whitelisted_text() -> Seq<char> {
    "Address not whitelisted"@
}

/// The text of the policy violation for large transfers without a memo.
pub open spec fn memo_required_text() -> Seq<char> {
    "Large transactions require memo"@
}

/// The name of an error, as it is counted in the statistics: the variant's
/// name, with a policy violation's text in quotes and brackets.
pub open spec fn error_name(e: ValidationError) -> Seq<char> {
    match e {
        ValidationError::InvalidSignature => "InvalidSignature"@,
        ValidationError::InsufficientBalance => "InsufficientBalance"@,
        ValidationError::InvalidAmount => "InvalidAmount"@,
        ValidationError::InvalidFee => "InvalidFee"@,
        ValidationError::TransactionTooOld => "TransactionTooOld"@,
        ValidationError::TransactionInFuture => "TransactionInFuture"@,
        ValidationError::DuplicateTransaction => "DuplicateTransaction"@,
        ValidationError::InvalidNonce => "InvalidNonce"@,
        ValidationError::ExceedsRateLimit => "ExceedsRateLimit"@,
        ValidationError::BlockedAddress => "BlockedAddress"@,
        ValidationError::InvalidMessageFormat => "InvalidMessageFormat"@,
        ValidationError::ExceedsMaxTransactionSize => "ExceedsMaxTransactionSize"@,
        ValidationError::UnsupportedTransactionType => "UnsupportedTransactionType"@,
        ValidationError::InvalidTimestamp => "InvalidTimestamp"@,
        ValidationError::NetworkMismatch => "NetworkMismatch"@,
        ValidationError::PolicyViolation(t) => violation_name(t@),
    }
}

/// The name of a policy violation with the given text.
pub open spec fn violation_name(text: Seq<char>) -> Seq<char> {
    "PolicyViolation(\""@ + text + "\")"@
}

/// The policy rule: neither party blacklisted (when the blacklist is on),
/// both whitelisted (when the whitelist is on), and a memo on large
/// amounts (when required). A failure gives the name of its error.
pub open spec fn policy_check(
    config: NetworkValidationConfig,
    whitelist: Map<Seq<u8>, ()>,
    blacklist: Map<Seq<u8>, ()>,
    tx: Transaction,
) -> Result<(), Seq<char>> {
    if config.enable_address_blacklist && (blacklist.contains_key(tx.from@) || blacklist.contains_key(tx.to@)) {
        Err("BlockedAddress"@)
    } else if config.enable_address_whitelist && (!whitelist.contains_key(tx.from@) || !whitelist.contains_key(
        tx.to@,
    )) {
        Err(violation_name(not_whitelisted_text()))
    } else if config.require_memo_for_large_amounts && tx.amount >= config.large_amount_threshold
        && tx.message is None {
        Err(violation_name(memo_required_text()))
    } else {
        Ok(())
    }
}

/// The warning given for a risk score above 80.
pub open spec fn risk_warning(score: u32) -> Seq<char> {
    "High risk transaction detected (score: "@ + decimal(score as nat) + ")"@
}

/// The warning given for a failed non-critical policy rule.
pub open spec fn policy_warning(name: Seq<char>) -> Seq<char> {
    "Policy warning: "@ + name
}

/// A copy of an error.
pub fn copy_error(e: &ValidationError) -> (r: ValidationError)
    ensures
        r == *e,
{
    match e {
        ValidationError::InvalidSignature => ValidationError::InvalidSignature,
        ValidationError::InsufficientBalance => ValidationError::InsufficientBalance,
        ValidationError::InvalidAmount => ValidationError::InvalidAmount,
        ValidationError::InvalidFee => ValidationError::InvalidFee,
        ValidationError::TransactionTooOld => ValidationError::TransactionTooOld,
        ValidationError::TransactionInFuture => ValidationError::TransactionInFuture,
        ValidationError::DuplicateTransaction => ValidationError::DuplicateTransaction,
        ValidationError::InvalidNonce => ValidationError::InvalidNonce,
        ValidationError::ExceedsRateLimit => ValidationError::ExceedsRateLimit,
        ValidationError::BlockedAddress => ValidationError::BlockedAddress,
        ValidationError::InvalidMessageFormat => ValidationError::InvalidMessageFormat,
        ValidationError::ExceedsMaxTransactionSize => ValidationError::ExceedsMaxTransactionSize,
        ValidationError::UnsupportedTransactionType => ValidationError::UnsupportedTransactionType,
        ValidationError::InvalidTimestamp => ValidationError::InvalidTimestamp,
        ValidationError::NetworkMismatch => ValidationError::NetworkMismatch,
        ValidationError::PolicyViolation(t) => ValidationError::PolicyViolation(t.clone()),
    }
}

/// The name of an error, as it is counted in the statistics.
pub fn error_name_of(e: &ValidationError) -> (r: String)
    ensures
        r@ == error_name(*e),
{
    match e {
        ValidationError::InvalidSignature => text("InvalidSignature"),
        ValidationError::InsufficientBalance => text("InsufficientBalance"),
        ValidationError::InvalidAmount => text("InvalidAmount"),
        ValidationError::InvalidFee => text("InvalidFee"),
        ValidationError::TransactionTooOld => text("TransactionTooOld"),
        ValidationError::TransactionInFuture => text("TransactionInFuture"),
        ValidationError::DuplicateTransaction => text("DuplicateTransaction"),
        ValidationError::InvalidNonce => text("InvalidNonce"),
        ValidationError::ExceedsRateLimit => text("ExceedsRateLimit"),
        ValidationError::BlockedAddress => text("BlockedAddress"),
        ValidationError::InvalidMessageFormat => text("InvalidMessageFormat"),
        ValidationError::ExceedsMaxTransactionSize => text("ExceedsMaxTransactionSize"),
        ValidationError::UnsupportedTransactionType => text("UnsupportedTransactionType"),
        ValidationError::InvalidTimestamp => text("InvalidTimestamp"),
        ValidationError::NetworkMismatch => text("NetworkMismatch"),
        ValidationError::PolicyViolation(t) => {
            let mut r = text("PolicyViolation(\"");
            r.append(t.as_str());
            r.append("\")");
            r
        },
    }
}

/// The risk score of a transaction, capped at 100: 20 for an amount above
/// the large-amount threshold; for a known sender 15 if first seen within
/// the last week, 10 if it made more than 100 transactions, 5 per risk
/// flag; 10 for an unknown sender; 5 for a self-send; 10 more for a large
/// amount without a memo.
pub open spec fn risk_score(
    config: NetworkValidationConfig,
    trackers: Map<Seq<u8>, AddressTracker>,
    tx: Transaction,
    now: i64,
) -> u32 {
    let large = tx.amount > config.large_amount_threshold;
    let s1: int = if large { 20 } else { 0 };
    let s2: int = if trackers.contains_key(tx.from@) {
        let t = trackers[tx.from@];
        (if t.first_seen > now - WEEK_NANOS { 15int } else { 0int }) + (if t.transaction_count > 100 {
            10int
        } else {
            0int
        }) + t.risk_flags * 5
    } else {
        10
    };
    let s3: int = if tx.from@ == tx.to@ { 5 } else { 0 };
    let s4: int = if large && tx.message is None { 10 } else { 0 };
    let total = s1 + s2 + s3 + s4;
    if total > 100 { 100 } else { total as u32 }
}


/// The outcome of the rate-limit rule at `now`: the updated trackers and
/// whether the transaction is within the limit. A sender last seen more
/// than an hour ago starts a new count; a sender at the limit is refused
/// (keeping any restart of its count); otherwise its count goes up by one,
/// its last time becomes `now`, and its volume grows by the amount
/// (saturating). A new sender starts with a count of one.
pub open spec fn rate_limit_step(
    config: NetworkValidationConfig,
    trackers: Map<Seq<u8>, AddressTracker>,
    tx: Transaction,
    now: i64,
) -> (Map<Seq<u8>, AddressTracker>, bool) {
    if trackers.contains_key(tx.from@) {
        let t = trackers[tx.from@];
        let count: u32 = if t.last_transaction < now - HOUR_NANOS { 0 } else { t.transaction_count };
        if count >= config.rate_limit_per_address_per_hour {
            (trackers.insert(tx.from@, AddressTracker { transaction_count: count, ..t }), false)
        } else {
            (
                trackers.insert(
                    tx.from@,
                    AddressTracker {
                        transaction_count: (count + 1) as u32,
                        last_transaction: now,
                        total_volume: if t.total_volume + tx.amount > u64::MAX {
                            u64::MAX
                        } else {
                            (t.total_volume + tx.amount) as u64
                        },
                        ..t
                    },
                ),
                true,
            )
        }
    } else {
        (
            trackers.insert(
                tx.from@,
                AddressTracker {
                    address: tx.from,
                    transaction_count: 1,
                    last_transaction: now,
                    total_volume: tx.amount,
                    risk_flags: 0,
                    first_seen: now,
                },
            ),
            true,
        )
    }
}

/// A rule of the validator.
#[derive(Debug)]
pub struct ValidationRule {
    pub id: String,
    pub name: String,
    pub rule_type: ValidationRuleType,
    pub enabled: bool,
    pub severity: ValidationSeverity,
    pub description: String,
    pub parameters: Vec<(String, String)>,
    /// Unix time in seconds.
    pub created_at: i64,
    /// Unix time in seconds.
    pub updated_at: i64,
}

/// What the rules have found so far: error names, warnings, the highest
/// risk score, the address trackers, and the ids of the rules that fired.
pub struct RuleOutcome {
    pub errors: Seq<Seq<char>>,
    pub warnings: Seq<Seq<char>>,
    pub risk: u32,
    pub trackers: Map<Seq<u8>, AddressTracker>,
    pub triggered: Seq<Seq<char>>,
}

/// Records a failed rule's error and the rule's id.
pub open spec fn fail(o: RuleOutcome, name: Seq<char>, rule: ValidationRule) -> RuleOutcome {
    RuleOutcome { errors: o.errors.push(name), triggered: o.triggered.push(rule.id@), ..o }
}

/// Applies one rule (a disabled rule does nothing).
pub open spec fn apply_rule(
    o: RuleOutcome,
    rule: ValidationRule,
    config: NetworkValidationConfig,
    whitelist: Map<Seq<u8>, ()>,
    blacklist: Map<Seq<u8>, ()>,
    tx: Transaction,
    balance: u64,
    public_key: Seq<u8>,
    now: i64,
) -> RuleOutcome {
    if !rule.enabled {
        o
    } else {
        match rule.rule_type {
            ValidationRuleType::Signature => match signature_check(tx, public_key, now) {
                Err(e) => fail(o, error_name(e), rule),
                Ok(_) => o,
            },
            ValidationRuleType::Balance => match balance_check(config, tx, balance) {
                Err(e) => fail(o, error_name(e), rule),
                Ok(_) => o,
            },
            ValidationRuleType::Format => match format_check(config, tx) {
                Err(e) => fail(o, error_name(e), rule),
                Ok(_) => o,
            },
            ValidationRuleType::Temporal => match temporal_check(config, tx, now) {
                Err(e) => fail(o, error_name(e), rule),
                Ok(_) => o,
            },
            ValidationRuleType::RateLimit => {
                let (t, ok) = rate_limit_step(config, o.trackers, tx, now);
                let o2 = RuleOutcome { trackers: t, ..o };
                if ok {
                    o2
                } else {
                    fail(o2, "ExceedsRateLimit"@, rule)
                }
            },
            ValidationRuleType::Policy => match policy_check(config, whitelist, blacklist, tx) {
                Err(name) => if rule.severity == ValidationSeverity::Critical {
                    fail(o, name, rule)
                } else {
                    RuleOutcome {
                        warnings: o.warnings.push(policy_warning(name)),
                        triggered: o.triggered.push(rule.id@),
                        ..o
                    }
                },
                Ok(_) => o,
            },
            ValidationRuleType::Network => o,
            ValidationRuleType::Risk => {
                let score = risk_score(config, o.trackers, tx, now);
                let risk = if score > o.risk { score } else { o.risk };
                if score > 80 {
                    RuleOutcome { risk, warnings: o.warnings.push(risk_warning(score)), ..o }
                } else {
                    RuleOutcome { risk, ..o }
                }
            },
        }
    }
}

/// Applies the rules in order.
pub open spec fn apply_rules(
    o: RuleOutcome,
    rules: Seq<(String, ValidationRule)>,
    config: NetworkValidationConfig,
    whitelist: Map<Seq<u8>, ()>,
    blacklist: Map<Seq<u8>, ()>,
    tx: Transaction,
    balance: u64,
    public_key: Seq<u8>,
    now: i64,
) -> RuleOutcome
    decreases rules.len(),
{
    if rules.len() == 0 {
        o
    } else {
        apply_rule(
            apply_rules(o, rules.drop_last(), config, whitelist, blacklist, tx, balance, public_key, now),
            rules.last().1,
            config,
            whitelist,
            blacklist,
            tx,
            balance,
            public_key,
            now,
        )
    }
}

fn validate_balance(config: &NetworkValidationConfig, tx: &Transaction, balance: u64) -> (r: Result<(), ValidationError>)
    requires
        tx.amount + tx.fee <= u64::MAX,
    ensures
        r == balance_check(*config, *tx, balance),
{
    let total_cost = tx.amount + tx.fee;
    if balance < total_cost {
        return Err(ValidationError::InsufficientBalance);
    }
    if tx.amount == 0 {
        return Err(ValidationError::InvalidAmount);
    }
    if tx.fee < config.min_fee {
        return Err(ValidationError::InvalidFee);
    }
    Ok(())
}

fn validate_format(config: &NetworkValidationConfig, tx: &Transaction) -> (r: Result<(), ValidationError>)
    ensures
        r == format_check(*config, *tx),
{
    match &tx.message {
        Some(m) => {
            let s = m.as_str();
            let len = s.as_bytes().len();
            if len > config.max_message_size {
                return Err(ValidationError::InvalidMessageFormat);
            }
            let n = s.unicode_len();
            let mut i: usize = 0;
            while i < n
                invariant
                    n == s@.len(),
                    s@ == m@,
                    tx.message == Some(*m),
                    i <= n,
                    forall|j: int| 0 <= j < i ==> s@[j] != '\0',
                decreases n - i,
            {
                if s.get_char(i) == '\0' {
                    proof {
                        assert(s@[i as int] == '\0');
                        assert(m@[i as int] == '\0');
                        assert(m@.contains('\0'));
                    }
                    return Err(ValidationError::InvalidMessageFormat);
                }
                i = i + 1;
            }
            if len > 1000 {
                return Err(ValidationError::InvalidMessageFormat);
            }
            Ok(())
        },
        None => Ok(()),
    }
}

fn validate_temporal(config: &NetworkValidationConfig, tx: &Transaction, now: i64) -> (r: Result<(), ValidationError>)
    ensures
        r == temporal_check(*config, *tx, now),
{
    let now_s = floor_seconds(now) as i128;
    let tx_s = floor_seconds(tx.timestamp) as i128;
    let max_age = config.transaction_timeout_hours as i128 * 3600;
    if now_s - tx_s > max_age {
        return Err(ValidationError::TransactionTooOld);
    }
    if tx_s > now_s + 300 {
        return Err(ValidationError::TransactionInFuture);
    }
    Ok(())
}

fn validate_signature(tx: &Transaction, public_key: &[u8; 32], now: i64) -> (r: Result<(), ValidationError>)
    ensures
        r == signature_check(*tx, public_key@, now),
{
    if tx.signature.len() == 0 {
        return Err(ValidationError::InvalidSignature);
    }
    match tx.validate_at(public_key, now) {
        Ok(()) => Ok(()),
        Err(_) => Err(ValidationError::InvalidSignature),
    }
}

fn validate_policy(
    config: &NetworkValidationConfig,
    whitelist: &VecMap<Address, ()>,
    blacklist: &VecMap<Address, ()>,
    tx: &Transaction,
) -> (r: Result<(), ValidationError>)
    requires
        whitelist.wf(),
        blacklist.wf(),
    ensures
        match policy_check(*config, whitelist@, blacklist@, *tx) {
            Ok(_) => r is Ok,
            Err(name) => r matches Err(e) && error_name(e) == name,
        },
{
    if config.enable_address_blacklist && (blacklist.contains_key(&tx.from) || blacklist.contains_key(&tx.to)) {
        return Err(ValidationError::BlockedAddress);
    }
    if config.enable_address_whitelist && (!whitelist.contains_key(&tx.from) || !whitelist.contains_key(&tx.to)) {
        return Err(ValidationError::PolicyViolation(text("Address not whitelisted")));
    }
    if config.require_memo_for_large_amounts && tx.amount >= config.large_amount_threshold && tx.message.is_none() {
        return Err(ValidationError::PolicyViolation(text("Large transactions require memo")));
    }
    Ok(())
}

fn calculate_risk_score(
    config: &NetworkValidationConfig,
    trackers: &VecMap<Address, AddressTracker>,
    tx: &Transaction,
    now: i64,
) -> (r: u32)
    requires
        trackers.wf(),
    ensures
        r == risk_score(*config, trackers@, *tx, now),
{
    let mut score: u64 = 0;
    let large = tx.amount > config.large_amount_threshold;
    if large {
        score = score + 20;
    }
    match trackers.get(&tx.from) {
        Some(t) => {
            if (t.first_seen as i128) > (now as i128) - (WEEK_NANOS as i128) {
                score = score + 15;
            }
            if t.transaction_count > 100 {
                score = score + 10;
            }
            score = score + t.risk_flags as u64 * 5;
        },
        None => {
            score = score + 10;
        },
    }
    if tx.from.equals(&tx.to) {
        score = score + 5;
    }
    if large && tx.message.is_none() {
        score = score + 10;
    }
    if score > 100 {
        100
    } else {
        score as u32
    }
}

fn validate_rate_limit(
    config: &NetworkValidationConfig,
    trackers: &mut VecMap<Address, AddressTracker>,
    tx: &Transaction,
    now: i64,
) -> (r: bool)
    requires
        old(trackers).wf(),
    ensures
        final(trackers).wf(),
        (final(trackers)@, r) == rate_limit_step(*config, old(trackers)@, *tx, now),
{
    match trackers.get(&tx.from) {
        Some(t) => {
            let mut t = *t;
            if (t.last_transaction as i128) < (now as i128) - (HOUR_NANOS as i128) {
                t.transaction_count = 0;
            }
            if t.transaction_count >= config.rate_limit_per_address_per_hour {
                trackers.insert(tx.from, t);
                return false;
            }
            t.transaction_count = t.transaction_count + 1;
            t.last_transaction = now;
            t.total_volume = t.total_volume.saturating_add(tx.amount);
            trackers.insert(tx.from, t);
            true
        },
        None => {
            trackers.insert(
                tx.from,
                AddressTracker {
                    address: tx.from,
                    transaction_count: 1,
                    last_transaction: now,
                    total_volume: tx.amount,
                    risk_flags: 0,
                    first_seen: now,
                },
            );
            true
        },
    }
}


/// `a + b`, held at `u64::MAX` where it would pass it.
pub open spec fn sat_add(a: u64, b: u64) -> u64 {
    if a + b > u64::MAX {
        u64::MAX
    } else {
        (a + b) as u64
    }
}

/// The counts after adding one (held at `u64::MAX`) for `key`.
pub open spec fn bumped(m: Map<Seq<char>, u64>, key: Seq<char>) -> Map<Seq<char>, u64> {
    m.insert(key, sat_add(amount_of(m, key), 1))
}

/// The counts after adding one for each key in turn.
pub open spec fn count_keys(m: Map<Seq<char>, u64>, keys: Seq<Seq<char>>) -> Map<Seq<char>, u64>
    decreases keys.len(),
{
    if keys.len() == 0 {
        m
    } else {
        bumped(count_keys(m, keys.drop_last()), keys.last())
    }
}

proof fn lemma_rules_grow(
    o: RuleOutcome,
    rules: Seq<(String, ValidationRule)>,
    config: NetworkValidationConfig,
    whitelist: Map<Seq<u8>, ()>,
    blacklist: Map<Seq<u8>, ()>,
    tx: Transaction,
    balance: u64,
    public_key: Seq<u8>,
    now: i64,
)
    ensures
        apply_rules(o, rules, config, whitelist, blacklist, tx, balance, public_key, now).errors.len()
            <= o.errors.len() + rules.len(),
        apply_rules(o, rules, config, whitelist, blacklist, tx, balance, public_key, now).triggered.len()
            <= o.triggered.len() + rules.len(),
        o.risk <= 100 ==> apply_rules(o, rules, config, whitelist, blacklist, tx, balance, public_key, now).risk
            <= 100,
    decreases rules.len(),
{
    if rules.len() > 0 {
        lemma_rules_grow(o, rules.drop_last(), config, whitelist, blacklist, tx, balance, public_key, now);
    }
}

/// A rule keeps every error found before it, in place.
proof fn lemma_rule_keeps_errors(
    o: RuleOutcome,
    rule: ValidationRule,
    config: NetworkValidationConfig,
    whitelist: Map<Seq<u8>, ()>,
    blacklist: Map<Seq<u8>, ()>,
    tx: Transaction,
    balance: u64,
    public_key: Seq<u8>,
    now: i64,
)
    ensures
        ({
            let e = apply_rule(o, rule, config, whitelist, blacklist, tx, balance, public_key, now).errors;
            &&& o.errors.len() <= e.len()
            &&& forall|j: int| 0 <= j < o.errors.len() ==> #[trigger] e[j] == o.errors[j]
        }),
{
}

/// An enabled balance rule records an insufficient balance whenever the
/// balance is below amount plus fee, and the error stays among the errors.
proof fn lemma_short_balance_recorded(
    o: RuleOutcome,
    rules: Seq<(String, ValidationRule)>,
    config: NetworkValidationConfig,
    whitelist: Map<Seq<u8>, ()>,
    blacklist: Map<Seq<u8>, ()>,
    tx: Transaction,
    balance: u64,
    public_key: Seq<u8>,
    now: i64,
    i: int,
)
    requires
        0 <= i < rules.len(),
        rules[i].1.enabled,
        rules[i].1.rule_type == ValidationRuleType::Balance,
        balance < tx.amount + tx.fee,
    ensures
        apply_rules(o, rules, config, whitelist, blacklist, tx, balance, public_key, now).errors.contains(
            "InsufficientBalance"@,
        ),
    decreases rules.len(),
{
    let prev = apply_rules(o, rules.drop_last(), config, whitelist, blacklist, tx, balance, public_key, now);
    let last = rules.last().1;
    let out = apply_rules(o, rules, config, whitelist, blacklist, tx, balance, public_key, now);
    if i == rules.len() - 1 {
        assert(out.errors == prev.errors.push("InsufficientBalance"@));
        assert(out.errors[prev.errors.len() as int] == "InsufficientBalance"@);
    } else {
        assert(rules.drop_last()[i] == rules[i]);
        lemma_short_balance_recorded(o, rules.drop_last(), config, whitelist, blacklist, tx, balance, public_key, now, i);
        lemma_rule_keeps_errors(prev, last, config, whitelist, blacklist, tx, balance, public_key, now);
        let j = choose|j: int| 0 <= j < prev.errors.len() && prev.errors[j] == "InsufficientBalance"@;
        assert(out.errors[j] == "InsufficientBalance"@);
    }
}

/// The only error named "InsufficientBalance" is the insufficient-balance
/// error.
proof fn lemma_insufficient_balance_name(e: ValidationError)
    requires
        error_name(e) == "InsufficientBalance"@,
    ensures
        e == ValidationError::InsufficientBalance,
{
    reveal_strlit("InsufficientBalance");
    reveal_strlit("InvalidSignature");
    reveal_strlit("InvalidAmount");
    reveal_strlit("InvalidFee");
    reveal_strlit("TransactionTooOld");
    reveal_strlit("TransactionInFuture");
    reveal_strlit("DuplicateTransaction");
    reveal_strlit("InvalidNonce");
    reveal_strlit("ExceedsRateLimit");
    reveal_strlit("BlockedAddress");
    reveal_strlit("InvalidMessageFormat");
    reveal_strlit("ExceedsMaxTransactionSize");
    reveal_strlit("UnsupportedTransactionType");
    reveal_strlit("InvalidTimestamp");
    reveal_strlit("NetworkMismatch");
    reveal_strlit("PolicyViolation(\"");
    match e {
        ValidationError::PolicyViolation(t) => {
            let n = error_name(e);
            assert(n[0] == 'P');
            assert("InsufficientBalance"@[0] == 'I');
        },
        ValidationError::InvalidSignature => {
            assert(error_name(e)[2] != "InsufficientBalance"@[2]);
        },
        ValidationError::InvalidAmount => {
            assert(error_name(e)[2] != "InsufficientBalance"@[2]);
        },
        ValidationError::InvalidFee => {
            assert(error_name(e)[2] != "InsufficientBalance"@[2]);
        },
        ValidationError::InvalidNonce => {
            assert(error_name(e)[2] != "InsufficientBalance"@[2]);
        },
        ValidationError::InvalidMessageFormat => {
            assert(error_name(e)[2] != "InsufficientBalance"@[2]);
        },
        ValidationError::InvalidTimestamp => {
            assert(error_name(e)[2] != "InsufficientBalance"@[2]);
        },
        ValidationError::InsufficientBalance => {},
        _ => {
            assert(error_name(e)[0] != "InsufficientBalance"@[0]);
        },
    }
}

/// Running counts of the validator's work.
#[derive(Debug)]
pub struct ValidationStats {
    pub total_validations: u64,
    pub successful_validations: u64,
    pub failed_validations: u64,
    /// The sum of all validation times, in milliseconds.
    pub total_validation_time_ms: u64,
    /// How often each rule (by id) fired.
    pub rule_trigger_counts: VecMap<String, u64>,
    /// How often each error (by name) occurred.
    pub error_counts: VecMap<String, u64>,
    /// Validations by risk score, in buckets of ten (90 to 100 in the last).
    pub risk_score_distribution: [u64; 10],
}

/// The outcome of validating a transaction.
#[derive(Debug)]
pub struct ValidationResult {
    pub is_valid: bool,
    pub errors: Vec<ValidationError>,
    pub warnings: Vec<String>,
    pub validation_time_ms: u64,
    /// 0 to 100; higher is riskier.
    pub risk_score: u32,
    pub validation_version: String,
}

/// The id, kind and severity of each default rule, in order.
pub open spec fn default_rule(i: int) -> (Seq<char>, ValidationRuleType, ValidationSeverity) {
    if i == 0 {
        ("signature_required"@, ValidationRuleType::Signature, ValidationSeverity::Critical)
    } else if i == 1 {
        ("sufficient_balance"@, ValidationRuleType::Balance, ValidationSeverity::Critical)
    } else if i == 2 {
        ("minimum_fee"@, ValidationRuleType::Balance, ValidationSeverity::Critical)
    } else if i == 3 {
        ("valid_format"@, ValidationRuleType::Format, ValidationSeverity::Critical)
    } else if i == 4 {
        ("temporal_validity"@, ValidationRuleType::Temporal, ValidationSeverity::Critical)
    } else if i == 5 {
        ("rate_limiting"@, ValidationRuleType::RateLimit, ValidationSeverity::Critical)
    } else if i == 6 {
        ("blacklist_check"@, ValidationRuleType::Policy, ValidationSeverity::Critical)
    } else {
        ("risk_assessment"@, ValidationRuleType::Risk, ValidationSeverity::Warning)
    }
}

/// The transaction validator: its rules, what it remembers of addresses and
/// of accepted transactions, its address lists and its statistics.
#[derive(Debug)]
pub struct TransactionValidator {
    config: NetworkValidationConfig,
    rules: VecMap<String, ValidationRule>,
    address_trackers: VecMap<Address, AddressTracker>,
    processed_transactions: VecMap<u128, ()>,
    whitelisted_addresses: VecMap<Address, ()>,
    blacklisted_addresses: VecMap<Address, ()>,
    validation_stats: ValidationStats,
}

fn make_rule(
    id: &str,
    name: &str,
    rule_type: ValidationRuleType,
    severity: ValidationSeverity,
    description: &str,
    now: i64,
) -> (r: ValidationRule)
    ensures
        r.id@ == id@,
        r.name@ == name@,
        r.rule_type == rule_type,
        r.severity == severity,
        r.enabled,
        r.description@ == description@,
        r.parameters@.len() == 0,
        r.created_at == now,
        r.updated_at == now,
{
    ValidationRule {
        id: text(id),
        name: text(name),
        rule_type,
        enabled: true,
        severity,
        description: text(description),
        parameters: Vec::new(),
        created_at: now,
        updated_at: now,
    }
}

/// Whether the entries are the first `k` default rules, in order.
pub open spec fn first_defaults(entries: Seq<(String, ValidationRule)>, k: int) -> bool {
    &&& entries.len() == k
    &&& forall|i: int|
        0 <= i < k ==> {
            let rule = #[trigger] entries[i].1;
            &&& entries[i].0@ == default_rule(i).0
            &&& rule.id@ == default_rule(i).0
            &&& rule.rule_type == default_rule(i).1
            &&& rule.severity == default_rule(i).2
            &&& rule.enabled
        }
}

proof fn lemma_default_ids_distinct(i: int, k: int)
    requires
        0 <= i < k < 8,
    ensures
        default_rule(i).0 != default_rule(k).0,
{
    reveal_strlit("signature_required");
    reveal_strlit("sufficient_balance");
    reveal_strlit("minimum_fee");
    reveal_strlit("valid_format");
    reveal_strlit("temporal_validity");
    reveal_strlit("rate_limiting");
    reveal_strlit("blacklist_check");
    reveal_strlit("risk_assessment");
    if default_rule(i).0 == default_rule(k).0 {
        assert(default_rule(i).0[1] == default_rule(k).0[1]);
        assert(default_rule(i).0[0] == default_rule(k).0[0]);
    }
}

fn add_rule(rules: &mut VecMap<String, ValidationRule>, rule: ValidationRule, Ghost(k): Ghost<int>)
    requires
        old(rules).wf(),
        0 <= k < 8,
        first_defaults(old(rules).entries(), k),
        rule.id@ == default_rule(k).0,
        rule.rule_type == default_rule(k).1,
        rule.severity == default_rule(k).2,
        rule.enabled,
    ensures
        final(rules).wf(),
        first_defaults(final(rules).entries(), k + 1),
{
    let id = rule.id.clone();
    proof {
        if has_key(rules.entries(), id@) {
            let j = choose|j: int| 0 <= j < rules.entries().len() && (#[trigger] rules.entries()[j]).0@ == id@;
            let r = rules.entries()[j].1;
            assert(rules.entries()[j].0@ == default_rule(j).0);
            lemma_default_ids_distinct(j, k);
            assert(false);
        }
    }
    rules.insert(id, rule);
    proof {
        assert forall|i: int| 0 <= i < k + 1 implies {
            let rule = #[trigger] rules.entries()[i].1;
            &&& rules.entries()[i].0@ == default_rule(i).0
            &&& rule.id@ == default_rule(i).0
            &&& rule.rule_type == default_rule(i).1
            &&& rule.severity == default_rule(i).2
            &&& rule.enabled
        } by {
            if i < k {
                assert(rules.entries()[i] == old(rules).entries()[i]);
            }
        }
    }
}

fn increment(m: &mut VecMap<String, u64>, key: String)
    requires
        old(m).wf(),
    ensures
        final(m).wf(),
        final(m)@ == bumped(old(m)@, key@),
{
    let c = match m.get(&key) {
        Some(c) => *c,
        None => 0,
    };
    m.insert(key, c.saturating_add(1));
}

impl ValidationRule {
    /// A copy of the rule.
    pub fn duplicate(&self) -> (r: ValidationRule)
        ensures
            same_rule(r, *self),
    {
        let mut parameters: Vec<(String, String)> = Vec::new();
        let n = self.parameters.len();
        let mut i: usize = 0;
        while i < n
            invariant
                n == self.parameters@.len(),
                i <= n,
                parameters@ == self.parameters@.subrange(0, i as int),
            decreases n - i,
        {
            let (a, b) = &self.parameters[i];
            parameters.push((a.clone(), b.clone()));
            i = i + 1;
            proof {
                assert(parameters@ =~= self.parameters@.subrange(0, i as int));
            }
        }
        proof {
            assert(self.parameters@.subrange(0, n as int) =~= self.parameters@);
        }
        ValidationRule {
            id: self.id.clone(),
            name: self.name.clone(),
            rule_type: self.rule_type,
            enabled: self.enabled,
            severity: self.severity,
            description: self.description.clone(),
            parameters,
            created_at: self.created_at,
            updated_at: self.updated_at,
        }
    }
}

/// Whether two rules hold the same values.
pub open spec fn same_rule(a: ValidationRule, b: ValidationRule) -> bool {
    &&& a.id == b.id
    &&& a.name == b.name
    &&& a.rule_type == b.rule_type
    &&& a.enabled == b.enabled
    &&& a.severity == b.severity
    &&& a.description == b.description
    &&& a.parameters@ == b.parameters@
    &&& a.created_at == b.created_at
    &&& a.updated_at == b.updated_at
}

/// The eight default rules, created at `now`, in the order they are
/// applied: signature, balance, fee, format, time, rate, blacklist and
/// risk.
fn initialize_default_rules(now: i64) -> (r: VecMap<String, ValidationRule>)
    ensures
        r.wf(),
        r.entries().len() == 8,
        forall|i: int|
            0 <= i < 8 ==> {
                let rule = #[trigger] r.entries()[i].1;
                &&& r.entries()[i].0@ == default_rule(i).0
                &&& rule.id@ == default_rule(i).0
                &&& rule.rule_type == default_rule(i).1
                &&& rule.severity == default_rule(i).2
                &&& rule.enabled
            },
{
    let mut rules: VecMap<String, ValidationRule> = VecMap::new();
    add_rule(&mut rules, make_rule("signature_required", "Signature Required", ValidationRuleType::Signature, ValidationSeverity::Critical, "All transactions must have valid signatures", now), Ghost(0));
    add_rule(&mut rules, make_rule("sufficient_balance", "Sufficient Balance", ValidationRuleType::Balance, ValidationSeverity::Critical, "Sender must have sufficient balance for transaction + fee", now), Ghost(1));
    add_rule(&mut rules, make_rule("minimum_fee", "Minimum Fee", ValidationRuleType::Balance, ValidationSeverity::Critical, "Transaction fee must meet minimum requirements", now), Ghost(2));
    add_rule(&mut rules, make_rule("valid_format", "Valid Format", ValidationRuleType::Format, ValidationSeverity::Critical, "Transaction must have valid format and structure", now), Ghost(3));
    add_rule(&mut rules, make_rule("temporal_validity", "Temporal Validity", ValidationRuleType::Temporal, ValidationSeverity::Critical, "Transaction timestamp must be within acceptable range", now), Ghost(4));
    add_rule(&mut rules, make_rule("rate_limiting", "Rate Limiting", ValidationRuleType::RateLimit, ValidationSeverity::Critical, "Addresses must not exceed transaction rate limits", now), Ghost(5));
    add_rule(&mut rules, make_rule("blacklist_check", "Blacklist Check", ValidationRuleType::Policy, ValidationSeverity::Critical, "Transactions involving blacklisted addresses are rejected", now), Ghost(6));
    add_rule(&mut rules, make_rule("risk_assessment", "Risk Assessment", ValidationRuleType::Risk, ValidationSeverity::Warning, "Calculate and assess transaction risk score", now), Ghost(7));
    rules
}

impl TransactionValidator {
    /// The network settings.
    pub closed spec fn config(self) -> NetworkValidationConfig {
        self.config
    }

    /// The rules, by id, in the order in which they are applied.
    pub closed spec fn rule_list(self) -> Seq<(String, ValidationRule)> {
        self.rules.entries()
    }

    /// The rules by id.
    pub closed spec fn rules(self) -> Map<Seq<char>, ValidationRule> {
        self.rules@
    }

    /// What the validator remembers of each address.
    pub closed spec fn trackers(self) -> Map<Seq<u8>, AddressTracker> {
        self.address_trackers@
    }

    /// The ids of the accepted transactions it remembers.
    pub closed spec fn processed(self) -> Map<u128, ()> {
        self.processed_transactions@
    }

    /// The whitelisted addresses.
    pub closed spec fn whitelist(self) -> Map<Seq<u8>, ()> {
        self.whitelisted_addresses@
    }

    /// The blacklisted addresses.
    pub closed spec fn blacklist(self) -> Map<Seq<u8>, ()> {
        self.blacklisted_addresses@
    }

    /// The statistics.
    pub closed spec fn stats(self) -> ValidationStats {
        self.validation_stats
    }

    /// The validator's maps are keyed consistently.
    pub closed spec fn wf(self) -> bool {
        &&& self.rules.wf()
        &&& self.address_trackers.wf()
        &&& self.processed_transactions.wf()
        &&& self.whitelisted_addresses.wf()
        &&& self.blacklisted_addresses.wf()
        &&& self.validation_stats.rule_trigger_counts.wf()
        &&& self.validation_stats.error_counts.wf()
    }

    /// A validator with the default rules, created now.
    pub fn new(config: NetworkValidationConfig) -> (r: TransactionValidator)
        ensures
            r.wf(),
            r.config() == config,
            r.rule_list().len() == 8,
            forall|i: int|
                0 <= i < 8 ==> {
                    let rule = #[trigger] r.rule_list()[i].1;
                    &&& r.rule_list()[i].0@ == default_rule(i).0
                    &&& rule.id@ == default_rule(i).0
                    &&& rule.rule_type == default_rule(i).1
                    &&& rule.severity == default_rule(i).2
                    &&& rule.enabled
                },
            r.trackers() == Map::<Seq<u8>, AddressTracker>::empty(),
            r.processed() == Map::<u128, ()>::empty(),
            r.whitelist() == Map::<Seq<u8>, ()>::empty(),
            r.blacklist() == Map::<Seq<u8>, ()>::empty(),
            r.stats().total_validations == 0,
            r.stats().successful_validations == 0,
            r.stats().failed_validations == 0,
            r.stats().total_validation_time_ms == 0,
            r.stats().rule_trigger_counts@ == Map::<Seq<char>, u64>::empty(),
            r.stats().error_counts@ == Map::<Seq<char>, u64>::empty(),
            forall|i: int| 0 <= i < 10 ==> r.stats().risk_score_distribution@[i] == 0,
    {
        let rules = initialize_default_rules(crate::sys::now_unix_seconds());
        TransactionValidator {
            config,
            rules,
            address_trackers: VecMap::new(),
            processed_transactions: VecMap::new(),
            whitelisted_addresses: VecMap::new(),
            blacklisted_addresses: VecMap::new(),
            validation_stats: ValidationStats {
                total_validations: 0,
                successful_validations: 0,
                failed_validations: 0,
                total_validation_time_ms: 0,
                rule_trigger_counts: VecMap::new(),
                error_counts: VecMap::new(),
                risk_score_distribution: [0u64; 10],
            },
        }
    }
}


/// The outcome before any rule has been applied.
pub open spec fn start_outcome(trackers: Map<Seq<u8>, AddressTracker>) -> RuleOutcome {
    RuleOutcome {
        errors: Seq::empty(),
        warnings: Seq::empty(),
        risk: 0,
        trackers,
        triggered: Seq::empty(),
    }
}

/// The risk bucket a score is counted in.
pub open spec fn risk_bucket(score: u32) -> int {
    if score / 10 > 9 {
        9
    } else {
        (score / 10) as int
    }
}

impl TransactionValidator {
    /// What the validator's rules find for a transaction.
    pub open spec fn rules_outcome(self, tx: Transaction, balance: u64, public_key: Seq<u8>, now: i64) -> RuleOutcome {
        apply_rules(
            start_outcome(self.trackers()),
            self.rule_list(),
            self.config(),
            self.whitelist(),
            self.blacklist(),
            tx,
            balance,
            public_key,
            now,
        )
    }

    /// The error names of a validation: those of the rules, then a
    /// duplicate when the transaction was accepted before.
    pub open spec fn error_names(self, tx: Transaction, balance: u64, public_key: Seq<u8>, now: i64) -> Seq<
        Seq<char>,
    > {
        let o = self.rules_outcome(tx, balance, public_key, now);
        if self.processed().contains_key(tx.id) {
            o.errors.push("DuplicateTransaction"@)
        } else {
            o.errors
        }
    }

    /// Whether an enabled balance rule will run.
    pub open spec fn checks_balance(self) -> bool {
        exists|i: int|
            0 <= i < self.rule_list().len() && (#[trigger] self.rule_list()[i]).1.enabled && self.rule_list()[i].1.rule_type
                == ValidationRuleType::Balance
    }

    fn run_rules(&mut self, tx: &Transaction, balance: u64, public_key: &[u8; 32], now: i64) -> (r: (
        Vec<ValidationError>,
        Vec<String>,
        u32,
        Vec<String>,
    ))
        requires
            old(self).wf(),
            old(self).checks_balance() ==> tx.amount + tx.fee <= u64::MAX,
        ensures
            final(self).wf(),
            ({
                let o = old(self).rules_outcome(*tx, balance, public_key@, now);
                &&& r.0@.len() == o.errors.len()
                &&& forall|j: int| 0 <= j < r.0@.len() ==> error_name(#[trigger] r.0@[j]) == o.errors[j]
                &&& r.1@.len() == o.warnings.len()
                &&& forall|j: int| 0 <= j < r.1@.len() ==> (#[trigger] r.1@[j])@ == o.warnings[j]
                &&& r.2 == o.risk
                &&& r.3@.len() == o.triggered.len()
                &&& forall|j: int| 0 <= j < r.3@.len() ==> (#[trigger] r.3@[j])@ == o.triggered[j]
                &&& final(self).trackers() == o.trackers
            }),
            final(self).config() == old(self).config(),
            final(self).rule_list() == old(self).rule_list(),
            final(self).rules() == old(self).rules(),
            final(self).processed() == old(self).processed(),
            final(self).whitelist() == old(self).whitelist(),
            final(self).blacklist() == old(self).blacklist(),
            final(self).stats() == old(self).stats(),
    {
        let mut errors: Vec<ValidationError> = Vec::new();
        let mut warnings: Vec<String> = Vec::new();
        let mut risk: u32 = 0;
        let mut triggered: Vec<String> = Vec::new();
        let ghost s0 = *self;
        let ghost rl = self.rule_list();
        let ghost cfg = self.config();
        let ghost wl = self.whitelist();
        let ghost bl = self.blacklist();
        let n = self.rules.len();
        let mut i: usize = 0;
        while i < n
            invariant
                n == rl.len(),
                i <= n,
                s0.wf(),
                s0.checks_balance() ==> tx.amount + tx.fee <= u64::MAX,
                rl == s0.rule_list(),
                self.rules == s0.rules,
                self.config == s0.config,
                self.processed_transactions == s0.processed_transactions,
                self.whitelisted_addresses == s0.whitelisted_addresses,
                self.blacklisted_addresses == s0.blacklisted_addresses,
                self.validation_stats == s0.validation_stats,
                cfg == s0.config(),
                wl == s0.whitelist(),
                bl == s0.blacklist(),
                self.address_trackers.wf(),
                ({
                    let o = apply_rules(
                        start_outcome(s0.trackers()),
                        rl.subrange(0, i as int),
                        cfg,
                        wl,
                        bl,
                        *tx,
                        balance,
                        public_key@,
                        now,
                    );
                    &&& errors@.len() == o.errors.len()
                    &&& forall|j: int| 0 <= j < errors@.len() ==> error_name(#[trigger] errors@[j]) == o.errors[j]
                    &&& warnings@.len() == o.warnings.len()
                    &&& forall|j: int| 0 <= j < warnings@.len() ==> (#[trigger] warnings@[j])@ == o.warnings[j]
                    &&& risk == o.risk
                    &&& triggered@.len() == o.triggered.len()
                    &&& forall|j: int| 0 <= j < triggered@.len() ==> (#[trigger] triggered@[j])@ == o.triggered[j]
                    &&& self.address_trackers@ == o.trackers
                }),
            decreases n - i,
        {
            let ghost o = apply_rules(
                start_outcome(s0.trackers()),
                rl.subrange(0, i as int),
                cfg,
                wl,
                bl,
                *tx,
                balance,
                public_key@,
                now,
            );
            let ghost e0 = errors@;
            let ghost w0 = warnings@;
            let ghost t0 = triggered@;
            proof {
                assert(rl.subrange(0, i + 1).drop_last() =~= rl.subrange(0, i as int));
                assert(rl.subrange(0, i + 1).last() == rl[i as int]);
            }
            let (_, rule) = self.rules.entry_at(i);
            if rule.enabled {
                match rule.rule_type {
                    ValidationRuleType::Signature => {
                        match validate_signature(tx, public_key, now) {
                            Err(e) => {
                                errors.push(e);
                                triggered.push(rule.id.clone());
                            },
                            Ok(()) => {},
                        }
                    },
                    ValidationRuleType::Balance => {
                        proof {
                            assert(s0.rule_list()[i as int].1.enabled);
                        }
                        match validate_balance(&self.config, tx, balance) {
                            Err(e) => {
                                errors.push(e);
                                triggered.push(rule.id.clone());
                            },
                            Ok(()) => {},
                        }
                    },
                    ValidationRuleType::Format => {
                        match validate_format(&self.config, tx) {
                            Err(e) => {
                                errors.push(e);
                                triggered.push(rule.id.clone());
                            },
                            Ok(()) => {},
                        }
                    },
                    ValidationRuleType::Temporal => {
                        match validate_temporal(&self.config, tx, now) {
                            Err(e) => {
                                errors.push(e);
                                triggered.push(rule.id.clone());
                            },
                            Ok(()) => {},
                        }
                    },
                    ValidationRuleType::RateLimit => {
                        if !validate_rate_limit(&self.config, &mut self.address_trackers, tx, now) {
                            errors.push(ValidationError::ExceedsRateLimit);
                            triggered.push(rule.id.clone());
                        }
                    },
                    ValidationRuleType::Policy => {
                        match validate_policy(&self.config, &self.whitelisted_addresses, &self.blacklisted_addresses, tx) {
                            Err(e) => {
                                if rule.severity == ValidationSeverity::Critical {
                                    errors.push(e);
                                } else {
                                    let mut w = text("Policy warning: ");
                                    let name = error_name_of(&e);
                                    w.append(name.as_str());
                                    warnings.push(w);
                                }
                                triggered.push(rule.id.clone());
                            },
                            Ok(()) => {},
                        }
                    },
                    ValidationRuleType::Network => {},
                    ValidationRuleType::Risk => {
                        let score = calculate_risk_score(&self.config, &self.address_trackers, tx, now);
                        if score > risk {
                            risk = score;
                        }
                        if score > 80 {
                            let mut w = text("High risk transaction detected (score: ");
                            push_decimal(&mut w, score as u64);
                            w.append(")");
                            warnings.push(w);
                        }
                    },
                }
            }
            proof {
                let o2 = apply_rules(
                    start_outcome(s0.trackers()),
                    rl.subrange(0, i + 1),
                    cfg,
                    wl,
                    bl,
                    *tx,
                    balance,
                    public_key@,
                    now,
                );
                assert(o2 == apply_rule(o, rl[i as int].1, cfg, wl, bl, *tx, balance, public_key@, now));
                assert forall|j: int| 0 <= j < errors@.len() implies error_name(#[trigger] errors@[j]) == o2.errors[j] by {
                    if j < e0.len() {
                        assert(errors@[j] == e0[j]);
                    }
                }
                assert forall|j: int| 0 <= j < warnings@.len() implies (#[trigger] warnings@[j])@ == o2.warnings[j] by {
                    if j < w0.len() {
                        assert(warnings@[j] == w0[j]);
                    }
                }
                assert forall|j: int| 0 <= j < triggered@.len() implies (#[trigger] triggered@[j])@ == o2.triggered[j] by {
                    if j < t0.len() {
                        assert(triggered@[j] == t0[j]);
                    }
                }
            }
            i = i + 1;
        }
        proof {
            assert(rl.subrange(0, n as int) =~= rl);
        }
        (errors, warnings, risk, triggered)
    }
}


fn count_names(m: &mut VecMap<String, u64>, names: &Vec<String>)
    requires
        old(m).wf(),
    ensures
        final(m).wf(),
        final(m)@ == count_keys(old(m)@, names@.map_values(|x: String| x@)),
{
    let ghost m0 = m@;
    let ghost keys = names@.map_values(|x: String| x@);
    let n = names.len();
    let mut i: usize = 0;
    while i < n
        invariant
            n == names@.len(),
            i <= n,
            keys == names@.map_values(|x: String| x@),
            m.wf(),
            m@ == count_keys(m0, keys.subrange(0, i as int)),
        decreases n - i,
    {
        proof {
            assert(keys.subrange(0, i + 1).drop_last() =~= keys.subrange(0, i as int));
            assert(keys.subrange(0, i + 1).last() == names@[i as int]@);
        }
        increment(m, names[i].clone());
        i = i + 1;
    }
    proof {
        assert(keys.subrange(0, n as int) =~= keys);
    }
}

impl TransactionValidator {
    /// What validating `tx` at clock reading `now`, taking `elapsed_ms`,
    /// returns (`r`) and leaves behind (`after`), starting from this
    /// validator: the errors of the enabled rules in order, then a duplicate
    /// error if the id was accepted before; the rules' warnings and risk
    /// score; every statistic counted once more (each held at `u64::MAX`);
    /// and the id remembered when the transaction is valid. The remembered
    /// ids are forgotten once more than 10,000 have piled up.
    pub open spec fn validation_step(
        self,
        after: TransactionValidator,
        tx: Transaction,
        balance: u64,
        public_key: Seq<u8>,
        now: i64,
        elapsed_ms: u64,
        r: ValidationResult,
    ) -> bool {
        let o = self.rules_outcome(tx, balance, public_key, now);
        let names = self.error_names(tx, balance, public_key, now);
        let dup = self.processed().contains_key(tx.id);
        let kept = if !dup && self.processed().dom().len() > 10_000 {
            Map::<u128, ()>::empty()
        } else {
            self.processed()
        };
        let st = self.stats();
        let fst = after.stats();
        let bucket = risk_bucket(o.risk);
        &&& r.is_valid == (names.len() == 0)
        &&& r.errors@.len() == names.len()
        &&& dup ==> r.errors@.last() == ValidationError::DuplicateTransaction
        &&& forall|j: int| 0 <= j < r.errors@.len() ==> error_name(#[trigger] r.errors@[j]) == names[j]
        &&& r.warnings@.len() == o.warnings.len()
        &&& forall|j: int| 0 <= j < r.warnings@.len() ==> (#[trigger] r.warnings@[j])@ == o.warnings[j]
        &&& r.risk_score == o.risk
        &&& r.validation_time_ms == elapsed_ms
        &&& r.validation_version@ == "1.0.0"@
        &&& after.trackers() == o.trackers
        &&& after.processed() == if r.is_valid {
            kept.insert(tx.id, ())
        } else {
            kept
        }
        &&& fst.total_validations == sat_add(st.total_validations, 1)
        &&& fst.successful_validations == if r.is_valid {
            sat_add(st.successful_validations, 1)
        } else {
            st.successful_validations
        }
        &&& fst.failed_validations == if r.is_valid {
            st.failed_validations
        } else {
            sat_add(st.failed_validations, 1)
        }
        &&& fst.total_validation_time_ms == sat_add(st.total_validation_time_ms, elapsed_ms)
        &&& fst.risk_score_distribution@ == st.risk_score_distribution@.update(
            bucket,
            sat_add(st.risk_score_distribution@[bucket], 1),
        )
        &&& fst.error_counts@ == count_keys(st.error_counts@, names)
        &&& fst.rule_trigger_counts@ == count_keys(st.rule_trigger_counts@, o.triggered)
        &&& after.config() == self.config()
        &&& after.rule_list() == self.rule_list()
        &&& after.rules() == self.rules()
        &&& after.whitelist() == self.whitelist()
        &&& after.blacklist() == self.blacklist()
    }

    /// A transaction whose sender's balance is below its amount plus its fee
    /// is refused with an insufficient-balance error by a validator that runs
    /// a balance rule; so a valid result there means the balance covers the
    /// amount and the fee together.
    pub proof fn lemma_balance_covers_amount_and_fee(
        self,
        after: TransactionValidator,
        tx: Transaction,
        balance: u64,
        public_key: Seq<u8>,
        now: i64,
        elapsed_ms: u64,
        r: ValidationResult,
    )
        requires
            self.validation_step(after, tx, balance, public_key, now, elapsed_ms, r),
            self.checks_balance(),
        ensures
            balance < tx.amount + tx.fee ==> !r.is_valid && r.errors@.contains(ValidationError::InsufficientBalance),
            r.is_valid ==> balance >= tx.amount + tx.fee,
    {
        if balance < tx.amount + tx.fee {
            let i = choose|i: int|
                0 <= i < self.rule_list().len() && (#[trigger] self.rule_list()[i]).1.enabled
                    && self.rule_list()[i].1.rule_type == ValidationRuleType::Balance;
            lemma_short_balance_recorded(
                start_outcome(self.trackers()),
                self.rule_list(),
                self.config(),
                self.whitelist(),
                self.blacklist(),
                tx,
                balance,
                public_key,
                now,
                i,
            );
            let o = self.rules_outcome(tx, balance, public_key, now);
            let names = self.error_names(tx, balance, public_key, now);
            let j = choose|j: int| 0 <= j < o.errors.len() && o.errors[j] == "InsufficientBalance"@;
            assert(names[j] == "InsufficientBalance"@);
            assert(error_name(r.errors@[j]) == names[j]);
            lemma_insufficient_balance_name(r.errors@[j]);
            assert(r.errors@.contains(ValidationError::InsufficientBalance));
        }
    }

    /// Once a transaction has been accepted, validating a transaction with
    /// the same id again (with any balance, key and clock) is refused, with
    /// the duplicate error last.
    pub proof fn lemma_accepted_then_duplicate(
        self,
        mid: TransactionValidator,
        after: TransactionValidator,
        tx: Transaction,
        balance: u64,
        public_key: Seq<u8>,
        now: i64,
        elapsed_ms: u64,
        r: ValidationResult,
        again: Transaction,
        balance2: u64,
        public_key2: Seq<u8>,
        now2: i64,
        elapsed_ms2: u64,
        r2: ValidationResult,
    )
        requires
            self.validation_step(mid, tx, balance, public_key, now, elapsed_ms, r),
            r.is_valid,
            again.id == tx.id,
            mid.validation_step(after, again, balance2, public_key2, now2, elapsed_ms2, r2),
        ensures
            !r2.is_valid,
            r2.errors@.len() > 0,
            r2.errors@.last() == ValidationError::DuplicateTransaction,
    {
    }

    /// Validates a transaction against every enabled rule, in order, at
    /// clock reading `now` (Unix nanoseconds), counting `elapsed_ms` as the
    /// time taken. The transaction is valid when no rule and no duplicate
    /// check failed; a valid transaction is remembered as accepted. The
    /// remembered ids are forgotten once more than 10,000 have piled up.
    pub fn validate_transaction_at(
        &mut self,
        transaction: &Transaction,
        sender_balance: u64,
        sender_public_key: &[u8; 32],
        now: i64,
        elapsed_ms: u64,
    ) -> (r: ValidationResult)
        requires
            old(self).wf(),
            old(self).checks_balance() ==> transaction.amount + transaction.fee <= u64::MAX,
        ensures
            final(self).wf(),
            old(self).validation_step(*final(self), *transaction, sender_balance, sender_public_key@, now, elapsed_ms, r),
            r.is_valid == (r.errors@.len() == 0),
            r.risk_score <= 100,
    {
        let ghost s0 = *self;
        let ghost o = s0.rules_outcome(*transaction, sender_balance, sender_public_key@, now);
        let (mut errors, warnings, risk_score, triggered) = self.run_rules(
            transaction,
            sender_balance,
            sender_public_key,
            now,
        );
        proof {
            lemma_rules_grow(
                start_outcome(s0.trackers()),
                s0.rule_list(),
                s0.config(),
                s0.whitelist(),
                s0.blacklist(),
                *transaction,
                sender_balance,
                sender_public_key@,
                now,
            );
        }
        let ghost e0 = errors@;
        let dup = self.processed_transactions.contains_key(&transaction.id);
        if dup {
            errors.push(ValidationError::DuplicateTransaction);
        } else if self.processed_transactions.len() > 10_000 {
            self.processed_transactions = VecMap::new();
        }
        let is_valid = errors.len() == 0;
        let ghost names = s0.error_names(*transaction, sender_balance, sender_public_key@, now);
        proof {
            assert forall|j: int| 0 <= j < errors@.len() implies error_name(#[trigger] errors@[j]) == names[j] by {
                if j < e0.len() {
                    assert(errors@[j] == e0[j]);
                }
            }
        }
        let mut error_names: Vec<String> = Vec::new();
        let ne = errors.len();
        let mut k: usize = 0;
        while k < ne
            invariant
                ne == errors@.len(),
                k <= ne,
                error_names@.len() == k,
                forall|j: int| 0 <= j < k ==> (#[trigger] error_names@[j])@ == error_name(errors@[j]),
            decreases ne - k,
        {
            error_names.push(error_name_of(&errors[k]));
            k = k + 1;
        }
        proof {
            assert(error_names@.map_values(|x: String| x@) =~= names);
            assert(triggered@.map_values(|x: String| x@) =~= o.triggered);
        }
        count_names(&mut self.validation_stats.error_counts, &error_names);
        count_names(&mut self.validation_stats.rule_trigger_counts, &triggered);
        self.validation_stats.total_validations = self.validation_stats.total_validations.saturating_add(1);
        if is_valid {
            self.validation_stats.successful_validations =
                self.validation_stats.successful_validations.saturating_add(1);
        } else {
            self.validation_stats.failed_validations = self.validation_stats.failed_validations.saturating_add(1);
        }
        self.validation_stats.total_validation_time_ms =
            self.validation_stats.total_validation_time_ms.saturating_add(elapsed_ms);
        let bucket: usize = if risk_score / 10 > 9 {
            9
        } else {
            (risk_score / 10) as usize
        };
        let c = self.validation_stats.risk_score_distribution[bucket];
        self.validation_stats.risk_score_distribution[bucket] = c.saturating_add(1);
        if is_valid {
            self.processed_transactions.insert(transaction.id, ());
        }
        ValidationResult {
            is_valid,
            errors,
            warnings,
            validation_time_ms: elapsed_ms,
            risk_score,
            validation_version: text("1.0.0"),
        }
    }

    /// Validates a transaction at the current time, measuring how long the
    /// rules take.
    pub fn validate_transaction(
        &mut self,
        transaction: &Transaction,
        sender_balance: u64,
        sender_public_key: &[u8; 32],
    ) -> (r: ValidationResult)
        requires
            old(self).wf(),
            old(self).checks_balance() ==> transaction.amount + transaction.fee <= u64::MAX,
        ensures
            final(self).wf(),
            r.is_valid == (r.errors@.len() == 0),
            r.risk_score <= 100,
            exists|now: i64, elapsed_ms: u64|
                #[trigger] old(self).validation_step(
                    *final(self),
                    *transaction,
                    sender_balance,
                    sender_public_key@,
                    now,
                    elapsed_ms,
                    r,
                ),
    {
        let start = match crate::sys::now_unix_nanos() {
            Some(n) => n,
            None => 0,
        };
        let ghost s0 = *self;
        let mut r = self.validate_transaction_at(transaction, sender_balance, sender_public_key, start, 0);
        let end = match crate::sys::now_unix_nanos() {
            Some(n) => n,
            None => 0,
        };
        let elapsed_ms: u64 = if end > start {
            ((end as i128 - start as i128) / 1_000_000) as u64
        } else {
            0
        };
        self.validation_stats.total_validation_time_ms =
            self.validation_stats.total_validation_time_ms.saturating_add(elapsed_ms);
        r.validation_time_ms = elapsed_ms;
        proof {
            assert(s0.validation_step(*self, *transaction, sender_balance, sender_public_key@, start, elapsed_ms, r));
        }
        r
    }

    /// Adds (or replaces) a rule, keyed by its id.
    pub fn add_validation_rule(&mut self, rule: ValidationRule)
        requires
            old(self).wf(),
        ensures
            final(self).wf(),
            final(self).rules() == old(self).rules().insert(rule.id@, rule),
            final(self).config() == old(self).config(),
            final(self).trackers() == old(self).trackers(),
            final(self).processed() == old(self).processed(),
            final(self).whitelist() == old(self).whitelist(),
            final(self).blacklist() == old(self).blacklist(),
    {
        let id = rule.id.clone();
        self.rules.insert(id, rule);
    }

    /// Removes a rule; whether it was there.
    pub fn remove_validation_rule(&mut self, rule_id: &str) -> (r: bool)
        requires
            old(self).wf(),
        ensures
            final(self).wf(),
            r == old(self).rules().contains_key(rule_id@),
            final(self).rules() == old(self).rules().remove(rule_id@),
            final(self).config() == old(self).config(),
            final(self).trackers() == old(self).trackers(),
            final(self).processed() == old(self).processed(),
    {
        let key = text(rule_id);
        self.rules.remove(&key).is_some()
    }

    /// Enables or disables a rule, stamping it with the current time;
    /// whether it was there.
    pub fn toggle_validation_rule(&mut self, rule_id: &str, enabled: bool) -> (r: bool)
        requires
            old(self).wf(),
        ensures
            final(self).wf(),
            r == old(self).rules().contains_key(rule_id@),
            !r ==> final(self).rules() == old(self).rules(),
            r ==> {
                let a = old(self).rules()[rule_id@];
                let b = final(self).rules()[rule_id@];
                &&& final(self).rules().contains_key(rule_id@)
                &&& final(self).rules().remove(rule_id@) == old(self).rules().remove(rule_id@)
                &&& b.enabled == enabled
                &&& b.id == a.id
                &&& b.rule_type == a.rule_type
                &&& b.severity == a.severity
                &&& b.created_at == a.created_at
            },
            final(self).rule_list().len() == old(self).rule_list().len(),
            final(self).config() == old(self).config(),
            final(self).trackers() == old(self).trackers(),
            final(self).processed() == old(self).processed(),
    {
        let key = text(rule_id);
        let mut rule = match self.rules.get(&key) {
            Some(r) => r.duplicate(),
            None => {
                return false;
            },
        };
        rule.enabled = enabled;
        rule.updated_at = crate::sys::now_unix_seconds();
        proof {
            self.rules.lemma_contains_has_key(key@);
        }
        self.rules.insert(key, rule);
        proof {
            assert(self.rules().remove(rule_id@) =~= old(self).rules().remove(rule_id@));
        }
        true
    }

    /// Adds an address to the whitelist.
    pub fn whitelist_address(&mut self, address: &Address)
        requires
            old(self).wf(),
        ensures
            final(self).wf(),
            final(self).whitelist() == old(self).whitelist().insert(address@, ()),
            final(self).blacklist() == old(self).blacklist(),
            final(self).rules() == old(self).rules(),
    {
        self.whitelisted_addresses.insert(*address, ());
    }

    /// Adds an address to the blacklist.
    pub fn blacklist_address(&mut self, address: &Address)
        requires
            old(self).wf(),
        ensures
            final(self).wf(),
            final(self).blacklist() == old(self).blacklist().insert(address@, ()),
            final(self).whitelist() == old(self).whitelist(),
            final(self).rules() == old(self).rules(),
    {
        self.blacklisted_addresses.insert(*address, ());
    }

    /// The statistics.
    pub fn get_validation_stats(&self) -> (r: &ValidationStats)
        ensures
            *r == self.stats(),
    {
        &self.validation_stats
    }

    /// Every rule, in the order applied.
    pub fn get_validation_rules(&self) -> (r: Vec<&ValidationRule>)
        requires
            self.wf(),
        ensures
            r@.len() == self.rule_list().len(),
            forall|i: int| 0 <= i < r@.len() ==> *(#[trigger] r@[i]) == self.rule_list()[i].1,
    {
        let n = self.rules.len();
        let mut out: Vec<&ValidationRule> = Vec::new();
        let mut i: usize = 0;
        while i < n
            invariant
                n == self.rule_list().len(),
                i <= n,
                out@.len() == i,
                forall|j: int| 0 <= j < i ==> *(#[trigger] out@[j]) == self.rule_list()[j].1,
            decreases n - i,
        {
            let (_, rule) = self.rules.entry_at(i);
            out.push(rule);
            i = i + 1;
        }
        out
    }
}

} // verus!
