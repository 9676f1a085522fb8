//! The high-throughput transaction pool: pending transactions indexed by
//! sender and nonce and by gas price, with capacity limits, replace-by-fee
//! and nonce-ordered selection of the transactions ready to run.
use vstd::prelude::*;
use vstd::utf8::encode_utf8;
use crate::address::{encode_hex, hex_encode, push_char, Address};
use std::collections::BTreeMap;
use crate::keyorder::{key_order, keys_in_order, lemma_key_order, lowest_key};
use crate::sys::{ed25519_public_key, ed25519_public_key_of, ed25519_verifies, ed25519_verify, now_unix_millis};
use crate::text::{decimal, push_all, push_decimal, push_text, text};
use crate::transaction::{same_transaction, Transaction};
use dashmap::DashMap;
use crate::shared_map::{
    nonce_contents, nonce_map_get, nonce_map_insert, nonce_map_new, nonce_map_remove, pending_contents,
    pending_map_get, pending_map_ids, pending_map_insert, pending_map_len, pending_map_new, pending_map_remove,
};

verus! {

/// The stages a transaction passes through.
#[derive(Debug, Clone, Copy, PartialEq, Eq, Structural)]
pub enum ProcessingStage {
    Received,
    Validated,
    Queued,
    Processing,
    Completed,
    Failed,
}

/// The outcome of running one transaction.
#[derive(Debug)]
pub struct TransactionResult {
    pub transaction_id: u128,
    pub success: bool,
    pub stage: ProcessingStage,
    pub processing_time_ms: u64,
    pub gas_used: u64,
    pub error_message: Option<String>,
    pub block_number: Option<u64>,
}

/// Why running a transaction failed.
#[derive(Debug, Clone, Copy, PartialEq, Eq)]
pub enum ExecutionError {
    /// The sender's balance does not cover the amount and fee.
    InsufficientBalance,
}

/// The balances of sender and receiver after running a transfer: the
/// sender pays the amount and fee, the receiver gets the amount; refused
/// when the sender's balance is short.
pub fn settle_transfer(from_balance: u64, to_balance: u64, amount: u64, fee: u64) -> (r: Result<(u64, u64), ExecutionError>)
    requires
        amount + fee <= u64::MAX,
        from_balance >= amount + fee ==> to_balance + amount <= u64::MAX,
    ensures
        from_balance >= amount + fee ==> r == Ok::<(u64, u64), ExecutionError>(
            ((from_balance - amount - fee) as u64, (to_balance + amount) as u64),
        ),
        from_balance < amount + fee ==> r == Err::<(u64, u64), ExecutionError>(ExecutionError::InsufficientBalance),
{
    if from_balance >= amount + fee {
        Ok((from_balance - amount - fee, to_balance + amount))
    } else {
        Err(ExecutionError::InsufficientBalance)
    }
}

/// How running a transaction ended.
#[derive(Debug)]
pub enum ExecutionOutcome {
    /// It ran.
    Completed,
    /// It failed, for the reason given.
    Failed(String),
    /// It did not finish in time.
    TimedOut,
}

/// The stage a transaction moves to after its batch was validated.
pub fn validated_stage(valid: bool) -> (r: ProcessingStage)
    ensures
        r == (if valid {
            ProcessingStage::Validated
        } else {
            ProcessingStage::Failed
        }),
{
    if valid {
        ProcessingStage::Validated
    } else {
        ProcessingStage::Failed
    }
}

/// The result reported for a transaction that ran for `elapsed_ms`: a
/// completed one succeeds, uses its fee as gas and lands in block 1; a
/// failed or timed-out one uses no gas and carries the reason.
pub fn execution_result(transaction_id: u128, fee: u64, outcome: ExecutionOutcome, elapsed_ms: u64) -> (r: TransactionResult)
    ensures
        r.transaction_id == transaction_id,
        r.processing_time_ms == elapsed_ms,
        outcome is Completed ==> r.success && r.stage == ProcessingStage::Completed && r.gas_used == fee
            && r.error_message is None && r.block_number == Some(1u64),
        outcome matches ExecutionOutcome::Failed(m) ==> !r.success && r.stage == ProcessingStage::Failed
            && r.gas_used == 0 && r.error_message == Some(m) && r.block_number is None,
        outcome is TimedOut ==> !r.success && r.stage == ProcessingStage::Failed && r.gas_used == 0 && (
        r.error_message matches Some(m) && m@ == "Execution timeout"@) && r.block_number is None,
{
    match outcome {
        ExecutionOutcome::Completed => TransactionResult {
            transaction_id,
            success: true,
            stage: ProcessingStage::Completed,
            processing_time_ms: elapsed_ms,
            gas_used: fee,
            error_message: None,
            block_number: Some(1),
        },
        ExecutionOutcome::Failed(m) => TransactionResult {
            transaction_id,
            success: false,
            stage: ProcessingStage::Failed,
            processing_time_ms: elapsed_ms,
            gas_used: 0,
            error_message: Some(m),
            block_number: None,
        },
        ExecutionOutcome::TimedOut => TransactionResult {
            transaction_id,
            success: false,
            stage: ProcessingStage::Failed,
            processing_time_ms: elapsed_ms,
            gas_used: 0,
            error_message: Some(text("Execution timeout")),
            block_number: None,
        },
    }
}

/// The text a transaction's signature is checked against when a batch is
/// validated: sender and receiver in hexadecimal, then amount and nonce in
/// decimal, joined by colons.
pub open spec fn batch_message(tx: Transaction) -> Seq<char> {
    hex_encode(tx.from@) + seq![':'] + hex_encode(tx.to@) + seq![':'] + decimal(tx.amount as nat) + seq![':']
        + decimal(tx.nonce as nat)
}

/// Whether a transaction's signature is 64 bytes and checks out for its
/// batch message under `public_key`.
pub open spec fn batch_signature_checks(tx: Transaction, public_key: Seq<u8>) -> bool {
    tx.signature@.len() == 64 && ed25519_verifies(public_key, encode_utf8(batch_message(tx)), tx.signature@)
}

/// The all-zero secret key.
pub open spec fn zero_secret() -> Seq<u8> {
    Seq::new(32, |i: int| 0u8)
}

/// The bytes of a transaction's batch message.
pub fn batch_signing_message(tx: &Transaction) -> (r: Vec<u8>)
    ensures
        r@ == encode_utf8(batch_message(*tx)),
{
    let mut s = encode_hex(&tx.from.0);
    push_char(&mut s, ':');
    let to_text = encode_hex(&tx.to.0);
    push_text(&mut s, to_text.as_str());
    push_char(&mut s, ':');
    push_decimal(&mut s, tx.amount);
    push_char(&mut s, ':');
    push_decimal(&mut s, tx.nonce);
    proof {
        assert(s@ =~= batch_message(*tx));
    }
    let mut r: Vec<u8> = Vec::new();
    push_all(&mut r, s.as_str().as_bytes());
    r
}

/// The key a sender's batch signatures are checked under: the public key
/// of the all-zero secret, whatever the address.
pub fn get_public_key_for_address(address: &Address) -> (r: [u8; 32])
    ensures
        r@ == ed25519_public_key_of(zero_secret()),
{
    let secret = [0u8; 32];
    proof {
        assert(secret@ =~= zero_secret());
    }
    ed25519_public_key(&secret)
}

/// One verdict per transaction of a batch: whether its signature checks
/// out for its batch message under its sender's key.
pub fn validate_transactions_batch(transactions: &[Transaction]) -> (r: Vec<bool>)
    ensures
        r@.len() == transactions@.len(),
        forall|i: int|
            0 <= i < transactions@.len() ==> r@[i] == batch_signature_checks(
                #[trigger] transactions@[i],
                ed25519_public_key_of(zero_secret()),
            ),
{
    let mut r: Vec<bool> = Vec::new();
    let n = transactions.len();
    let mut i: usize = 0;
    while i < n
        invariant
            n == transactions@.len(),
            i <= n,
            r@.len() == i,
            forall|j: int|
                0 <= j < i ==> r@[j] == batch_signature_checks(
                    #[trigger] transactions@[j],
                    ed25519_public_key_of(zero_secret()),
                ),
        decreases n - i,
    {
        let tx = &transactions[i];
        let key = get_public_key_for_address(&tx.from);
        let verdict = if tx.signature.len() != 64 {
            false
        } else {
            let mut sig = [0u8; 64];
            let mut k: usize = 0;
            while k < 64
                invariant
                    tx.signature@.len() == 64,
                    k <= 64,
                    forall|j: int| 0 <= j < k ==> sig@[j] == tx.signature@[j],
                decreases 64 - k,
            {
                sig[k] = tx.signature[k];
                k = k + 1;
            }
            proof {
                assert(sig@ =~= tx.signature@);
            }
            let message = batch_signing_message(tx);
            ed25519_verify(&key, message.as_slice(), &sig)
        };
        r.push(verdict);
        i = i + 1;
    }
    r
}

/// A pooled transaction with its bookkeeping.
#[derive(Debug)]
pub struct PendingTransaction {
    pub transaction: Transaction,
    /// When it arrived, in milliseconds of the clock the pool is fed.
    pub received_at: u64,
    pub gas_price: u64,
    pub retries: u32,
    pub stage: ProcessingStage,
}

/// Whether two pooled entries hold the same transaction and bookkeeping.
pub open spec fn same_pending(a: PendingTransaction, b: PendingTransaction) -> bool {
    &&& same_transaction(a.transaction, b.transaction)
    &&& a.received_at == b.received_at
    &&& a.gas_price == b.gas_price
    &&& a.retries == b.retries
    &&& a.stage == b.stage
}

impl PendingTransaction {
    /// A copy of the entry.
    pub fn duplicate(&self) -> (r: PendingTransaction)
        ensures
            same_pending(r, *self),
    {
        PendingTransaction {
            transaction: self.transaction.duplicate(),
            received_at: self.received_at,
            gas_price: self.gas_price,
            retries: self.retries,
            stage: self.stage,
        }
    }
}

/// The pool's counters.
#[derive(Debug, Clone, Copy, PartialEq, Eq)]
pub struct PoolStats {
    pub total_received: u64,
    pub total_processed: u64,
    pub total_rejected: u64,
    pub current_pool_size: usize,
}

/// How the transaction processor is set up.
#[derive(Debug, Clone, Copy, PartialEq, Eq)]
pub struct ProcessorConfig {
    pub max_concurrent_transactions: usize,
    pub batch_size: usize,
    pub processing_timeout_ms: u64,
    pub validation_workers: usize,
    pub execution_workers: usize,
    pub enable_parallel_validation: bool,
    pub enable_speculative_execution: bool,
}

impl ProcessorConfig {
    /// The default set-up on a machine with `cpus` processors: a worker per
    /// processor for validation and half as many for execution.
    pub fn for_cpus(cpus: usize) -> (r: ProcessorConfig)
        ensures
            r.max_concurrent_transactions == 1000,
            r.batch_size == 100,
            r.processing_timeout_ms == 5000,
            r.validation_workers == cpus,
            r.execution_workers == cpus / 2,
            r.enable_parallel_validation,
            r.enable_speculative_execution,
    {
        ProcessorConfig {
            max_concurrent_transactions: 1000,
            batch_size: 100,
            processing_timeout_ms: 5000,
            validation_workers: cpus,
            execution_workers: cpus / 2,
            enable_parallel_validation: true,
            enable_speculative_execution: true,
        }
    }
}

/// What a pool holds: its pending transactions by id, each sender's nonces
/// with the id filed under each, and the ids filed under each gas price.
pub struct PoolView {
    pub pending: Map<u128, PendingTransaction>,
    pub nonces: Map<Seq<u8>, Map<u64, u128>>,
    pub gas: Map<u64, Seq<u128>>,
}

/// The ids of a list other than `id`.
pub open spec fn without_id(l: Seq<u128>, id: u128) -> Seq<u128> {
    l.filter(|x: u128| x != id)
}

/// The nonce index after dropping a sender's nonce; a sender left with no
/// nonce is dropped.
pub open spec fn nonces_without(ix: Map<Seq<u8>, Map<u64, u128>>, a: Seq<u8>, n: u64) -> Map<
    Seq<u8>,
    Map<u64, u128>,
> {
    if ix.contains_key(a) {
        let m = ix[a].remove(n);
        if m == Map::<u64, u128>::empty() {
            ix.remove(a)
        } else {
            ix.insert(a, m)
        }
    } else {
        ix
    }
}

/// The gas index after dropping an id from a price's list; a price left
/// with no id is dropped.
pub open spec fn gas_without(g: Map<u64, Seq<u128>>, p: u64, id: u128) -> Map<u64, Seq<u128>> {
    if g.contains_key(p) {
        let l = without_id(g[p], id);
        if l.len() == 0 {
            g.remove(p)
        } else {
            g.insert(p, l)
        }
    } else {
        g
    }
}

/// The pool after removing a transaction: it leaves the pending set, its
/// sender's nonce leaves the nonce index and its id leaves its fee's list.
/// Nothing changes when no transaction has that id.
pub open spec fn without(v: PoolView, id: u128) -> PoolView {
    if v.pending.contains_key(id) {
        let tx = v.pending[id].transaction;
        PoolView {
            pending: v.pending.remove(id),
            nonces: nonces_without(v.nonces, tx.from@, tx.nonce),
            gas: gas_without(v.gas, tx.fee, id),
        }
    } else {
        v
    }
}

/// The pool after filing a pending transaction under its id, its sender's
/// nonce and its gas price (at the end of that price's list).
pub open spec fn with_pending(v: PoolView, p: PendingTransaction) -> PoolView {
    let tx = p.transaction;
    PoolView {
        pending: v.pending.insert(tx.id, p),
        nonces: v.nonces.insert(
            tx.from@,
            if v.nonces.contains_key(tx.from@) {
                v.nonces[tx.from@].insert(tx.nonce, tx.id)
            } else {
                map![tx.nonce => tx.id]
            },
        ),
        gas: v.gas.insert(
            p.gas_price,
            if v.gas.contains_key(p.gas_price) {
                v.gas[p.gas_price].push(tx.id)
            } else {
                seq![tx.id]
            },
        ),
    }
}

/// Whether a pool with these limits takes a transaction: it is not full,
/// and the sender has fewer than `max_per_account` nonces in it.
pub open spec fn admits(v: PoolView, max_pool_size: usize, max_per_account: usize, tx: Transaction) -> bool {
    &&& v.pending.dom().len() < max_pool_size
    &&& v.nonces.contains_key(tx.from@) ==> v.nonces[tx.from@].dom().len() < max_per_account
}

/// Whether a new transaction replaces the one filed under its sender's
/// nonce: that one is gone from the pending set or pays a lower fee.
pub open spec fn replaces(v: PoolView, tx: Transaction) -> bool {
    &&& v.nonces.contains_key(tx.from@)
    &&& v.nonces[tx.from@].contains_key(tx.nonce)
    &&& {
        let old_id = v.nonces[tx.from@][tx.nonce];
        !v.pending.contains_key(old_id) || tx.fee > v.pending[old_id].gas_price
    }
}

/// The pool after taking a transaction that it admits, at clock reading
/// `now`.
pub open spec fn after_add(v: PoolView, tx: Transaction, now: u64) -> PoolView {
    let base = if replaces(v, tx) {
        without(v, v.nonces[tx.from@][tx.nonce])
    } else {
        v
    };
    with_pending(
        base,
        PendingTransaction { transaction: tx, received_at: now, gas_price: tx.fee, retries: 0, stage: ProcessingStage::Received },
    )
}

/// Whether a transaction has its sender's lowest nonce in the pool (any
/// transaction of a sender without nonces qualifies).
pub open spec fn next_nonce_ok(v: PoolView, tx: Transaction) -> bool {
    v.nonces.contains_key(tx.from@) && v.nonces[tx.from@] != Map::<u64, u128>::empty() ==> {
        &&& v.nonces[tx.from@].contains_key(tx.nonce)
        &&& forall|k: u64| #[trigger] v.nonces[tx.from@].contains_key(k) ==> tx.nonce <= k
    }
}

/// Whether a pooled id is ready to run: still received, and next in its
/// sender's nonce order.
pub open spec fn eligible(v: PoolView, id: u128) -> bool {
    &&& v.pending.contains_key(id)
    &&& v.pending[id].stage == ProcessingStage::Received
    &&& next_nonce_ok(v, v.pending[id].transaction)
}

/// The ids of a gas index listed from the highest price down, each price's
/// ids in arrival order.
pub open spec fn ids_by_price(e: Seq<(u64, Seq<u128>)>) -> Seq<u128>
    decreases e.len(),
{
    if e.len() == 0 {
        Seq::empty()
    } else {
        e.last().1 + ids_by_price(e.drop_last())
    }
}

/// The ready ids of a list, in its order.
pub open spec fn ready_ids(v: PoolView, ids: Seq<u128>) -> Seq<u128>
    decreases ids.len(),
{
    if ids.len() == 0 {
        Seq::empty()
    } else {
        (if eligible(v, ids[0]) {
            seq![ids[0]]
        } else {
            Seq::empty()
        }) + ready_ids(v, ids.drop_first())
    }
}

/// Law: a transaction the pool takes is filed under its id as a received
/// transaction at its fee, its sender's nonce names it, and it is the last
/// id at its fee.
pub proof fn lemma_add_files_transaction(v: PoolView, tx: Transaction, now: u64)
    ensures
        ({
            let w = after_add(v, tx, now);
            &&& w.pending.contains_key(tx.id)
            &&& w.pending[tx.id].transaction == tx
            &&& w.pending[tx.id].stage == ProcessingStage::Received
            &&& w.pending[tx.id].gas_price == tx.fee
            &&& w.pending[tx.id].received_at == now
            &&& w.nonces.contains_key(tx.from@)
            &&& w.nonces[tx.from@].contains_key(tx.nonce)
            &&& w.nonces[tx.from@][tx.nonce] == tx.id
            &&& w.gas.contains_key(tx.fee)
            &&& w.gas[tx.fee].last() == tx.id
        }),
{
}

/// Law: removing a transaction leaves no pending transaction under its id
/// and no other pending transaction changed.
pub proof fn lemma_remove_forgets(v: PoolView, id: u128)
    ensures
        !without(v, id).pending.contains_key(id),
        without(v, id).pending == v.pending.remove(id),
{
    if !v.pending.contains_key(id) {
        assert(v.pending.remove(id) =~= v.pending);
    }
}

/// Law: every id handed out as ready is one of the listed ids, still
/// received, and carries its sender's lowest pooled nonce.
pub proof fn lemma_ready_ids_eligible(v: PoolView, ids: Seq<u128>)
    ensures
        forall|i: int|
            0 <= i < ready_ids(v, ids).len() ==> #[trigger] eligible(v, ready_ids(v, ids)[i]) && ids.contains(
                ready_ids(v, ids)[i],
            ),
    decreases ids.len(),
{
    if ids.len() > 0 {
        lemma_ready_ids_eligible(v, ids.drop_first());
        let head = if eligible(v, ids[0]) {
            seq![ids[0]]
        } else {
            Seq::<u128>::empty()
        };
        let tail = ready_ids(v, ids.drop_first());
        assert forall|i: int| 0 <= i < ready_ids(v, ids).len() implies #[trigger] eligible(
            v,
            ready_ids(v, ids)[i],
        ) && ids.contains(ready_ids(v, ids)[i]) by {
            if i < head.len() {
                assert(ready_ids(v, ids)[i] == ids[0]);
            } else {
                assert(ready_ids(v, ids)[i] == tail[i - head.len()]);
                assert(eligible(v, tail[i - head.len()]));
                let k = choose|k: int| 0 <= k < ids.drop_first().len() && ids.drop_first()[k] == tail[i - head.len()];
                assert(ids[k + 1] == tail[i - head.len()]);
            }
        }
    }
}

proof fn lemma_ready_ids_add(v: PoolView, a: Seq<u128>, b: Seq<u128>)
    ensures
        ready_ids(v, a + b) == ready_ids(v, a) + ready_ids(v, b),
    decreases a.len(),
{
    if a.len() == 0 {
        assert(a + b =~= b);
        assert(ready_ids(v, a) + ready_ids(v, b) =~= ready_ids(v, b));
    } else {
        lemma_ready_ids_add(v, a.drop_first(), b);
        assert((a + b).drop_first() =~= a.drop_first() + b);
        assert((a + b)[0] == a[0]);
        let head = if eligible(v, a[0]) {
            seq![a[0]]
        } else {
            Seq::<u128>::empty()
        };
        assert(head + (ready_ids(v, a.drop_first()) + ready_ids(v, b)) =~= (head + ready_ids(
            v,
            a.drop_first(),
        )) + ready_ids(v, b));
    }
}

proof fn lemma_ready_ids_step(v: PoolView, l: Seq<u128>, j: int)
    requires
        0 <= j < l.len(),
    ensures
        ready_ids(v, l.skip(j)) == (if eligible(v, l[j]) {
            seq![l[j]]
        } else {
            Seq::<u128>::empty()
        }) + ready_ids(v, l.skip(j + 1)),
{
    assert(l.skip(j).drop_first() =~= l.skip(j + 1));
    assert(l.skip(j)[0] == l[j]);
}

/// Whether a pending transaction is older than `max_age` at clock reading
/// `now` (an arrival after `now` counts as age zero).
pub open spec fn expired(p: PendingTransaction, now: u64, max_age: u64) -> bool {
    now >= p.received_at && now - p.received_at > max_age
}

/// The ids of the expired entries, in entry order.
pub open spec fn expired_ids(es: Seq<(u128, PendingTransaction)>, now: u64, max_age: u64) -> Seq<u128>
    decreases es.len(),
{
    if es.len() == 0 {
        Seq::empty()
    } else {
        expired_ids(es.drop_last(), now, max_age) + if expired(es.last().1, now, max_age) {
            seq![es.last().0]
        } else {
            Seq::<u128>::empty()
        }
    }
}

/// Whether `order` lists each pooled id once.
pub open spec fn orders(v: PoolView, order: Seq<u128>) -> bool {
    &&& order.no_duplicates()
    &&& forall|id: u128| #[trigger] order.contains(id) <==> v.pending.contains_key(id)
}

/// The pooled entries, taken in the order of `order`.
pub open spec fn entries_in(v: PoolView, order: Seq<u128>) -> Seq<(u128, PendingTransaction)> {
    order.map_values(|id: u128| (id, v.pending[id]))
}

/// The pool after removing each of the ids in turn.
pub open spec fn without_all(v: PoolView, ids: Seq<u128>) -> PoolView
    decreases ids.len(),
{
    if ids.len() == 0 {
        v
    } else {
        without(without_all(v, ids.drop_last()), ids.last())
    }
}

/// Whether the keys of `s` increase strictly from entry to entry.
pub open spec fn increasing_keys<V>(s: Seq<(u64, V)>) -> bool {
    forall|i: int, j: int| 0 <= i < j < s.len() ==> (#[trigger] s[i]).0 < (#[trigger] s[j]).0
}

/// The pool of pending transactions.
#[derive(Debug)]
pub struct TransactionPool {
    pending: DashMap<u128, PendingTransaction>,
    by_nonce: DashMap<Address, BTreeMap<u64, u128>>,
    by_gas_price: BTreeMap<u64, Vec<u128>>,
    max_pool_size: usize,
    max_per_account: usize,
    stats: PoolStats,
}

impl TransactionPool {
    /// What the pool holds.
    pub closed spec fn view_of(self) -> PoolView {
        PoolView {
            pending: pending_contents(self.pending),
            nonces: nonce_contents(self.by_nonce),
            gas: Map::new(|p: u64| self.by_gas_price@.contains_key(p), |p: u64| self.by_gas_price@[p]@),
        }
    }

    /// The gas index's prices in increasing order, each with its ids.
    pub closed spec fn gas_order(self) -> Seq<(u64, Seq<u128>)> {
        key_order(self.by_gas_price@).map_values(|k: u64| (k, self.by_gas_price@[k]@))
    }

    /// The ready ids in the order they are handed out.
    pub open spec fn ready_order(self) -> Seq<u128> {
        ready_ids(self.view_of(), ids_by_price(self.gas_order()))
    }

    /// The most transactions the pool holds.
    pub closed spec fn capacity(self) -> usize {
        self.max_pool_size
    }

    /// The most nonces one sender may have in the pool.
    pub closed spec fn per_account(self) -> usize {
        self.max_per_account
    }

    /// The pool's counters as kept.
    pub closed spec fn counters(self) -> PoolStats {
        self.stats
    }

    /// The indexes are well formed.
    pub closed spec fn wf(self) -> bool {
        &&& pending_contents(self.pending).dom().finite()
    }

    /// The gas order lists each price of the gas index once, in increasing
    /// order, with its ids.
    pub proof fn lemma_gas_order(self)
        requires
            self.wf(),
        ensures
            increasing_keys(self.gas_order()),
            forall|i: int|
                0 <= i < self.gas_order().len() ==> #[trigger] self.view_of().gas.contains_key(
                    self.gas_order()[i].0,
                ) && self.view_of().gas[self.gas_order()[i].0] == self.gas_order()[i].1,
            forall|p: u64| #[trigger]
                self.view_of().gas.contains_key(p) ==> exists|i: int|
                    0 <= i < self.gas_order().len() && (#[trigger] self.gas_order()[i]).0 == p,
    {
        lemma_key_order(self.by_gas_price);
        let e = key_order(self.by_gas_price@);
        let o = self.gas_order();
        assert forall|i: int, j: int| 0 <= i < j < o.len() implies (#[trigger] o[i]).0 < (#[trigger] o[j]).0 by {
            assert(e[i] < e[j]);
        }
        assert forall|i: int| 0 <= i < o.len() implies #[trigger] self.view_of().gas.contains_key(o[i].0)
            && self.view_of().gas[o[i].0] == o[i].1 by {
            assert(self.by_gas_price@.contains_key(e[i]));
        }
        assert forall|p: u64| #[trigger] self.view_of().gas.contains_key(p) implies exists|i: int|
            0 <= i < o.len() && (#[trigger] o[i]).0 == p by {
            assert(self.by_gas_price@.contains_key(p));
            let i = choose|i: int| 0 <= i < e.len() && e[i] == p;
            assert(o[i].0 == p);
        }
    }

    /// An empty pool with these limits.
    pub fn new(max_pool_size: usize, max_per_account: usize) -> (r: TransactionPool)
        ensures
            r.wf(),
            r.view_of().pending == Map::<u128, PendingTransaction>::empty(),
            r.view_of().nonces == Map::<Seq<u8>, Map<u64, u128>>::empty(),
            r.view_of().gas == Map::<u64, Seq<u128>>::empty(),
            r.capacity() == max_pool_size,
            r.per_account() == max_per_account,
            r.counters() == (PoolStats { total_received: 0, total_processed: 0, total_rejected: 0, current_pool_size: 0 }),
    {
        let r = TransactionPool {
            pending: pending_map_new(),
            by_nonce: nonce_map_new(),
            by_gas_price: BTreeMap::new(),
            max_pool_size,
            max_per_account,
            stats: PoolStats { total_received: 0, total_processed: 0, total_rejected: 0, current_pool_size: 0 },
        };
        assert(r.view_of().nonces =~= Map::<Seq<u8>, Map<u64, u128>>::empty());
        assert(r.view_of().gas =~= Map::<u64, Seq<u128>>::empty());
        r
    }

    fn without_id_vec(l: &Vec<u128>, id: u128) -> (r: Vec<u128>)
        ensures
            r@ == without_id(l@, id),
    {
        let mut r: Vec<u128> = Vec::new();
        let n = l.len();
        let mut j: usize = 0;
        while j < n
            invariant
                n == l@.len(),
                j <= n,
                r@ == without_id(l@.take(j as int), id),
            decreases n - j,
        {
            proof {
                reveal(Seq::filter);
                assert(l@.take(j + 1).drop_last() =~= l@.take(j as int));
                assert(l@.take(j + 1).last() == l@[j as int]);
            }
            if l[j] != id {
                r.push(l[j]);
            }
            j = j + 1;
        }
        proof {
            assert(l@.take(n as int) =~= l@);
        }
        r
    }

    proof fn lemma_empty_map(m: BTreeMap<u64, u128>)
        requires
            m@.len() == 0,
        ensures
            m@ == Map::<u64, u128>::empty(),
    {
        assert(m@.dom().finite());
        assert(m@ =~= Map::<u64, u128>::empty()) by {
            assert forall|k: u64| !m@.contains_key(k) by {
                if m@.contains_key(k) {
                    assert(m@.dom().remove(k).len() + 1 == m@.dom().len());
                }
            }
        }
    }

    fn remove_internal(&mut self, tx_id: u128) -> (r: Option<Transaction>)
        requires
            old(self).wf(),
        ensures
            final(self).wf(),
            final(self).view_of() == without(old(self).view_of(), tx_id),
            final(self).capacity() == old(self).capacity(),
            final(self).per_account() == old(self).per_account(),
            !old(self).view_of().pending.contains_key(tx_id) ==> r is None && final(self).counters() == old(
                self,
            ).counters(),
            old(self).view_of().pending.contains_key(tx_id) ==> r == Some(
                old(self).view_of().pending[tx_id].transaction,
            ) && final(self).counters() == (PoolStats {
                current_pool_size: final(self).view_of().pending.dom().len() as usize,
                ..old(self).counters()
            }),
    {
        let ghost v0 = self.view_of();
        match pending_map_remove(&mut self.pending, tx_id) {
            None => {
                proof {
                    assert(self.view_of().pending =~= v0.pending);
                    assert(self.view_of().nonces =~= v0.nonces);
                    assert(self.view_of().gas =~= v0.gas);
                }
                None
            },
            Some(p) => {
                let tx = p.transaction;
                match nonce_map_remove(&mut self.by_nonce, &tx.from) {
                    Some(mut m) => {
                        let _ = m.remove(&tx.nonce);
                        if m.len() > 0 {
                            nonce_map_insert(&mut self.by_nonce, tx.from, m);
                        } else {
                            proof {
                                Self::lemma_empty_map(m);
                            }
                        }
                    },
                    None => {},
                }
                proof {
                    assert(self.view_of().nonces =~= nonces_without(v0.nonces, tx.from@, tx.nonce));
                }
                match self.by_gas_price.remove(&tx.fee) {
                    Some(list) => {
                        let kept = Self::without_id_vec(&list, tx_id);
                        if kept.len() > 0 {
                            let _ = self.by_gas_price.insert(tx.fee, kept);
                        }
                    },
                    None => {},
                }
                proof {
                    assert(self.view_of().gas =~= gas_without(v0.gas, tx.fee, tx_id));
                    assert(self.view_of().pending =~= v0.pending.remove(tx_id));
                }
                self.stats.current_pool_size = pending_map_len(&self.pending);
                Some(tx)
            },
        }
    }

    /// Takes a transaction at clock reading `now_ms` (milliseconds). Refused
    /// (false, nothing changed) when the pool is full or the sender already
    /// has `max_per_account` nonces in it. A transaction whose sender nonce
    /// is already filed replaces the one filed there when that one is gone
    /// or pays a lower fee; either way the new one is filed under the nonce.
    pub fn add_transaction_at(&mut self, transaction: Transaction, now_ms: u64) -> (r: bool)
        requires
            old(self).wf(),
            old(self).counters().total_received < u64::MAX,
        ensures
            final(self).wf(),
            final(self).capacity() == old(self).capacity(),
            final(self).per_account() == old(self).per_account(),
            r == admits(old(self).view_of(), old(self).capacity(), old(self).per_account(), transaction),
            !r ==> *final(self) == *old(self),
            r ==> final(self).view_of() == after_add(old(self).view_of(), transaction, now_ms),
            r ==> final(self).counters() == (PoolStats {
                total_received: (old(self).counters().total_received + 1) as u64,
                current_pool_size: final(self).view_of().pending.dom().len() as usize,
                ..old(self).counters()
            }),
    {
        let ghost v0 = self.view_of();
        if pending_map_len(&self.pending) >= self.max_pool_size {
            return false;
        }
        match nonce_map_get(&self.by_nonce, &transaction.from) {
            Some(m) => {
                if m.len() >= self.max_per_account {
                    return false;
                }
            },
            None => {},
        }
        let mut existing: u128 = 0;
        let replace = match nonce_map_get(&self.by_nonce, &transaction.from) {
            Some(m) => match m.get(&transaction.nonce) {
                Some(ex) => {
                    existing = *ex;
                    match pending_map_get(&self.pending, *ex) {
                        Some(p) => transaction.fee > p.gas_price,
                        None => true,
                    }
                },
                None => false,
            },
            None => false,
        };
        proof {
            assert(replace == replaces(v0, transaction));
        }
        if replace {
            let _ = self.remove_internal(existing);
        }
        let ghost v1 = self.view_of();
        proof {
            assert(v1 == (if replaces(v0, transaction) {
                without(v0, v0.nonces[transaction.from@][transaction.nonce])
            } else {
                v0
            }));
        }
        let id = transaction.id;
        let from = transaction.from;
        let nonce = transaction.nonce;
        let fee = transaction.fee;
        let ghost p = PendingTransaction {
            transaction,
            received_at: now_ms,
            gas_price: fee,
            retries: 0,
            stage: ProcessingStage::Received,
        };
        pending_map_insert(
            &mut self.pending,
            id,
            PendingTransaction {
                transaction,
                received_at: now_ms,
                gas_price: fee,
                retries: 0,
                stage: ProcessingStage::Received,
            },
        );
        let mut m = match nonce_map_remove(&mut self.by_nonce, &from) {
            Some(m) => m,
            None => BTreeMap::new(),
        };
        let _ = m.insert(nonce, id);
        nonce_map_insert(&mut self.by_nonce, from, m);
        let mut l = match self.by_gas_price.remove(&fee) {
            Some(l) => l,
            None => Vec::new(),
        };
        l.push(id);
        let _ = self.by_gas_price.insert(fee, l);
        proof {
            let w = with_pending(v1, p);
            assert(self.view_of().pending =~= w.pending);
            assert(self.view_of().nonces =~= w.nonces);
            assert(self.view_of().gas =~= w.gas);
        }
        self.stats.total_received = self.stats.total_received + 1;
        self.stats.current_pool_size = pending_map_len(&self.pending);
        true
    }

    /// Takes a transaction at the current time (see `add_transaction_at`).
    pub fn add_transaction(&mut self, transaction: Transaction) -> (r: bool)
        requires
            old(self).wf(),
            old(self).counters().total_received < u64::MAX,
        ensures
            final(self).wf(),
            final(self).capacity() == old(self).capacity(),
            final(self).per_account() == old(self).per_account(),
            r == admits(old(self).view_of(), old(self).capacity(), old(self).per_account(), transaction),
            !r ==> *final(self) == *old(self),
            r ==> exists|now: u64| #[trigger] after_add(old(self).view_of(), transaction, now) == final(self).view_of(),
            r ==> final(self).counters() == (PoolStats {
                total_received: (old(self).counters().total_received + 1) as u64,
                current_pool_size: final(self).view_of().pending.dom().len() as usize,
                ..old(self).counters()
            }),
    {
        let now = now_unix_millis();
        let now_ms: u64 = if now < 0 {
            0
        } else {
            now as u64
        };
        self.add_transaction_at(transaction, now_ms)
    }

    fn is_next_nonce(&self, tx: &Transaction) -> (r: bool)
        requires
            self.wf(),
        ensures
            r == next_nonce_ok(self.view_of(), *tx),
    {
        match nonce_map_get(&self.by_nonce, &tx.from) {
            Some(m) => match lowest_key(&m) {
                Some(k) => tx.nonce == k,
                None => true,
            },
            None => true,
        }
    }

    /// Up to `limit` transactions ready to run: the ids from the highest gas
    /// price down, each price's in arrival order, that are still received
    /// and carry their sender's lowest pooled nonce.
    pub fn get_ready_transactions(&self, limit: usize) -> (r: Vec<Transaction>)
        requires
            self.wf(),
        ensures
            r@.len() == (if limit < self.ready_order().len() {
                limit as int
            } else {
                self.ready_order().len() as int
            }),
            forall|i: int|
                0 <= i < r@.len() ==> same_transaction(
                    #[trigger] r@[i],
                    self.view_of().pending[self.ready_order()[i]].transaction,
                ),
    {
        let ghost v = self.view_of();
        let ghost e = self.gas_order();
        let ghost full = ready_ids(v, ids_by_price(e));
        let mut out: Vec<Transaction> = Vec::new();
        let ghost mut acc: Seq<u128> = Seq::empty();
        if limit == 0 {
            return out;
        }
        let prices = keys_in_order(&self.by_gas_price);
        let n = prices.len();
        proof {
            assert(e.take(n as int) =~= e);
            assert(acc + full =~= full);
        }
        let mut i: usize = n;
        while i > 0
            invariant
                self.wf(),
                v == self.view_of(),
                e == self.gas_order(),
                full == ready_ids(v, ids_by_price(e)),
                n == e.len(),
                prices@ == key_order(self.by_gas_price@),
                i <= n,
                out@.len() == acc.len(),
                out@.len() < limit,
                acc + ready_ids(v, ids_by_price(e.take(i as int))) == full,
                forall|k: int|
                    0 <= k < out@.len() ==> same_transaction(#[trigger] out@[k], v.pending[acc[k]].transaction),
            decreases i,
        {
            let price = prices[i - 1];
            let ids = match self.by_gas_price.get(&price) {
                Some(ids) => ids,
                None => {
                    proof {
                        lemma_key_order(self.by_gas_price);
                    }
                    return out;
                },
            };
            let ghost l = ids@;
            proof {
                assert(e.take(i as int).drop_last() =~= e.take(i - 1));
                assert(e.take(i as int).last() == e[i - 1]);
                assert(e[i - 1].1 == l);
                lemma_ready_ids_add(v, l, ids_by_price(e.take(i - 1)));
                assert(l.skip(0) =~= l);
            }
            let m = ids.len();
            let mut j: usize = 0;
            while j < m
                invariant
                    self.wf(),
                    v == self.view_of(),
                    e == self.gas_order(),
                    full == ready_ids(v, ids_by_price(e)),
                    m == l.len(),
                    l == ids@,
                    j <= m,
                    out@.len() == acc.len(),
                    out@.len() < limit,
                    acc + ready_ids(v, l.skip(j as int)) + ready_ids(v, ids_by_price(e.take(i - 1))) == full,
                    forall|k: int|
                        0 <= k < out@.len() ==> same_transaction(#[trigger] out@[k], v.pending[acc[k]].transaction),
                decreases m - j,
            {
                let id = ids[j];
                proof {
                    lemma_ready_ids_step(v, l, j as int);
                }
                let ghost before = acc;
                let mut taken = false;
                match pending_map_get(&self.pending, id) {
                    Some(p) => {
                        if p.stage == ProcessingStage::Received && self.is_next_nonce(&p.transaction) {
                            out.push(p.transaction.duplicate());
                            taken = true;
                        }
                    },
                    None => {},
                }
                proof {
                    if taken {
                        acc = acc.push(id);
                        assert(eligible(v, id));
                        assert(acc =~= before + seq![id]);
                    } else {
                        assert(!eligible(v, id));
                    }
                    let head = if eligible(v, id) {
                        seq![id]
                    } else {
                        Seq::<u128>::empty()
                    };
                    assert(before + (head + ready_ids(v, l.skip(j + 1))) + ready_ids(
                        v,
                        ids_by_price(e.take(i - 1)),
                    ) =~= acc + ready_ids(v, l.skip(j + 1)) + ready_ids(v, ids_by_price(e.take(i - 1))));
                }
                j = j + 1;
                if out.len() >= limit {
                    proof {
                        let rest = ready_ids(v, l.skip(j as int)) + ready_ids(v, ids_by_price(e.take(i - 1)));
                        assert(acc + rest =~= full);
                        assert forall|k: int| 0 <= k < acc.len() implies full[k] == acc[k] by {
                            assert((acc + rest)[k] == acc[k]);
                        }
                        assert forall|k: int| 0 <= k < out@.len() implies same_transaction(
                            #[trigger] out@[k],
                            self.view_of().pending[full[k]].transaction,
                        ) by {
                            assert(full[k] == acc[k]);
                        }
                    }
                    return out;
                }
            }
            proof {
                assert(l.skip(m as int) =~= Seq::<u128>::empty());
                assert(ready_ids(v, l.skip(m as int)) =~= Seq::<u128>::empty());
                assert(acc + ready_ids(v, l.skip(m as int)) + ready_ids(v, ids_by_price(e.take(i - 1)))
                    =~= acc + ready_ids(v, ids_by_price(e.take(i - 1))));
            }
            i = i - 1;
        }
        proof {
            assert(e.take(0) =~= Seq::<(u64, Seq<u128>)>::empty());
            assert(ids_by_price(e.take(0)) =~= Seq::<u128>::empty());
            assert(ready_ids(v, Seq::<u128>::empty()) =~= Seq::<u128>::empty());
            assert(acc + Seq::<u128>::empty() =~= acc);
            assert(acc =~= full);
            assert forall|k: int| 0 <= k < out@.len() implies same_transaction(
                #[trigger] out@[k],
                self.view_of().pending[full[k]].transaction,
            ) by {
                assert(full[k] == acc[k]);
            }
        }
        out
    }

    /// Removes a transaction and hands it back, if it was pooled.
    pub fn remove_transaction(&mut self, tx_id: u128) -> (r: Option<Transaction>)
        requires
            old(self).wf(),
        ensures
            final(self).wf(),
            final(self).view_of() == without(old(self).view_of(), tx_id),
            final(self).capacity() == old(self).capacity(),
            final(self).per_account() == old(self).per_account(),
            !old(self).view_of().pending.contains_key(tx_id) ==> r is None,
            old(self).view_of().pending.contains_key(tx_id) ==> r == Some(
                old(self).view_of().pending[tx_id].transaction,
            ),
    {
        self.remove_internal(tx_id)
    }

    /// The stage of a pooled transaction, if it is pooled.
    pub fn stage_of(&self, tx_id: u128) -> (r: Option<ProcessingStage>)
        requires
            self.wf(),
        ensures
            r == (if self.view_of().pending.contains_key(tx_id) {
                Some(self.view_of().pending[tx_id].stage)
            } else {
                None::<ProcessingStage>
            }),
    {
        match pending_map_get(&self.pending, tx_id) {
            Some(p) => Some(p.stage),
            None => None,
        }
    }

    /// Sets the stage of a pooled transaction; whether it was pooled.
    pub fn update_transaction_stage(&mut self, tx_id: u128, stage: ProcessingStage) -> (r: bool)
        requires
            old(self).wf(),
        ensures
            final(self).wf(),
            r == old(self).view_of().pending.contains_key(tx_id),
            final(self).capacity() == old(self).capacity(),
            final(self).per_account() == old(self).per_account(),
            final(self).counters() == old(self).counters(),
            final(self).view_of().nonces == old(self).view_of().nonces,
            final(self).view_of().gas == old(self).view_of().gas,
            final(self).gas_order() == old(self).gas_order(),
            !r ==> final(self).view_of().pending == old(self).view_of().pending,
            r ==> final(self).view_of().pending == old(self).view_of().pending.insert(
                tx_id,
                PendingTransaction { stage, ..old(self).view_of().pending[tx_id] },
            ),
    {
        let ghost v0 = self.view_of();
        match pending_map_remove(&mut self.pending, tx_id) {
            Some(p) => {
                let PendingTransaction { transaction, received_at, gas_price, retries, stage: _ } = p;
                pending_map_insert(
                    &mut self.pending,
                    tx_id,
                    PendingTransaction { transaction, received_at, gas_price, retries, stage },
                );
                proof {
                    assert(self.view_of().pending =~= v0.pending.insert(
                        tx_id,
                        PendingTransaction { stage, ..v0.pending[tx_id] },
                    ));
                    assert(self.view_of().nonces =~= v0.nonces);
                    assert(self.view_of().gas =~= v0.gas);
                }
                true
            },
            None => {
                proof {
                    assert(self.view_of().pending =~= v0.pending);
                    assert(self.view_of().nonces =~= v0.nonces);
                    assert(self.view_of().gas =~= v0.gas);
                }
                false
            },
        }
    }

    /// Removes the transactions older than `max_age_ms` at clock reading
    /// `now_ms`; how many there were.
    pub fn cleanup_expired_at(&mut self, now_ms: u64, max_age_ms: u64) -> (r: usize)
        requires
            old(self).wf(),
        ensures
            final(self).wf(),
            exists|order: Seq<u128>|
                #[trigger] orders(old(self).view_of(), order) && r == expired_ids(
                    entries_in(old(self).view_of(), order),
                    now_ms,
                    max_age_ms,
                ).len() && final(self).view_of() == without_all(
                    old(self).view_of(),
                    expired_ids(entries_in(old(self).view_of(), order), now_ms, max_age_ms),
                ),
            final(self).capacity() == old(self).capacity(),
            final(self).per_account() == old(self).per_account(),
            final(self).counters().total_received == old(self).counters().total_received,
            final(self).counters().total_processed == old(self).counters().total_processed,
            final(self).counters().total_rejected == old(self).counters().total_rejected,
    {
        let ghost v0 = self.view_of();
        let order = pending_map_ids(&self.pending);
        let ghost es = entries_in(v0, order@);
        let mut ids: Vec<u128> = Vec::new();
        let n = order.len();
        let mut i: usize = 0;
        while i < n
            invariant
                self.wf(),
                v0 == self.view_of(),
                es == entries_in(v0, order@),
                n == es.len(),
                n == order@.len(),
                i <= n,
                forall|id: u128| #[trigger] order@.contains(id) <==> v0.pending.contains_key(id),
                ids@ == expired_ids(es.take(i as int), now_ms, max_age_ms),
            decreases n - i,
        {
            let id = order[i];
            proof {
                assert(es.take(i + 1).drop_last() =~= es.take(i as int));
                assert(es.take(i + 1).last() == es[i as int]);
                assert(order@.contains(id));
            }
            match pending_map_get(&self.pending, id) {
                Some(p) => {
                    if now_ms >= p.received_at && now_ms - p.received_at > max_age_ms {
                        ids.push(id);
                    }
                },
                None => {},
            }
            i = i + 1;
        }
        proof {
            assert(es.take(n as int) =~= es);
            assert(orders(v0, order@));
        }
        let ghost all = ids@;
        let count = ids.len();
        let mut k: usize = 0;
        while k < count
            invariant
                self.wf(),
                count == all.len(),
                all == ids@,
                k <= count,
                self.view_of() == without_all(v0, all.take(k as int)),
                self.capacity() == old(self).capacity(),
                self.per_account() == old(self).per_account(),
                self.counters().total_received == old(self).counters().total_received,
                self.counters().total_processed == old(self).counters().total_processed,
                self.counters().total_rejected == old(self).counters().total_rejected,
            decreases count - k,
        {
            proof {
                assert(all.take(k + 1).drop_last() =~= all.take(k as int));
                assert(all.take(k + 1).last() == all[k as int]);
            }
            let _ = self.remove_internal(ids[k]);
            k = k + 1;
        }
        proof {
            assert(all.take(count as int) =~= all);
        }
        count
    }

    /// Removes the transactions older than `max_age_ms` milliseconds at the
    /// current time; how many there were.
    pub fn cleanup_expired(&mut self, max_age_ms: u64) -> (r: usize)
        requires
            old(self).wf(),
        ensures
            final(self).wf(),
            exists|now: u64, order: Seq<u128>|
                #![trigger expired_ids(entries_in(old(self).view_of(), order), now, max_age_ms)]
                orders(old(self).view_of(), order) && r == expired_ids(
                    entries_in(old(self).view_of(), order),
                    now,
                    max_age_ms,
                ).len() && final(self).view_of() == without_all(
                    old(self).view_of(),
                    expired_ids(entries_in(old(self).view_of(), order), now, max_age_ms),
                ),
    {
        let now = now_unix_millis();
        let now_ms: u64 = if now < 0 {
            0
        } else {
            now as u64
        };
        self.cleanup_expired_at(now_ms, max_age_ms)
    }

    /// The counters, with the current pool size.
    pub fn get_stats(&self) -> (r: PoolStats)
        requires
            self.wf(),
        ensures
            r == (PoolStats { current_pool_size: self.view_of().pending.dom().len() as usize, ..self.counters() }),
    {
        PoolStats { current_pool_size: pending_map_len(&self.pending), ..self.stats }
    }
}

} // verus!
