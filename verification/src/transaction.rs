//! Signed PAR transfers and the pool of transactions waiting to be processed.
use vstd::prelude::*;
use vstd::bytes::{spec_u128_to_le_bytes, spec_u64_to_le_bytes, u128_to_le_bytes, u64_to_le_bytes};
use vstd::utf8::encode_utf8;
use crate::address::Address;
use crate::sys::{
    blake3_digest, blake3_hash, ed25519_public_key_of, ed25519_sign, ed25519_signature_of, ed25519_verifies,
    ed25519_verify,
    new_uuid, now_unix_nanos,
};
use crate::text::{clone_bytes, push_all};
use crate::vecmap::VecMap;

verus! {

/// Why a transaction was refused.
#[derive(Debug, Clone, Copy, PartialEq, Eq)]
pub enum TransactionError {
    /// The message is longer than ten bytes.
    MessageTooLong,
    /// The message holds a character that is not printable ASCII.
    NonPrintableMessage,
    /// The amount is zero.
    ZeroAmount,
    /// The fee is zero.
    ZeroFee,
    /// The timestamp lies more than ten minutes ahead of the clock.
    FutureTimestamp,
    /// The signature does not check out.
    InvalidSignature,
    /// A transaction with the same id is already in the pool.
    AlreadyInPool,
}

/// A PAR transfer.
#[derive(Debug)]
pub struct Transaction {
    /// The transaction's UUID, as its 128-bit value.
    pub id: u128,
    pub from: Address,
    pub to: Address,
    /// Amount in base units (eight decimals).
    pub amount: u64,
    pub fee: u64,
    /// Unix time in nanoseconds.
    pub timestamp: i64,
    pub signature: Vec<u8>,
    pub nonce: u64,
    /// An optional note of at most ten printable ASCII characters.
    pub message: Option<String>,
}

/// The longest message, in bytes.
pub const MAX_MESSAGE_LEN: usize = 10;

/// How far ahead of the clock a timestamp may lie: ten minutes, in nanoseconds.
pub const MAX_FUTURE_SKEW_NANOS: i64 = 600_000_000_000;

/// Printable ASCII: from space to tilde.
pub open spec fn printable_ascii(c: char) -> bool {
    32 <= (c as u32) < 127
}

/// Whether a message may go with a transaction: at most ten bytes, all
/// printable ASCII.
pub open spec fn message_ok(m: Seq<char>) -> bool {
    encode_utf8(m).len() <= 10 && forall|i: int| 0 <= i < m.len() ==> printable_ascii(#[trigger] m[i])
}

/// The bytes of the message that the signature covers (none without one).
pub open spec fn message_bytes(m: Option<String>) -> Seq<u8> {
    match m {
        Some(s) => encode_utf8(s@),
        None => Seq::empty(),
    }
}

/// The bytes that are hashed to give the signed digest: the id (big-endian,
/// as the UUID's bytes), both addresses, then amount, fee, timestamp and
/// nonce little-endian, then the message.
pub open spec fn signing_preimage(
    id: u128,
    from: Seq<u8>,
    to: Seq<u8>,
    amount: u64,
    fee: u64,
    timestamp: i64,
    nonce: u64,
    message: Option<String>,
) -> Seq<u8> {
    spec_u128_to_le_bytes(id).reverse() + from + to + spec_u64_to_le_bytes(amount) + spec_u64_to_le_bytes(fee)
        + spec_u64_to_le_bytes(timestamp as u64) + spec_u64_to_le_bytes(nonce) + message_bytes(message)
}

/// The digest that a transaction's signature signs.
pub open spec fn signing_digest(tx: Transaction) -> Seq<u8> {
    blake3_digest(
        signing_preimage(tx.id, tx.from@, tx.to@, tx.amount, tx.fee, tx.timestamp, tx.nonce, tx.message),
    )
}

fn clone_message(m: &Option<String>) -> (r: Option<String>)
    ensures
        r == *m,
{
    match m {
        Some(s) => Some(s.clone()),
        None => None,
    }
}

fn signing_data_of(
    id: u128,
    from: &Address,
    to: &Address,
    amount: u64,
    fee: u64,
    timestamp: i64,
    nonce: u64,
    message: &Option<String>,
) -> (r: [u8; 32])
    ensures
        r@ == blake3_digest(signing_preimage(id, from@, to@, amount, fee, timestamp, nonce, *message)),
{
    let mut data: Vec<u8> = Vec::new();
    let le = u128_to_le_bytes(id);
    let mut i: usize = 16;
    while i > 0
        invariant
            le@.len() == 16,
            i <= 16,
            data@ == le@.subrange(i as int, 16).reverse(),
        decreases i,
    {
        i = i - 1;
        data.push(le[i]);
        proof {
            assert(data@ =~= le@.subrange(i as int, 16).reverse());
        }
    }
    proof {
        assert(le@.subrange(0, 16) =~= le@);
    }
    push_all(&mut data, from.as_bytes());
    push_all(&mut data, to.as_bytes());
    push_all(&mut data, u64_to_le_bytes(amount).as_slice());
    push_all(&mut data, u64_to_le_bytes(fee).as_slice());
    push_all(&mut data, u64_to_le_bytes(timestamp as u64).as_slice());
    push_all(&mut data, u64_to_le_bytes(nonce).as_slice());
    match message {
        Some(m) => push_all(&mut data, m.as_str().as_bytes()),
        None => {},
    }
    proof {
        assert(data@ =~= signing_preimage(id, from@, to@, amount, fee, timestamp, nonce, *message));
    }
    blake3_hash(data.as_slice())
}

fn check_message(m: &String) -> (r: Result<(), TransactionError>)
    ensures
        encode_utf8(m@).len() > 10 ==> r == Err::<(), TransactionError>(TransactionError::MessageTooLong),
        encode_utf8(m@).len() <= 10 && !message_ok(m@) ==> r == Err::<(), TransactionError>(
            TransactionError::NonPrintableMessage,
        ),
        message_ok(m@) ==> r is Ok,
{
    let s = m.as_str();
    let b = s.as_bytes();
    proof {
        assert(b@ == encode_utf8(m@));
    }
    if b.len() > MAX_MESSAGE_LEN {
        return Err(TransactionError::MessageTooLong);
    }
    let n = s.unicode_len();
    let mut i: usize = 0;
    while i < n
        invariant
            n == s@.len(),
            s@ == m@,
            encode_utf8(m@).len() <= 10,
            i <= n,
            forall|j: int| 0 <= j < i ==> printable_ascii(#[trigger] s@[j]),
        decreases n - i,
    {
        let c = s.get_char(i);
        if !(32 <= (c as u32) && (c as u32) < 127) {
            return Err(TransactionError::NonPrintableMessage);
        }
        i = i + 1;
    }
    Ok(())
}

impl Transaction {
    /// A copy of the transaction.
    pub fn duplicate(&self) -> (r: Transaction)
        ensures
            same_transaction(r, *self),
    {
        let sig = clone_bytes(&self.signature);
        proof {
            assert(sig@ =~= self.signature@);
        }
        Transaction {
            id: self.id,
            from: self.from,
            to: self.to,
            amount: self.amount,
            fee: self.fee,
            timestamp: self.timestamp,
            signature: sig,
            nonce: self.nonce,
            message: clone_message(&self.message),
        }
    }

    /// A signed transaction without a message.
    pub fn new(from: Address, to: Address, amount: u64, fee: u64, timestamp: i64, secret_key: &[u8; 32]) -> (r:
        Result<Transaction, TransactionError>)
        ensures
            r matches Ok(tx) && signed_by(tx, from, to, amount, fee, timestamp, None, secret_key@)
                && signature_checks(tx, ed25519_public_key_of(secret_key@)),
    {
        Self::new_with_message(from, to, amount, fee, timestamp, secret_key, None)
    }

    /// A signed transaction with an optional message, which must be at most
    /// ten bytes of printable ASCII. The id is a fresh random UUID and the
    /// nonce is the timestamp's nanoseconds.
    pub fn new_with_message(
        from: Address,
        to: Address,
        amount: u64,
        fee: u64,
        timestamp: i64,
        secret_key: &[u8; 32],
        message: Option<String>,
    ) -> (r: Result<Transaction, TransactionError>)
        ensures
            message matches Some(m) && encode_utf8(m@).len() > 10 ==> r == Err::<Transaction, TransactionError>(
                TransactionError::MessageTooLong,
            ),
            message matches Some(m) && encode_utf8(m@).len() <= 10 && !message_ok(m@) ==> r == Err::<
                Transaction,
                TransactionError,
            >(TransactionError::NonPrintableMessage),
            (message matches Some(m) ==> message_ok(m@)) ==> (r matches Ok(tx) && signed_by(
                tx,
                from,
                to,
                amount,
                fee,
                timestamp,
                message,
                secret_key@,
            ) && signature_checks(tx, ed25519_public_key_of(secret_key@))),
    {
        let id = new_uuid();
        let nonce = timestamp as u64;
        match &message {
            Some(m) => match check_message(m) {
                Ok(()) => {},
                Err(e) => {
                    return Err(e);
                },
            },
            None => {},
        }
        let digest = signing_data_of(id, &from, &to, amount, fee, timestamp, nonce, &message);
        let sig = ed25519_sign(secret_key, &digest);
        let mut signature: Vec<u8> = Vec::new();
        push_all(&mut signature, &sig);
        Ok(Transaction { id, from, to, amount, fee, timestamp, signature, nonce, message })
    }

    /// The digest that the signature signs.
    pub fn get_signing_data(&self) -> (r: Vec<u8>)
        ensures
            r@ == signing_digest(*self),
    {
        let d = signing_data_of(
            self.id,
            &self.from,
            &self.to,
            self.amount,
            self.fee,
            self.timestamp,
            self.nonce,
            &self.message,
        );
        let mut r: Vec<u8> = Vec::new();
        push_all(&mut r, &d);
        r
    }

    /// Whether the signature is 64 bytes and checks out for the signing
    /// digest under the public key.
    pub fn verify_signature(&self, public_key: &[u8; 32]) -> (r: bool)
        ensures
            r == signature_checks(*self, public_key@),
    {
        if self.signature.len() != 64 {
            return false;
        }
        let mut sig = [0u8; 64];
        let mut i: usize = 0;
        while i < 64
            invariant
                self.signature@.len() == 64,
                i <= 64,
                forall|j: int| 0 <= j < i ==> sig@[j] == self.signature@[j],
            decreases 64 - i,
        {
            sig[i] = self.signature[i];
            i = i + 1;
        }
        proof {
            assert(sig@ =~= self.signature@);
        }
        let digest = self.get_signing_data();
        ed25519_verify(public_key, digest.as_slice(), &sig)
    }

    /// The transaction's hash: BLAKE3 of the signing digest followed by the
    /// signature.
    pub fn hash(&self) -> (r: Vec<u8>)
        ensures
            r@ == blake3_digest(signing_digest(*self) + self.signature@),
    {
        let mut data = self.get_signing_data();
        push_all(&mut data, self.signature.as_slice());
        let h = blake3_hash(data.as_slice());
        let mut r: Vec<u8> = Vec::new();
        push_all(&mut r, &h);
        r
    }

    /// Checks the transaction against the clock reading `now` (Unix
    /// nanoseconds): a non-zero amount and fee, a timestamp at most ten
    /// minutes ahead, and a valid signature, checked in that order.
    pub fn validate_at(&self, public_key: &[u8; 32], now: i64) -> (r: Result<(), TransactionError>)
        ensures
            r == validation_outcome(*self, public_key@, now),
    {
        if self.amount == 0 {
            return Err(TransactionError::ZeroAmount);
        }
        if self.fee == 0 {
            return Err(TransactionError::ZeroFee);
        }
        if now <= i64::MAX - MAX_FUTURE_SKEW_NANOS && self.timestamp > now + MAX_FUTURE_SKEW_NANOS {
            return Err(TransactionError::FutureTimestamp);
        }
        if !self.verify_signature(public_key) {
            return Err(TransactionError::InvalidSignature);
        }
        Ok(())
    }

    /// Checks the transaction against the current time.
    pub fn validate(&self, public_key: &[u8; 32]) -> (r: Result<(), TransactionError>)
        ensures
            exists|now: i64| r == validation_outcome(*self, public_key@, now),
    {
        let now = match now_unix_nanos() {
            Some(n) => n,
            None => 0,
        };
        self.validate_at(public_key, now)
    }
}

/// Whether two transactions hold the same values.
pub open spec fn same_transaction(a: Transaction, b: Transaction) -> bool {
    &&& a.id == b.id
    &&& a.from == b.from
    &&& a.to == b.to
    &&& a.amount == b.amount
    &&& a.fee == b.fee
    &&& a.timestamp == b.timestamp
    &&& a.signature@ == b.signature@
    &&& a.nonce == b.nonce
    &&& a.message == b.message
}

/// Whether `tx` is a transaction made from these fields and signed with the
/// secret key: its nonce is the timestamp's nanoseconds and its signature is
/// the Ed25519 signature of its signing digest.
pub open spec fn signed_by(
    tx: Transaction,
    from: Address,
    to: Address,
    amount: u64,
    fee: u64,
    timestamp: i64,
    message: Option<String>,
    secret: Seq<u8>,
) -> bool {
    &&& tx.from == from
    &&& tx.to == to
    &&& tx.amount == amount
    &&& tx.fee == fee
    &&& tx.timestamp == timestamp
    &&& tx.nonce == timestamp as u64
    &&& tx.message == message
    &&& tx.signature@ == ed25519_signature_of(secret, signing_digest(tx))
}

/// Whether the signature is 64 bytes and checks out for the transaction's
/// signing digest under the public key.
pub open spec fn signature_checks(tx: Transaction, public_key: Seq<u8>) -> bool {
    tx.signature@.len() == 64 && ed25519_verifies(public_key, signing_digest(tx), tx.signature@)
}

/// The outcome of checking a transaction at clock reading `now`.
pub open spec fn validation_outcome(tx: Transaction, public_key: Seq<u8>, now: i64) -> Result<(), TransactionError> {
    if tx.amount == 0 {
        Err(TransactionError::ZeroAmount)
    } else if tx.fee == 0 {
        Err(TransactionError::ZeroFee)
    } else if now + 600_000_000_000 <= i64::MAX && tx.timestamp > now + 600_000_000_000 {
        Err(TransactionError::FutureTimestamp)
    } else if !signature_checks(tx, public_key) {
        Err(TransactionError::InvalidSignature)
    } else {
        Ok(())
    }
}

/// Law: a transaction whose signature checks out under a public key
/// passes validation under that key at any clock reading not before its
/// timestamp, when its amount and fee are not zero.
pub proof fn lemma_signed_transaction_validates(tx: Transaction, public_key: Seq<u8>, now: i64)
    requires
        signature_checks(tx, public_key),
        tx.amount > 0,
        tx.fee > 0,
        tx.timestamp <= now,
    ensures
        validation_outcome(tx, public_key, now) == Ok::<(), TransactionError>(()),
{
}


/// The transactions waiting to be processed, with an index of each
/// sender's transactions in the order they arrived.
#[derive(Debug)]
pub struct TransactionPool {
    transactions: VecMap<u128, Transaction>,
    by_address: VecMap<Address, Vec<u128>>,
}

impl TransactionPool {
    /// The pooled transactions by id.
    pub closed spec fn pool(self) -> Map<u128, Transaction> {
        self.transactions@
    }

    /// The ids of a sender's pooled transactions, in arrival order.
    pub closed spec fn ids_of(self, a: Seq<u8>) -> Seq<u128> {
        if self.by_address@.contains_key(a) {
            self.by_address@[a]@
        } else {
            Seq::empty()
        }
    }

    /// The pooled transactions in the order in which their ids first arrived.
    pub closed spec fn listed(self) -> Seq<(u128, Transaction)> {
        self.transactions.entries()
    }

    /// The pool and its sender index agree: each transaction is keyed by its
    /// id and listed once under its sender, and every listed id is a pooled
    /// transaction of that sender.
    pub closed spec fn wf(self) -> bool {
        &&& self.transactions.wf()
        &&& self.by_address.wf()
        &&& forall|id: u128| #[trigger]
            self.transactions@.contains_key(id) ==> self.transactions@[id].id == id && self.ids_of(
                self.transactions@[id].from@,
            ).contains(id)
        &&& forall|a: Seq<u8>| #[trigger]
            self.by_address@.contains_key(a) ==> {
                let ids = self.by_address@[a]@;
                &&& ids.len() > 0
                &&& ids.no_duplicates()
                &&& forall|i: int|
                    0 <= i < ids.len() ==> self.transactions@.contains_key(#[trigger] ids[i])
                        && self.transactions@[ids[i]].from@ == a
            }
    }

    /// Law: a sender's index lists exactly the ids of its pooled
    /// transactions, each once.
    pub proof fn lemma_index_matches_pool(self, a: Seq<u8>)
        requires
            self.wf(),
        ensures
            self.ids_of(a).no_duplicates(),
            forall|id: u128|
                #[trigger] self.ids_of(a).contains(id) <==> (self.pool().contains_key(id)
                    && self.pool()[id].from@ == a),
    {
        if self.by_address@.contains_key(a) {
            let ids = self.by_address@[a]@;
            assert forall|id: u128| #[trigger] self.ids_of(a).contains(id) implies (self.pool().contains_key(
                id,
            ) && self.pool()[id].from@ == a) by {
                let i = choose|i: int| 0 <= i < ids.len() && ids[i] == id;
                assert(self.transactions@.contains_key(ids[i]));
            }
        } else {
            assert forall|id: u128| #[trigger] self.ids_of(a).contains(id) <==> (self.pool().contains_key(id)
                && self.pool()[id].from@ == a) by {
                if self.pool().contains_key(id) && self.pool()[id].from@ == a {
                    assert(self.transactions@.contains_key(id));
                }
            }
        }
    }

    /// An empty pool.
    pub fn new() -> (r: TransactionPool)
        ensures
            r.wf(),
            r.pool() == Map::<u128, Transaction>::empty(),
            forall|a: Seq<u8>| r.ids_of(a) == Seq::<u128>::empty(),
    {
        TransactionPool { transactions: VecMap::new(), by_address: VecMap::new() }
    }

    /// Adds a transaction; refused, with nothing changed, when one with the
    /// same id is already pooled.
    pub fn add_transaction(&mut self, transaction: Transaction) -> (r: Result<(), TransactionError>)
        requires
            old(self).wf(),
        ensures
            final(self).wf(),
            old(self).pool().contains_key(transaction.id) ==> r == Err::<(), TransactionError>(
                TransactionError::AlreadyInPool,
            ) && *final(self) == *old(self),
            !old(self).pool().contains_key(transaction.id) ==> {
                &&& r is Ok
                &&& final(self).pool() == old(self).pool().insert(transaction.id, transaction)
                &&& final(self).ids_of(transaction.from@) == old(self).ids_of(transaction.from@).push(
                    transaction.id,
                )
                &&& forall|a: Seq<u8>| a != transaction.from@ ==> final(self).ids_of(a) == old(self).ids_of(a)
            },
    {
        if self.transactions.contains_key(&transaction.id) {
            return Err(TransactionError::AlreadyInPool);
        }
        let id = transaction.id;
        let from = transaction.from;
        let ghost t0 = *self;
        let ghost tx = transaction;
        self.transactions.insert(id, transaction);
        let mut list = match self.by_address.remove(&from) {
            Some(l) => l,
            None => Vec::new(),
        };
        let ghost old_list = list@;
        list.push(id);
        self.by_address.insert(from, list);
        proof {
            assert(old_list == t0.ids_of(from@));
            assert(self.ids_of(from@) =~= t0.ids_of(from@).push(id));
            assert forall|a: Seq<u8>| a != from@ implies self.ids_of(a) == t0.ids_of(a) by {}
            assert forall|x: u128| #[trigger] self.transactions@.contains_key(x) implies self.transactions@[x].id
                == x && self.ids_of(self.transactions@[x].from@).contains(x) by {
                if x == id {
                    assert(self.ids_of(from@)[old_list.len() as int] == id);
                } else {
                    assert(t0.transactions@.contains_key(x));
                    let f = t0.transactions@[x].from@;
                    assert(t0.ids_of(f).contains(x));
                    if f == from@ {
                        let k = choose|k: int| 0 <= k < t0.ids_of(f).len() && t0.ids_of(f)[k] == x;
                        assert(self.ids_of(f)[k] == x);
                    }
                }
            }
            assert forall|a: Seq<u8>| #[trigger] self.by_address@.contains_key(a) implies {
                let ids = self.by_address@[a]@;
                &&& ids.len() > 0
                &&& ids.no_duplicates()
                &&& forall|i: int|
                    0 <= i < ids.len() ==> self.transactions@.contains_key(#[trigger] ids[i])
                        && self.transactions@[ids[i]].from@ == a
            } by {
                if a == from@ {
                    let ids = self.by_address@[a]@;
                    assert(ids == old_list.push(id));
                    if t0.by_address@.contains_key(a) {
                        assert(old_list == t0.by_address@[a]@);
                    } else {
                        assert(old_list.len() == 0);
                    }
                    assert forall|i: int| 0 <= i < ids.len() implies self.transactions@.contains_key(
                        #[trigger] ids[i],
                    ) && self.transactions@[ids[i]].from@ == a by {
                        if i < old_list.len() {
                            assert(ids[i] == old_list[i]);
                            assert(t0.transactions@.contains_key(old_list[i]));
                        }
                    }
                    assert forall|i: int, j: int|
                        0 <= i < ids.len() && 0 <= j < ids.len() && i != j implies ids[i] != ids[j] by {
                        if i < old_list.len() && j < old_list.len() {
                            assert(ids[i] == old_list[i] && ids[j] == old_list[j]);
                        } else if i < old_list.len() {
                            assert(ids[i] == old_list[i]);
                            assert(t0.transactions@.contains_key(old_list[i]));
                        } else if j < old_list.len() {
                            assert(ids[j] == old_list[j]);
                            assert(t0.transactions@.contains_key(old_list[j]));
                        }
                    }
                } else {
                    assert(t0.by_address@.contains_key(a));
                    let ids = self.by_address@[a]@;
                    assert forall|i: int| 0 <= i < ids.len() implies self.transactions@.contains_key(
                        #[trigger] ids[i],
                    ) && self.transactions@[ids[i]].from@ == a by {
                        assert(t0.transactions@.contains_key(ids[i]));
                    }
                }
            }
        }
        Ok(())
    }

    /// Removes a transaction and hands it back, if it was pooled.
    pub fn remove_transaction(&mut self, tx_id: u128) -> (r: Option<Transaction>)
        requires
            old(self).wf(),
        ensures
            final(self).wf(),
            match r {
                Some(t) => old(self).pool().contains_key(tx_id) && t == old(self).pool()[tx_id],
                None => !old(self).pool().contains_key(tx_id),
            },
            final(self).pool() == old(self).pool().remove(tx_id),
            r matches Some(t) ==> {
                let ids = old(self).ids_of(t.from@);
                &&& ids.contains(tx_id)
                &&& final(self).ids_of(t.from@) == ids.remove(ids.index_of(tx_id))
                &&& forall|a: Seq<u8>| a != t.from@ ==> final(self).ids_of(a) == old(self).ids_of(a)
            },
            r is None ==> *final(self) == *old(self),
    {
        let ghost t0 = *self;
        if !self.transactions.contains_key(&tx_id) {
            return None;
        }
        let tx = match self.transactions.remove(&tx_id) {
            Some(t) => t,
            None => {
                return None;
            },
        };
        let from = tx.from;
        proof {
            assert(t0.transactions@.contains_key(tx_id));
            assert(t0.ids_of(from@).contains(tx_id));
            assert(t0.by_address@.contains_key(from@));
        }
        let mut list = match self.by_address.remove(&from) {
            Some(l) => l,
            None => {
                proof {
                    assert(false);
                }
                Vec::new()
            },
        };
        let ghost old_list = list@;
        proof {
            assert(old_list == t0.by_address@[from@]@);
            assert(old_list.no_duplicates());
        }
        let n = list.len();
        let mut k: usize = 0;
        while k < n
            invariant
                n == list@.len(),
                list@ == old_list,
                old_list.contains(tx_id),
                k <= n,
                forall|j: int| 0 <= j < k ==> old_list[j] != tx_id,
            ensures
                k <= n,
                forall|j: int| 0 <= j < k ==> old_list[j] != tx_id,
                k < n ==> old_list[k as int] == tx_id,
            decreases n - k,
        {
            if list[k] == tx_id {
                break;
            }
            k = k + 1;
        }
        if k >= n {
            proof {
                let j = choose|j: int| 0 <= j < old_list.len() && old_list[j] == tx_id;
                assert(false);
            }
            return Some(tx);
        }
        proof {
            assert(old_list.index_of(tx_id) == k) by {
                let m = old_list.index_of(tx_id);
                if m != k {
                    assert(old_list[m] == tx_id);
                }
            }
        }
        list.remove(k);
        if list.len() > 0 {
            self.by_address.insert(from, list);
        }
        proof {
            let nl = old_list.remove(k as int);
            assert(self.ids_of(from@) =~= nl);
            assert forall|a: Seq<u8>| a != from@ implies self.ids_of(a) == t0.ids_of(a) by {}
            assert forall|x: u128| #[trigger] self.transactions@.contains_key(x) implies self.transactions@[x].id
                == x && self.ids_of(self.transactions@[x].from@).contains(x) by {
                assert(t0.transactions@.contains_key(x));
                assert(x != tx_id);
                let f = t0.transactions@[x].from@;
                assert(t0.ids_of(f).contains(x));
                if f == from@ {
                    let q = choose|q: int| 0 <= q < old_list.len() && old_list[q] == x;
                    if q < k {
                        assert(nl[q] == x);
                    } else {
                        assert(q != k);
                        assert(nl[q - 1] == x);
                    }
                }
            }
            assert forall|a: Seq<u8>| #[trigger] self.by_address@.contains_key(a) implies {
                let ids = self.by_address@[a]@;
                &&& ids.len() > 0
                &&& ids.no_duplicates()
                &&& forall|i: int|
                    0 <= i < ids.len() ==> self.transactions@.contains_key(#[trigger] ids[i])
                        && self.transactions@[ids[i]].from@ == a
            } by {
                let ids = self.by_address@[a]@;
                assert(t0.by_address@.contains_key(a));
                if a == from@ {
                    assert(ids == nl);
                    assert forall|i: int| 0 <= i < ids.len() implies self.transactions@.contains_key(
                        #[trigger] ids[i],
                    ) && self.transactions@[ids[i]].from@ == a by {
                        let i2 = if i < k { i } else { i + 1 };
                        assert(ids[i] == old_list[i2]);
                        assert(i2 != k);
                        assert(old_list[i2] != tx_id);
                        assert(t0.transactions@.contains_key(old_list[i2]));
                    }
                    assert forall|i: int, j: int|
                        0 <= i < ids.len() && 0 <= j < ids.len() && i != j implies ids[i] != ids[j] by {
                        let i2 = if i < k { i } else { i + 1 };
                        let j2 = if j < k { j } else { j + 1 };
                        assert(ids[i] == old_list[i2] && ids[j] == old_list[j2]);
                    }
                } else {
                    assert forall|i: int| 0 <= i < ids.len() implies self.transactions@.contains_key(
                        #[trigger] ids[i],
                    ) && self.transactions@[ids[i]].from@ == a by {
                        assert(t0.transactions@.contains_key(ids[i]));
                        assert(ids[i] != tx_id);
                    }
                }
            }
        }
        Some(tx)
    }

    /// Every pooled transaction, each once, in the order its id first arrived.
    pub fn get_all_transactions(&self) -> (r: Vec<&Transaction>)
        requires
            self.wf(),
        ensures
            r@.len() == self.listed().len(),
            forall|i: int| 0 <= i < r@.len() ==> *(#[trigger] r@[i]) == self.listed()[i].1,
    {
        let n = self.transactions.len();
        let mut out: Vec<&Transaction> = Vec::new();
        let mut i: usize = 0;
        while i < n
            invariant
                n == self.listed().len(),
                i <= n,
                out@.len() == i,
                forall|j: int| 0 <= j < i ==> *(#[trigger] out@[j]) == self.listed()[j].1,
            decreases n - i,
        {
            let (_, t) = self.transactions.entry_at(i);
            out.push(t);
            i = i + 1;
        }
        out
    }

    /// The listed transactions are the pooled ones, each once.
    pub proof fn lemma_listed(self)
        requires
            self.wf(),
        ensures
            self.listed().len() == self.pool().dom().len(),
            forall|i: int|
                0 <= i < self.listed().len() ==> #[trigger] self.pool().contains_key(self.listed()[i].0)
                    && self.pool()[self.listed()[i].0] == self.listed()[i].1 && self.listed()[i].1.id
                    == self.listed()[i].0,
            forall|i: int, j: int|
                0 <= i < self.listed().len() && 0 <= j < self.listed().len() && i != j
                    ==> (#[trigger] self.listed()[i]).0 != (#[trigger] self.listed()[j]).0,
    {
        self.transactions.lemma_entries_view();
        assert forall|i: int| 0 <= i < self.listed().len() implies #[trigger] self.pool().contains_key(
            self.listed()[i].0,
        ) && self.pool()[self.listed()[i].0] == self.listed()[i].1 && self.listed()[i].1.id
            == self.listed()[i].0 by {
            self.transactions.lemma_entry_in_map(i);
        }
    }

    /// A sender's pooled transactions, in arrival order.
    pub fn get_transactions_by_address(&self, address: &Address) -> (r: Vec<&Transaction>)
        requires
            self.wf(),
        ensures
            r@.len() == self.ids_of(address@).len(),
            forall|i: int|
                0 <= i < r@.len() ==> *(#[trigger] r@[i]) == self.pool()[self.ids_of(address@)[i]],
    {
        let mut out: Vec<&Transaction> = Vec::new();
        match self.by_address.get(address) {
            Some(ids) => {
                let n = ids.len();
                let mut i: usize = 0;
                while i < n
                    invariant
                        self.wf(),
                        n == ids@.len(),
                        self.by_address@.contains_key(address@),
                        ids@ == self.ids_of(address@),
                        i <= n,
                        out@.len() == i,
                        forall|j: int| 0 <= j < i ==> *(#[trigger] out@[j]) == self.pool()[ids@[j]],
                    decreases n - i,
                {
                    proof {
                        assert(self.transactions@.contains_key(ids@[i as int]));
                    }
                    match self.transactions.get(&ids[i]) {
                        Some(t) => out.push(t),
                        None => {},
                    }
                    i = i + 1;
                }
            },
            None => {},
        }
        out
    }

    /// The number of pooled transactions.
    pub fn size(&self) -> (r: usize)
        requires
            self.wf(),
        ensures
            r == self.pool().dom().len(),
    {
        self.transactions.len()
    }

    /// Empties the pool.
    pub fn clear(&mut self)
        ensures
            final(self).wf(),
            final(self).pool() == Map::<u128, Transaction>::empty(),
            forall|a: Seq<u8>| final(self).ids_of(a) == Seq::<u128>::empty(),
    {
        self.transactions = VecMap::new();
        self.by_address = VecMap::new();
    }
}

} // verus!
