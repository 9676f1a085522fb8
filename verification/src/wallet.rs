//! A single-key wallet: its Ed25519 key, address, balance and history, and
//! a multi-signature wallet that collects signatures for pending transfers.
use vstd::prelude::*;
use crate::address::Address;
use crate::sys::{
    blake3_digest, blake3_hash, ed25519_public_key, ed25519_public_key_of, ed25519_sign, ed25519_signature_of,
    ed25519_verifies, ed25519_verify, now_unix_nanos, random_bytes_32,
};
use crate::text::{concat_utf8, text};
use crate::transaction::{signature_checks, signed_by, validation_outcome, Transaction, TransactionError};
use crate::vecmap::VecMap;

verus! {

/// Why a wallet operation was refused.
#[derive(Debug, Clone, Copy, PartialEq, Eq)]
pub enum WalletError {
    /// The amount and fee together exceed the balance.
    InsufficientBalance,
    /// A multi-signature wallet needs at least one signature and no more
    /// than it has signers.
    InvalidSignatureRequirements,
    /// No pending transaction has that id.
    TransactionNotFound,
    /// The transaction could not be built.
    Transaction(TransactionError),
}

/// A wallet holding one Ed25519 key.
#[derive(Debug)]
pub struct Wallet {
    secret_key: [u8; 32],
    address: Address,
    balance: u64,
    transaction_history: Vec<Transaction>,
}

/// The sum of `amount + fee` over the transactions sent from `a`.
pub open spec fn sent_total(h: Seq<Transaction>, a: Seq<u8>) -> int
    decreases h.len(),
{
    if h.len() == 0 {
        0
    } else {
        sent_total(h.drop_last(), a) + if h.last().from@ == a {
            h.last().amount + h.last().fee
        } else {
            0int
        }
    }
}

/// The sum of `amount` over the transactions received by `a`.
pub open spec fn received_total(h: Seq<Transaction>, a: Seq<u8>) -> int
    decreases h.len(),
{
    if h.len() == 0 {
        0
    } else {
        received_total(h.drop_last(), a) + if h.last().to@ == a {
            h.last().amount as int
        } else {
            0int
        }
    }
}

/// Law: recording a transaction adds its amount and fee to what an address
/// has sent when it sent it, and its amount to what the address has
/// received when it received it.
pub proof fn lemma_record_moves_totals(h: Seq<Transaction>, tx: Transaction, a: Seq<u8>)
    ensures
        sent_total(h.push(tx), a) == sent_total(h, a) + if tx.from@ == a {
            tx.amount + tx.fee
        } else {
            0int
        },
        received_total(h.push(tx), a) == received_total(h, a) + if tx.to@ == a {
            tx.amount as int
        } else {
            0int
        },
{
    assert(h.push(tx).drop_last() =~= h);
}

proof fn lemma_totals_grow(h: Seq<Transaction>, a: Seq<u8>, i: int, j: int)
    requires
        0 <= i <= j <= h.len(),
    ensures
        0 <= sent_total(h.take(i), a) <= sent_total(h.take(j), a),
        0 <= received_total(h.take(i), a) <= received_total(h.take(j), a),
    decreases j - i,
{
    if i < j {
        lemma_totals_grow(h, a, i, j - 1);
        assert(h.take(j).drop_last() =~= h.take(j - 1));
    } else {
        lemma_totals_nonnegative(h.take(i), a);
    }
}

proof fn lemma_totals_nonnegative(h: Seq<Transaction>, a: Seq<u8>)
    ensures
        sent_total(h, a) >= 0,
        received_total(h, a) >= 0,
    decreases h.len(),
{
    if h.len() > 0 {
        lemma_totals_nonnegative(h.drop_last(), a);
    }
}

/// The balance after recording a transaction: an outgoing one takes its
/// amount and fee (down to zero at most), an incoming one adds its amount
/// (up to `u64::MAX` at most); any other leaves it.
pub open spec fn balance_after(balance: u64, own: Seq<u8>, tx: Transaction) -> u64 {
    if tx.from@ == own {
        if balance >= tx.amount + tx.fee {
            (balance - (tx.amount + tx.fee)) as u64
        } else {
            0
        }
    } else if tx.to@ == own {
        if balance + tx.amount <= u64::MAX {
            (balance + tx.amount) as u64
        } else {
            u64::MAX
        }
    } else {
        balance
    }
}

/// The twelve words that `generate_seed_phrase` hands out.
pub open spec fn seed_words() -> Seq<Seq<char>> {
    seq![
        "paradigm"@,
        "crypto"@,
        "machine"@,
        "learning"@,
        "network"@,
        "autonomous"@,
        "secure"@,
        "instant"@,
        "transaction"@,
        "reward"@,
        "contribution"@,
        "future"@,
    ]
}

/// A wallet's totals.
#[derive(Debug, Clone, Copy, PartialEq, Eq)]
pub struct WalletStats {
    pub balance: u64,
    pub total_sent: u64,
    pub total_received: u64,
    pub transaction_count: usize,
}

impl Wallet {
    /// The wallet's secret key.
    pub closed spec fn secret(self) -> Seq<u8> {
        self.secret_key@
    }

    /// The wallet's address.
    pub closed spec fn owner(self) -> Address {
        self.address
    }

    /// The wallet's balance in base units.
    pub closed spec fn funds(self) -> u64 {
        self.balance
    }

    /// The transactions recorded, oldest first.
    pub closed spec fn history(self) -> Seq<Transaction> {
        self.transaction_history@
    }

    /// A wallet for a secret key: its address is the key's public key, with
    /// a zero balance and no history.
    fn with_key(secret_key: [u8; 32]) -> (r: Wallet)
        ensures
            r.secret() == secret_key@,
            r.owner()@ == ed25519_public_key_of(secret_key@),
            r.funds() == 0,
            r.history() == Seq::<Transaction>::empty(),
    {
        let public_key = ed25519_public_key(&secret_key);
        let address = Address::from_public_key(&public_key);
        Wallet { secret_key, address, balance: 0, transaction_history: Vec::new() }
    }

    /// A wallet with a fresh random key.
    pub fn new() -> (r: Wallet)
        ensures
            r.owner()@ == ed25519_public_key_of(r.secret()),
            r.funds() == 0,
            r.history() == Seq::<Transaction>::empty(),
    {
        Self::with_key(random_bytes_32())
    }

    /// The wallet of an existing secret key.
    pub fn from_private_key(private_key: &[u8; 32]) -> (r: Result<Wallet, WalletError>)
        ensures
            r matches Ok(w) && w.secret() == private_key@ && w.owner()@ == ed25519_public_key_of(private_key@)
                && w.funds() == 0 && w.history() == Seq::<Transaction>::empty(),
    {
        Ok(Self::with_key(*private_key))
    }

    /// The wallet's address.
    pub fn get_address(&self) -> (r: &Address)
        ensures
            *r == self.owner(),
    {
        &self.address
    }

    /// The balance in base units.
    pub fn get_balance(&self) -> (r: u64)
        ensures
            r == self.funds(),
    {
        self.balance
    }

    /// Sets the balance.
    pub fn update_balance(&mut self, new_balance: u64)
        ensures
            final(self).funds() == new_balance,
            final(self).secret() == old(self).secret(),
            final(self).owner() == old(self).owner(),
            final(self).history() == old(self).history(),
    {
        self.balance = new_balance;
    }

    /// A transfer from this wallet, signed with its key and stamped with the
    /// clock; refused when the amount and fee exceed the balance.
    pub fn create_transaction(&self, to: Address, amount: u64, fee: u64) -> (r: Result<Transaction, WalletError>)
        requires
            amount + fee <= u64::MAX,
        ensures
            amount + fee > self.funds() <==> r == Err::<Transaction, WalletError>(WalletError::InsufficientBalance),
            amount + fee <= self.funds() ==> (r matches Ok(tx) && (exists|t: i64|
                signed_by(tx, self.owner(), to, amount, fee, t, None, self.secret())) && signature_checks(
                tx,
                ed25519_public_key_of(self.secret()),
            ) && (forall|now: i64|
                amount > 0 && fee > 0 && tx.timestamp <= now ==> validation_outcome(
                    tx,
                    ed25519_public_key_of(self.secret()),
                    now,
                ) == Ok::<(), TransactionError>(()))),
    {
        if amount + fee > self.balance {
            return Err(WalletError::InsufficientBalance);
        }
        let timestamp = match now_unix_nanos() {
            Some(n) => n,
            None => 0,
        };
        match Transaction::new(self.address, to, amount, fee, timestamp, &self.secret_key) {
            Ok(tx) => {
                proof {
                    assert(signed_by(tx, self.owner(), to, amount, fee, timestamp, None, self.secret()));
                }
                Ok(tx)
            },
            Err(e) => Err(WalletError::Transaction(e)),
        }
    }

    /// Records a transaction and moves the balance by it (see
    /// `balance_after`).
    pub fn add_transaction(&mut self, transaction: Transaction)
        requires
            transaction.from@ == old(self).owner()@ ==> transaction.amount + transaction.fee <= u64::MAX,
        ensures
            final(self).funds() == balance_after(old(self).funds(), old(self).owner()@, transaction),
            final(self).history() == old(self).history().push(transaction),
            final(self).secret() == old(self).secret(),
            final(self).owner() == old(self).owner(),
    {
        if transaction.from.equals(&self.address) {
            self.balance = self.balance.saturating_sub(transaction.amount + transaction.fee);
        } else if transaction.to.equals(&self.address) {
            self.balance = self.balance.saturating_add(transaction.amount);
        }
        self.transaction_history.push(transaction);
    }

    /// The recorded transactions, oldest first.
    pub fn get_transaction_history(&self) -> (r: &[Transaction])
        ensures
            r@ == self.history(),
    {
        self.transaction_history.as_slice()
    }

    /// The secret key's bytes.
    pub fn export_private_key(&self) -> (r: [u8; 32])
        ensures
            r@ == self.secret(),
    {
        self.secret_key
    }

    /// The public key's bytes.
    pub fn export_public_key(&self) -> (r: [u8; 32])
        ensures
            r@ == ed25519_public_key_of(self.secret()),
    {
        ed25519_public_key(&self.secret_key)
    }

    /// Twelve fixed words from which `from_seed_phrase` derives a key.
    pub fn generate_seed_phrase() -> (r: Vec<String>)
        ensures
            r@.map_values(|w: String| w@) == seed_words(),
    {
        let mut words: Vec<String> = Vec::new();
        words.push(text("paradigm"));
        words.push(text("crypto"));
        words.push(text("machine"));
        words.push(text("learning"));
        words.push(text("network"));
        words.push(text("autonomous"));
        words.push(text("secure"));
        words.push(text("instant"));
        words.push(text("transaction"));
        words.push(text("reward"));
        words.push(text("contribution"));
        words.push(text("future"));
        proof {
            assert(words@.map_values(|w: String| w@) =~= seed_words());
        }
        words
    }

    /// The wallet whose secret key is the BLAKE3 digest of the words'
    /// bytes, one word after another.
    pub fn from_seed_phrase(words: &[String]) -> (r: Result<Wallet, WalletError>)
        ensures
            r matches Ok(w) && w.secret() == blake3_digest(concat_utf8(words@)) && w.owner()@
                == ed25519_public_key_of(w.secret()) && w.funds() == 0 && w.history() == Seq::<
                Transaction,
            >::empty(),
    {
        let mut data: Vec<u8> = Vec::new();
        let n = words.len();
        let mut i: usize = 0;
        while i < n
            invariant
                n == words@.len(),
                i <= n,
                data@ == concat_utf8(words@.take(i as int)),
            decreases n - i,
        {
            let bytes = words[i].as_str().as_bytes();
            let m = bytes.len();
            let mut j: usize = 0;
            let ghost before = data@;
            while j < m
                invariant
                    m == bytes@.len(),
                    j <= m,
                    data@ == before + bytes@.take(j as int),
                decreases m - j,
            {
                data.push(bytes[j]);
                j = j + 1;
                proof {
                    assert(data@ =~= before + bytes@.take(j as int));
                }
            }
            proof {
                assert(bytes@.take(m as int) =~= bytes@);
                assert(words@.take(i + 1).drop_last() =~= words@.take(i as int));
            }
            i = i + 1;
        }
        proof {
            assert(words@.take(n as int) =~= words@);
        }
        let key = blake3_hash(data.as_slice());
        Ok(Self::with_key(key))
    }

    /// The Ed25519 signature of a message under the wallet's key; it checks
    /// out under the wallet's public key.
    pub fn sign_message(&self, message: &[u8]) -> (r: Vec<u8>)
        ensures
            r@ == ed25519_signature_of(self.secret(), message@),
            ed25519_verifies(ed25519_public_key_of(self.secret()), message@, r@),
            r@.len() == 64,
    {
        let sig = ed25519_sign(&self.secret_key, message);
        let mut r: Vec<u8> = Vec::new();
        let mut i: usize = 0;
        while i < 64
            invariant
                i <= 64,
                r@ == sig@.take(i as int),
            decreases 64 - i,
        {
            r.push(sig[i]);
            i = i + 1;
            proof {
                assert(r@ =~= sig@.take(i as int));
            }
        }
        proof {
            assert(sig@.take(64) =~= sig@);
        }
        r
    }

    /// Whether a signature is 64 bytes and checks out for the message under
    /// the wallet's public key.
    pub fn verify_signature(&self, message: &[u8], signature: &[u8]) -> (r: bool)
        ensures
            r == (signature@.len() == 64 && ed25519_verifies(
                ed25519_public_key_of(self.secret()),
                message@,
                signature@,
            )),
    {
        if signature.len() != 64 {
            return false;
        }
        let mut sig = [0u8; 64];
        let mut i: usize = 0;
        while i < 64
            invariant
                signature@.len() == 64,
                i <= 64,
                forall|j: int| 0 <= j < i ==> sig@[j] == signature@[j],
            decreases 64 - i,
        {
            sig[i] = signature[i];
            i = i + 1;
        }
        proof {
            assert(sig@ =~= signature@);
        }
        let public_key = ed25519_public_key(&self.secret_key);
        ed25519_verify(&public_key, message, &sig)
    }

    /// The balance, the totals sent (amount and fee) and received, and the
    /// number of recorded transactions.
    pub fn get_stats(&self) -> (r: WalletStats)
        requires
            sent_total(self.history(), self.owner()@) <= u64::MAX,
            received_total(self.history(), self.owner()@) <= u64::MAX,
        ensures
            r.balance == self.funds(),
            r.total_sent == sent_total(self.history(), self.owner()@),
            r.total_received == received_total(self.history(), self.owner()@),
            r.transaction_count == self.history().len(),
    {
        let ghost h = self.transaction_history@;
        let ghost a = self.address@;
        let mut total_sent: u64 = 0;
        let mut total_received: u64 = 0;
        let n = self.transaction_history.len();
        let mut i: usize = 0;
        while i < n
            invariant
                n == h.len(),
                h == self.transaction_history@,
                a == self.address@,
                i <= n,
                total_sent == sent_total(h.take(i as int), a),
                total_received == received_total(h.take(i as int), a),
                sent_total(h, a) <= u64::MAX,
                received_total(h, a) <= u64::MAX,
            decreases n - i,
        {
            proof {
                lemma_totals_grow(h, a, i + 1, n as int);
                assert(h.take(n as int) =~= h);
                assert(h.take(i + 1).drop_last() =~= h.take(i as int));
            }
            let tx = &self.transaction_history[i];
            if tx.from.equals(&self.address) {
                total_sent = total_sent + (tx.amount + tx.fee);
            }
            if tx.to.equals(&self.address) {
                total_received = total_received + tx.amount;
            }
            i = i + 1;
        }
        proof {
            assert(h.take(n as int) =~= h);
        }
        WalletStats { balance: self.balance, total_sent, total_received, transaction_count: n }
    }
}

/// A wallet whose transfers need several of its signers' signatures.
#[derive(Debug)]
pub struct MultiSigWallet {
    required_signatures: u8,
    signers: Vec<[u8; 32]>,
    pending_transactions: VecMap<u128, (Transaction, Vec<Vec<u8>>)>,
}

impl MultiSigWallet {
    /// How many signatures a transfer needs.
    pub closed spec fn required(self) -> u8 {
        self.required_signatures
    }

    /// The signers' public keys.
    pub closed spec fn signer_keys(self) -> Seq<[u8; 32]> {
        self.signers@
    }

    /// The signatures collected so far for each pending transfer.
    pub closed spec fn collected(self) -> Map<u128, Seq<Vec<u8>>> {
        Map::new(
            |id: u128| self.pending_transactions@.contains_key(id),
            |id: u128| self.pending_transactions@[id].1@,
        )
    }

    /// The pending map is well formed.
    pub closed spec fn wf(self) -> bool {
        self.pending_transactions.wf()
    }

    /// A wallet needing `required_signatures` of the signers. Refused when
    /// no signature is required, or more than the number of signers taken
    /// modulo 256 (the count is compared as a byte).
    pub fn new(required_signatures: u8, signers: Vec<[u8; 32]>) -> (r: Result<MultiSigWallet, WalletError>)
        ensures
            required_signatures == 0 || required_signatures > signers@.len() % 256 <==> r == Err::<
                MultiSigWallet,
                WalletError,
            >(WalletError::InvalidSignatureRequirements),
            r matches Ok(w) ==> w.wf() && w.required() == required_signatures && w.signer_keys() == signers@
                && w.collected() == Map::<u128, Seq<Vec<u8>>>::empty(),
    {
        let count = (signers.len() % 256) as u8;
        if required_signatures == 0 || required_signatures > count {
            return Err(WalletError::InvalidSignatureRequirements);
        }
        let w = MultiSigWallet { required_signatures, signers, pending_transactions: VecMap::new() };
        proof {
            assert(w.collected() =~= Map::<u128, Seq<Vec<u8>>>::empty());
        }
        Ok(w)
    }

    /// Adds a signature to a pending transfer; whether it now has enough.
    /// Refused, with nothing changed, when no transfer has that id.
    pub fn add_signature(&mut self, transaction_id: u128, signature: Vec<u8>) -> (r: Result<bool, WalletError>)
        requires
            old(self).wf(),
        ensures
            final(self).wf(),
            final(self).required() == old(self).required(),
            final(self).signer_keys() == old(self).signer_keys(),
            !old(self).collected().contains_key(transaction_id) ==> r == Err::<bool, WalletError>(
                WalletError::TransactionNotFound,
            ) && final(self).collected() == old(self).collected(),
            old(self).collected().contains_key(transaction_id) ==> {
                let sigs = old(self).collected()[transaction_id].push(signature);
                &&& final(self).collected() == old(self).collected().insert(transaction_id, sigs)
                &&& r == Ok::<bool, WalletError>(sigs.len() >= old(self).required())
            },
    {
        match self.pending_transactions.remove(&transaction_id) {
            None => Err(WalletError::TransactionNotFound),
            Some(entry) => {
                let (tx, mut signatures) = entry;
                signatures.push(signature);
                let enough = signatures.len() >= self.required_signatures as usize;
                let ghost sigs = signatures@;
                self.pending_transactions.insert(transaction_id, (tx, signatures));
                proof {
                    assert(self.collected() =~= old(self).collected().insert(transaction_id, sigs));
                }
                Ok(enough)
            },
        }
    }
}

} // verus!
