//! End-to-end checks of the transaction path between two wallet addresses:
//! choosing the addresses, building, hashing and validating a signed test
//! transaction, and recording each test's outcome with advice drawn from it.
use vstd::prelude::*;
use vstd::string::StringSliceAdditionalSpecFns;
use crate::address::{address_text_result, encode_hex, hex_encode, parses_to, Address, AddressError};
use crate::sys::{blake3_digest, ed25519_public_key, ed25519_public_key_of, now_unix_nanos, random_bytes_32};
use crate::text::text;
use crate::transaction::{message_ok, signing_digest, validation_outcome, Transaction, TransactionError};
use vstd::utf8::encode_utf8;
use crate::wallet_manager::{address_added, WalletManager};

verus! {

/// Why a test transaction could not be made.
#[derive(Debug, Clone, Copy, PartialEq, Eq)]
pub enum TestError {
    /// An address is not the hexadecimal text of 32 bytes.
    InvalidAddress(AddressError),
    /// The transaction could not be built or did not validate.
    Transaction(TransactionError),
}

/// The text reported for a failed test.
pub open spec fn test_error_text(e: TestError) -> Seq<char> {
    match e {
        TestError::InvalidAddress(_) => "invalid address"@,
        TestError::Transaction(TransactionError::MessageTooLong) => "message too long"@,
        TestError::Transaction(TransactionError::NonPrintableMessage) => "message is not printable ASCII"@,
        TestError::Transaction(TransactionError::ZeroAmount) => "amount is zero"@,
        TestError::Transaction(TransactionError::ZeroFee) => "fee is zero"@,
        TestError::Transaction(TransactionError::FutureTimestamp) => "timestamp is in the future"@,
        TestError::Transaction(TransactionError::InvalidSignature) => "invalid signature"@,
        TestError::Transaction(TransactionError::AlreadyInPool) => "already in pool"@,
    }
}

/// The text reported for a failed test.
pub fn test_error_message(e: TestError) -> (r: String)
    ensures
        r@ == test_error_text(e),
{
    match e {
        TestError::InvalidAddress(_) => text("invalid address"),
        TestError::Transaction(TransactionError::MessageTooLong) => text("message too long"),
        TestError::Transaction(TransactionError::NonPrintableMessage) => text("message is not printable ASCII"),
        TestError::Transaction(TransactionError::ZeroAmount) => text("amount is zero"),
        TestError::Transaction(TransactionError::ZeroFee) => text("fee is zero"),
        TestError::Transaction(TransactionError::FutureTimestamp) => text("timestamp is in the future"),
        TestError::Transaction(TransactionError::InvalidSignature) => text("invalid signature"),
        TestError::Transaction(TransactionError::AlreadyInPool) => text("already in pool"),
    }
}

/// The outcome of one transaction test.
#[derive(Debug)]
pub struct TransactionTestResult {
    pub test_id: u128,
    pub test_type: String,
    pub success: bool,
    pub from_address: String,
    pub to_address: String,
    pub amount: u64,
    pub message: Option<String>,
    pub duration_ms: u64,
    pub tx_hash: Option<String>,
    pub error_message: Option<String>,
    /// Unix time in seconds.
    pub timestamp: i64,
    pub recommendations: Vec<String>,
}

/// The advice for a test: on the outcome, then on the time it took (over
/// five seconds is slow, under a tenth of a second is excellent).
pub open spec fn recommendations(success: bool, duration_ms: u64) -> Seq<Seq<char>> {
    (if success {
        seq!["✅ Transaction system working correctly"@]
    } else {
        seq!["❌ Transaction failed - check network connectivity"@, "💡 Verify wallet has sufficient balance"@]
    }) + (if duration_ms > 5000 {
        seq!["⚠️ Transaction took longer than expected (>5s)"@, "💡 Consider checking network latency"@]
    } else if duration_ms < 100 {
        seq!["🚀 Excellent transaction speed!"@]
    } else {
        Seq::<Seq<char>>::empty()
    })
}

/// The advice for a test with this outcome and duration.
pub fn recommendations_for(success: bool, duration_ms: u64) -> (r: Vec<String>)
    ensures
        r@.map_values(|s: String| s@) == recommendations(success, duration_ms),
{
    let mut r: Vec<String> = Vec::new();
    if success {
        r.push(text("✅ Transaction system working correctly"));
    } else {
        r.push(text("❌ Transaction failed - check network connectivity"));
        r.push(text("💡 Verify wallet has sufficient balance"));
    }
    if duration_ms > 5000 {
        r.push(text("⚠️ Transaction took longer than expected (>5s)"));
        r.push(text("💡 Consider checking network latency"));
    } else if duration_ms < 100 {
        r.push(text("🚀 Excellent transaction speed!"));
    }
    proof {
        assert(r@.map_values(|s: String| s@) =~= recommendations(success, duration_ms));
    }
    r
}

fn clone_option_text(m: &Option<String>) -> (r: Option<String>)
    ensures
        r == *m,
{
    match m {
        Some(s) => Some(s.clone()),
        None => None,
    }
}

fn clone_texts(v: &Vec<String>) -> (r: Vec<String>)
    ensures
        r@ == v@,
{
    let mut r: Vec<String> = Vec::new();
    let n = v.len();
    let mut i: usize = 0;
    while i < n
        invariant
            n == v@.len(),
            i <= n,
            r@ == v@.take(i as int),
        decreases n - i,
    {
        r.push(v[i].clone());
        i = i + 1;
        proof {
            assert(r@ =~= v@.take(i as int));
        }
    }
    proof {
        assert(v@.take(n as int) =~= v@);
    }
    r
}

/// Whether two results hold the same values.
pub open spec fn same_result(a: TransactionTestResult, b: TransactionTestResult) -> bool {
    &&& a.test_id == b.test_id
    &&& a.test_type == b.test_type
    &&& a.success == b.success
    &&& a.from_address == b.from_address
    &&& a.to_address == b.to_address
    &&& a.amount == b.amount
    &&& a.message == b.message
    &&& a.duration_ms == b.duration_ms
    &&& a.tx_hash == b.tx_hash
    &&& a.error_message == b.error_message
    &&& a.timestamp == b.timestamp
    &&& a.recommendations@ == b.recommendations@
}

impl TransactionTestResult {
    /// A copy of the result.
    pub fn duplicate(&self) -> (r: TransactionTestResult)
        ensures
            same_result(r, *self),
    {
        TransactionTestResult {
            test_id: self.test_id,
            test_type: self.test_type.clone(),
            success: self.success,
            from_address: self.from_address.clone(),
            to_address: self.to_address.clone(),
            amount: self.amount,
            message: clone_option_text(&self.message),
            duration_ms: self.duration_ms,
            tx_hash: clone_option_text(&self.tx_hash),
            error_message: clone_option_text(&self.error_message),
            timestamp: self.timestamp,
            recommendations: clone_texts(&self.recommendations),
        }
    }
}

/// Whether `hash` is the hexadecimal hash of a transaction between the two
/// addresses with this amount, a fee of 1000 and this message, signed with
/// a key whose public key it validates under at some clock reading.
#[verifier::opaque]
pub open spec fn test_transaction_hash(
    hash: Seq<char>,
    from: Seq<u8>,
    to: Seq<u8>,
    amount: u64,
    message: Option<Seq<char>>,
) -> bool {
    exists|tx: Transaction, secret: Seq<u8>, now: i64|
        {
            &&& tx.from@ == from
            &&& tx.to@ == to
            &&& tx.amount == amount
            &&& tx.fee == 1000
            &&& match tx.message {
                Some(s) => message == Some(s@),
                None => message is None,
            }
            &&& tx.signature@ == crate::sys::ed25519_signature_of(secret, signing_digest(tx))
            &&& #[trigger] validation_outcome(tx, ed25519_public_key_of(secret), now) is Ok
            &&& hash == hex_encode(blake3_digest(signing_digest(tx) + tx.signature@))
        }
}

/// The text of an optional message.
pub open spec fn message_text(m: Option<&str>) -> Option<Seq<char>> {
    match m {
        Some(t) => Some(t@),
        None => None,
    }
}

/// Records of transaction tests.
#[derive(Debug)]
pub struct TransactionTester {
    test_results: Vec<TransactionTestResult>,
}

impl TransactionTester {
    /// The results recorded, oldest first.
    pub closed spec fn results(self) -> Seq<TransactionTestResult> {
        self.test_results@
    }

    /// No results yet.
    pub fn new() -> (r: TransactionTester)
        ensures
            r.results() == Seq::<TransactionTestResult>::empty(),
    {
        TransactionTester { test_results: Vec::new() }
    }

    /// The two addresses a test runs between: the wallet's first two, or,
    /// when it has fewer, a new sender and a new receiver.
    pub fn test_addresses(wallet_manager: &mut WalletManager) -> (r: (String, String))
        requires
            old(wallet_manager).wf(),
        ensures
            final(wallet_manager).wf(),
            old(wallet_manager).wallet_file.address_list().len() >= 2 ==> *final(wallet_manager) == *old(
                wallet_manager,
            ) && r.0 == old(wallet_manager).wallet_file.address_list()[0].0 && r.1 == old(
                wallet_manager,
            ).wallet_file.address_list()[1].0,
            old(wallet_manager).wallet_file.address_list().len() < 2 ==> exists|mid: WalletManager|
                #![trigger mid.wallet_file]
                address_added(old(wallet_manager).wallet_file, mid.wallet_file, r.0, "test-sender"@)
                    && address_added(mid.wallet_file, final(wallet_manager).wallet_file, r.1, "test-receiver"@),
    {
        let listed = wallet_manager.list_addresses();
        if listed.len() >= 2 {
            let from = listed[0].0.clone();
            let to = listed[1].0.clone();
            return (from, to);
        }
        let ghost before = *wallet_manager;
        let from = match wallet_manager.add_address("test-sender") {
            Ok(a) => a,
            Err(_) => text(""),
        };
        let ghost mid = *wallet_manager;
        let to = match wallet_manager.add_address("test-receiver") {
            Ok(a) => a,
            Err(_) => text(""),
        };
        proof {
            assert(address_added(before.wallet_file, mid.wallet_file, from, "test-sender"@));
        }
        (from, to)
    }

    /// Builds a transaction of `amount_sats` with a fee of 1000 between two
    /// addresses, signed with a fresh key, and validates it under that key;
    /// hands back its hash in hexadecimal. Refused when an address is not
    /// 32 bytes of hexadecimal text, when the message is not allowed, or
    /// when the transaction does not validate (as with a zero amount).
    pub fn execute_transaction_test(
        &self,
        from_address: &str,
        to_address: &str,
        amount_sats: u64,
        message: Option<&str>,
    ) -> (r: Result<String, TestError>)
        ensures
            r is Ok ==> exists|f: Seq<u8>, t: Seq<u8>|
                parses_to(from_address.spec_bytes(), f) && parses_to(to_address.spec_bytes(), t)
                    && #[trigger] test_transaction_hash(
                    r->Ok_0@,
                    f,
                    t,
                    amount_sats,
                    message_text(message),
                ),
            address_text_result(from_address.spec_bytes()) matches Err(e) ==> r == Err::<String, TestError>(
                TestError::InvalidAddress(e),
            ),
            address_text_result(from_address.spec_bytes()) is Ok ==> (address_text_result(to_address.spec_bytes()) matches Err(
                e,
            ) ==> r == Err::<String, TestError>(TestError::InvalidAddress(e))),
            address_text_result(from_address.spec_bytes()) is Ok && address_text_result(to_address.spec_bytes()) is Ok
                ==> {
                &&& (message matches Some(m) && encode_utf8(m@).len() > 10 ==> r == Err::<String, TestError>(
                    TestError::Transaction(TransactionError::MessageTooLong),
                ))
                &&& (message matches Some(m) && encode_utf8(m@).len() <= 10 && !message_ok(m@) ==> r == Err::<
                    String,
                    TestError,
                >(TestError::Transaction(TransactionError::NonPrintableMessage)))
                &&& ((message matches Some(m) ==> message_ok(m@)) && amount_sats == 0 ==> r == Err::<
                    String,
                    TestError,
                >(TestError::Transaction(TransactionError::ZeroAmount)))
                &&& ((message matches Some(m) ==> message_ok(m@)) && amount_sats > 0 ==> (r is Ok || r == Err::<
                    String,
                    TestError,
                >(TestError::Transaction(TransactionError::FutureTimestamp))))
            },
            amount_sats == 0 ==> r is Err,
    {
        let from_addr = match Address::from_string(from_address) {
            Ok(a) => a,
            Err(e) => {
                return Err(TestError::InvalidAddress(e));
            },
        };
        let to_addr = match Address::from_string(to_address) {
            Ok(a) => a,
            Err(e) => {
                return Err(TestError::InvalidAddress(e));
            },
        };
        let secret = random_bytes_32();
        let now = match now_unix_nanos() {
            Some(n) => n,
            None => 0,
        };
        let owned = match message {
            Some(m) => Some(text(m)),
            None => None,
        };
        let transaction = match Transaction::new_with_message(from_addr, to_addr, amount_sats, 1000, now, &secret, owned)
        {
            Ok(tx) => tx,
            Err(e) => {
                return Err(TestError::Transaction(e));
            },
        };
        let hash = transaction.hash();
        let tx_hash = encode_hex(hash.as_slice());
        let public_key = ed25519_public_key(&secret);
        match transaction.validate(&public_key) {
            Ok(()) => {},
            Err(e) => {
                return Err(TestError::Transaction(e));
            },
        }
        proof {
            let m = message_text(message);
            let at = choose|n: i64| Ok::<(), TransactionError>(()) == validation_outcome(transaction, public_key@, n);
            assert(validation_outcome(transaction, ed25519_public_key_of(secret@), at) is Ok);
            assert(test_transaction_hash(tx_hash@, from_addr@, to_addr@, amount_sats, m)) by {
                reveal(test_transaction_hash);
            }
            assert(parses_to(from_address.spec_bytes(), from_addr@));
            assert(parses_to(to_address.spec_bytes(), to_addr@));
        }
        let ghost hv = tx_hash@;
        let r: Result<String, TestError> = Ok(tx_hash);
        assert(r->Ok_0@ == hv);
        assert(test_transaction_hash(hv, from_addr@, to_addr@, amount_sats, message_text(message)));
        assert(r is Ok ==> exists|f: Seq<u8>, t: Seq<u8>|
            parses_to(from_address.spec_bytes(), f) && parses_to(to_address.spec_bytes(), t)
                && #[trigger] test_transaction_hash(r->Ok_0@, f, t, amount_sats, message_text(message)));
        r
    }

    /// Records a test's outcome as it took `duration_ms`, with the advice
    /// for it, and hands back the record.
    pub fn record_test_result(
        &mut self,
        test_id: u128,
        from_address: String,
        to_address: String,
        amount: u64,
        message: Option<String>,
        outcome: Result<String, TestError>,
        duration_ms: u64,
        timestamp: i64,
    ) -> (r: TransactionTestResult)
        ensures
            final(self).results().len() == old(self).results().len() + 1,
            final(self).results().take(old(self).results().len() as int) == old(self).results(),
            same_result(final(self).results().last(), r),
            r.test_id == test_id,
            r.test_type@ == "wallet_to_wallet"@,
            r.from_address == from_address,
            r.to_address == to_address,
            r.amount == amount,
            r.message == message,
            r.duration_ms == duration_ms,
            r.timestamp == timestamp,
            r.success == outcome is Ok,
            outcome matches Ok(h) ==> r.tx_hash == Some(h) && r.error_message is None,
            outcome matches Err(e) ==> r.tx_hash is None && (r.error_message matches Some(m) && m@
                == test_error_text(e)),
            r.recommendations@.map_values(|s: String| s@) == recommendations(outcome is Ok, duration_ms),
    {
        let success = outcome.is_ok();
        let (tx_hash, error_message) = match outcome {
            Ok(h) => (Some(h), None),
            Err(e) => (None, Some(test_error_message(e))),
        };
        let result = TransactionTestResult {
            test_id,
            test_type: text("wallet_to_wallet"),
            success,
            from_address,
            to_address,
            amount,
            message,
            duration_ms,
            tx_hash,
            error_message,
            timestamp,
            recommendations: recommendations_for(success, duration_ms),
        };
        self.test_results.push(result.duplicate());
        proof {
            assert(self.test_results@.take(old(self).results().len() as int) =~= old(self).results());
        }
        result
    }

    /// Every recorded result, oldest first.
    pub fn get_test_results(&self) -> (r: &[TransactionTestResult])
        ensures
            r@ == self.results(),
    {
        self.test_results.as_slice()
    }

    /// Forgets every recorded result.
    pub fn clear_test_results(&mut self)
        ensures
            final(self).results() == Seq::<TransactionTestResult>::empty(),
    {
        self.test_results = Vec::new();
    }
}

} // verus!
