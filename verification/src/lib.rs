//! Verified core of the Paradigm network: addresses, the PAR token ledger,
//! wallets, transactions and their validation rules, and the tokenomics
//! bookkeeping that sits on top of them.
use vstd::prelude::*;

pub mod address;
pub mod sys;
pub mod text;
pub mod tokenomics;
pub mod transaction;
pub mod transaction_tester;
pub mod transaction_throughput;
pub mod transaction_validation;
pub mod wallet;
pub mod wallet_manager;
pub mod vecmap;
pub mod keyorder;
pub mod shared_map;

verus! {

} // verus!
