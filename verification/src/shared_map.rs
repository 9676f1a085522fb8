//! The concurrent maps of the transaction pool, `dashmap::DashMap`, with
//! what each method used here does to their contents.
use vstd::prelude::*;
use std::collections::BTreeMap;
use dashmap::DashMap;
use crate::address::Address;
use crate::transaction_throughput::{same_pending, PendingTransaction};

verus! {

/// `dashmap::DashMap`, a hash map that can be shared between threads.
#[verifier::external_type_specification]
#[verifier::external_body]
#[verifier::reject_recursive_types(K)]
#[verifier::reject_recursive_types(V)]
#[verifier::reject_recursive_types(S)]
pub struct ExDashMap<K, V, S>(DashMap<K, V, S>);

/// What a map of pending transactions holds, by id.
pub uninterp spec fn pending_contents(m: DashMap<u128, PendingTransaction>) -> Map<u128, PendingTransaction>;

/// What a map of sender nonces holds: for each sender address, its nonce
/// index.
pub uninterp spec fn nonce_contents(m: DashMap<Address, BTreeMap<u64, u128>>) -> Map<Seq<u8>, Map<u64, u128>>;

/// `DashMap::new`: an empty map.
#[verifier::external_body]
pub fn pending_map_new() -> (r: DashMap<u128, PendingTransaction>)
    ensures
        (pending_contents(r) == Map::<u128, PendingTransaction>::empty()),
{
    DashMap::new()
}

/// `DashMap::len`: the number of entries.
#[verifier::external_body]
pub fn pending_map_len(m: &DashMap<u128, PendingTransaction>) -> (r: usize)
    ensures
        r == pending_contents(*m).dom().len(),
{
    m.len()
}

/// `DashMap::get`: a copy (made by `PendingTransaction::duplicate`) of the
/// entry of `k`, if there is one.
#[verifier::external_body]
pub fn pending_map_get(m: &DashMap<u128, PendingTransaction>, k: u128) -> (r: Option<PendingTransaction>)
    ensures
        match r {
            Some(p) => pending_contents(*m).contains_key(k) && same_pending(p, pending_contents(*m)[k]),
            None => !pending_contents(*m).contains_key(k),
        },
{
    match m.get(&k) {
        Some(entry) => Some(entry.value().duplicate()),
        None => None,
    }
}

/// `DashMap::insert`: sets the entry of `k` to `v`.
#[verifier::external_body]
pub fn pending_map_insert(m: &mut DashMap<u128, PendingTransaction>, k: u128, v: PendingTransaction)
    ensures
        pending_contents(*final(m)) == pending_contents(*old(m)).insert(k, v),
{
    let _ = m.insert(k, v);
}

/// `DashMap::remove`: takes out the entry of `k`, if there is one.
#[verifier::external_body]
pub fn pending_map_remove(m: &mut DashMap<u128, PendingTransaction>, k: u128) -> (r: Option<PendingTransaction>)
    ensures
        pending_contents(*final(m)) == pending_contents(*old(m)).remove(k),
        match r {
            Some(p) => pending_contents(*old(m)).contains_key(k) && p == pending_contents(*old(m))[k],
            None => !pending_contents(*old(m)).contains_key(k),
        },
{
    match m.remove(&k) {
        Some((_, v)) => Some(v),
        None => None,
    }
}

/// `DashMap::iter`: the ids of all entries, each once, in the order the
/// map's shards hold them (which its hasher decides).
#[verifier::external_body]
pub fn pending_map_ids(m: &DashMap<u128, PendingTransaction>) -> (r: Vec<u128>)
    ensures
        r@.no_duplicates(),
        forall|k: u128| #[trigger] r@.contains(k) <==> pending_contents(*m).contains_key(k),
{
    m.iter().map(|entry| *entry.key()).collect()
}

/// `DashMap::new`: an empty map.
#[verifier::external_body]
pub fn nonce_map_new() -> (r: DashMap<Address, BTreeMap<u64, u128>>)
    ensures
        (nonce_contents(r) == Map::<Seq<u8>, Map<u64, u128>>::empty()),
{
    DashMap::new()
}

/// `DashMap::get`: a copy (by `BTreeMap::clone`) of the nonce index of
/// `a`, if there is one.
#[verifier::external_body]
pub fn nonce_map_get(m: &DashMap<Address, BTreeMap<u64, u128>>, a: &Address) -> (r: Option<BTreeMap<u64, u128>>)
    ensures
        match r {
            Some(b) => nonce_contents(*m).contains_key(a@) && b@ == nonce_contents(*m)[a@],
            None => !nonce_contents(*m).contains_key(a@),
        },
{
    match m.get(a) {
        Some(entry) => Some(entry.value().clone()),
        None => None,
    }
}

/// `DashMap::insert`: sets the nonce index of `a` to `b`.
#[verifier::external_body]
pub fn nonce_map_insert(m: &mut DashMap<Address, BTreeMap<u64, u128>>, a: Address, b: BTreeMap<u64, u128>)
    ensures
        nonce_contents(*final(m)) == nonce_contents(*old(m)).insert(a@, b@),
{
    let _ = m.insert(a, b);
}

/// `DashMap::remove`: takes out the nonce index of `a`, if there is one.
#[verifier::external_body]
pub fn nonce_map_remove(m: &mut DashMap<Address, BTreeMap<u64, u128>>, a: &Address) -> (r: Option<
    BTreeMap<u64, u128>,
>)
    ensures
        nonce_contents(*final(m)) == nonce_contents(*old(m)).remove(a@),
        match r {
            Some(b) => nonce_contents(*old(m)).contains_key(a@) && b@ == nonce_contents(*old(m))[a@],
            None => !nonce_contents(*old(m)).contains_key(a@),
        },
{
    match m.remove(a) {
        Some((_, b)) => Some(b),
        None => None,
    }
}

} // verus!
