//! What this library relies on from `dashmap::DashMap`.
//!
//! The map's methods all take `&self`. The functions here that change the map
//! ask for `&mut` instead, so that no lookup guard is alive while they run:
//! the map's documentation warns that a change may not return while the caller
//! holds one.

use crate::overrides::Overrides;
use dashmap::mapref::one::Ref;
use dashmap::DashMap;
use solana_account::AccountSharedData;
use solana_pubkey::Pubkey;
use vstd::prelude::*;

verus! {

/// `dashmap::DashMap`: a hash map in shards, each behind a lock of its own.
#[verifier::external_type_specification]
#[verifier::external_body]
#[verifier::reject_recursive_types(K)]
#[verifier::reject_recursive_types(V)]
#[verifier::reject_recursive_types(S)]
pub struct ExDashMap<K, V, S>(DashMap<K, V, S>);

/// `dashmap::mapref::one::Ref`: the guard that a lookup returns. It points at
/// one entry and keeps that entry's shard locked for reading while it lives.
#[verifier::external_type_specification]
#[verifier::external_body]
#[verifier::reject_recursive_types(K)]
#[verifier::reject_recursive_types(V)]
#[verifier::reject_recursive_types(S)]
pub struct ExRef<'a, K, V, S>(Ref<'a, K, V, S>);

/// The entries that a map of overrides holds.
pub uninterp spec fn map_entries(m: DashMap<Pubkey, AccountSharedData>) -> Overrides;

/// The record that a lookup guard gives access to: what `Ref::value` returns.
pub uninterp spec fn guarded_account(guard: Ref<Pubkey, AccountSharedData>) -> AccountSharedData;

/// `DashMap::default` builds a map without entries.
#[verifier::external_body]
pub(crate) fn empty_map() -> (created: DashMap<Pubkey, AccountSharedData>)
    ensures
        map_entries(created) == Overrides::empty(),
{
    DashMap::default()
}

/// `DashMap::insert` stores `account` under `address`, in place of what was
/// stored there, and returns the record that it replaced.
#[verifier::external_body]
pub(crate) fn map_insert(
    m: &mut DashMap<Pubkey, AccountSharedData>,
    address: Pubkey,
    account: AccountSharedData,
) -> (replaced: Option<AccountSharedData>)
    ensures
        map_entries(*final(m)) == map_entries(*old(m)).insert(address, account),
        replaced == if map_entries(*old(m)).contains_key(address) {
            Some(map_entries(*old(m))[address])
        } else {
            None
        },
{
    m.insert(address, account)
}

/// `DashMap::remove` takes the entry for `address` out of the map and returns
/// it; a map without such an entry stays as it is.
#[verifier::external_body]
pub(crate) fn map_remove(m: &mut DashMap<Pubkey, AccountSharedData>, address: &Pubkey) -> (removed:
    Option<(Pubkey, AccountSharedData)>)
    ensures
        map_entries(*final(m)) == map_entries(*old(m)).remove(*address),
        removed == if map_entries(*old(m)).contains_key(*address) {
            Some((*address, map_entries(*old(m))[*address]))
        } else {
            None
        },
{
    m.remove(address)
}

/// `DashMap::get` returns a guard on the record stored under `address`, and
/// `None` where the map has no entry for it.
#[verifier::external_body]
pub(crate) fn map_get<'a>(m: &'a DashMap<Pubkey, AccountSharedData>, address: &Pubkey) -> (found:
    Option<Ref<'a, Pubkey, AccountSharedData>>)
    ensures
        found is Some <==> map_entries(*m).contains_key(*address),
        found is Some ==> guarded_account(found->0) == map_entries(*m)[*address],
{
    m.get(address)
}

} // verus!
