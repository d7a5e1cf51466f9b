//! The override store that may be shared between threads.

use crate::ledger::slot_history_address;
use crate::overrides::{no_overrides, override_at, with_override, Overrides};
use crate::sharded_map::{empty_map, guarded_account, map_entries, map_get, map_insert, map_remove};
use dashmap::mapref::one::Ref;
use dashmap::DashMap;
use solana_account::AccountSharedData;
use solana_pubkey::Pubkey;
use solana_sdk_ids::sysvar;
use vstd::prelude::*;

verus! {

/// Encapsulates overridden accounts, typically used for transaction
/// simulations. Account overrides are currently not used when loading the
/// durable nonce account or when constructing the instructions sysvar account.
///
/// The entries live in a sharded map, so lookups may run on several threads
/// at once. A lookup hands out a guard that keeps its shard locked for
/// reading; a write needs the store exclusively, so no guard can be alive
/// while it runs.
pub struct AccountOverrideDashMap {
    accounts: DashMap<Pubkey, AccountSharedData>,
}

impl View for AccountOverrideDashMap {
    type V = Overrides;

    closed spec fn view(&self) -> Overrides {
        map_entries(self.accounts)
    }
}

/// The record behind the guard that a lookup returned, if it returned one.
pub open spec fn guarded(found: Option<Ref<Pubkey, AccountSharedData>>) -> Option<AccountSharedData> {
    match found {
        Some(guard) => Some(guarded_account(guard)),
        None => None,
    }
}

impl Default for AccountOverrideDashMap {
    /// A store without overrides.
    fn default() -> (store: Self)
        ensures
            store@ == no_overrides(),
    {
        AccountOverrideDashMap { accounts: empty_map() }
    }
}

impl AccountOverrideDashMap {
    /// Insert or remove an account with a given pubkey to/from the list of overrides.
    pub fn set_account(&mut self, pubkey: &Pubkey, account: Option<AccountSharedData>)
        ensures
            final(self)@ == with_override(old(self)@, *pubkey, account),
    {
        let _previous: Option<AccountSharedData> = match account {
            Some(account) => map_insert(&mut self.accounts, *pubkey, account),
            None => {
                if let Some((_, v)) = map_remove(&mut self.accounts, pubkey) {
                    Some(v)
                } else {
                    None
                }
            },
        };
    }

    /// Sets in the slot history
    ///
    /// Note: no checks are performed on the correctness of the contained data
    pub fn set_slot_history(&mut self, slot_history: Option<AccountSharedData>)
        ensures
            final(self)@ == with_override(old(self)@, slot_history_address(), slot_history),
    {
        self.set_account(&sysvar::slot_history::id(), slot_history);
    }

    /// Gets the account if it's found in the list of overrides
    pub fn get(&self, pubkey: &Pubkey) -> (found: Option<Ref<'_, Pubkey, AccountSharedData>>)
        ensures
            guarded(found) == override_at(self@, *pubkey),
    {
        map_get(&self.accounts, pubkey)
    }
}

} // verus!
