//! The override store for a caller with exclusive access.

use crate::ledger::{same_address, slot_history_address};
use crate::overrides::{no_overrides, override_at, with_override, Overrides};
use solana_account::AccountSharedData;
use solana_pubkey::Pubkey;
use solana_sdk_ids::sysvar;
use vstd::prelude::*;

verus! {

/// One override: the record to use in place of the account at `address`.
struct OverrideEntry {
    address: Pubkey,
    account: AccountSharedData,
}

/// Encapsulates overridden accounts, typically used for transaction
/// simulations. Account overrides are currently not used when loading the
/// durable nonce account or when constructing the instructions sysvar account.
///
/// The entries are kept in the order in which their addresses were first
/// written, one entry per address.
pub struct AccountOverrides {
    entries: Vec<OverrideEntry>,
}

/// Whether `entries` has an entry for `address`.
spec fn has_entry(entries: Seq<OverrideEntry>, address: Pubkey) -> bool {
    exists|i: int| 0 <= i < entries.len() && #[trigger] entries[i].address == address
}

/// The place of the entry for `address` in `entries`, where there is one.
spec fn entry_index(entries: Seq<OverrideEntry>, address: Pubkey) -> int {
    choose|i: int| 0 <= i < entries.len() && #[trigger] entries[i].address == address
}

/// No two entries of `entries` are for the same address.
spec fn distinct_addresses(entries: Seq<OverrideEntry>) -> bool {
    forall|i: int, j: int|
        0 <= i < j < entries.len() ==> #[trigger] entries[i].address != #[trigger] entries[j].address
}

/// The map that a list of entries with distinct addresses stands for.
spec fn entries_as_map(entries: Seq<OverrideEntry>) -> Overrides {
    Map::new(
        |address: Pubkey| has_entry(entries, address),
        |address: Pubkey| entries[entry_index(entries, address)].account,
    )
}

impl View for AccountOverrides {
    type V = Overrides;

    closed spec fn view(&self) -> Overrides {
        entries_as_map(self.entries@)
    }
}

impl Default for AccountOverrides {
    /// A store without overrides.
    fn default() -> (store: Self)
        ensures
            store@ == no_overrides(),
    {
        let store = AccountOverrides { entries: Vec::new() };
        assert(store@ =~= no_overrides());
        store
    }
}

impl AccountOverrides {
    /// Every store holds at most one entry per address.
    #[verifier::type_invariant]
    spec fn well_formed(self) -> bool {
        distinct_addresses(self.entries@)
    }

    /// The index of the entry for `pubkey`, if the store has one.
    fn position(&self, pubkey: &Pubkey) -> (found: Option<usize>)
        ensures
            match found {
                Some(index) => index < self.entries@.len() && self.entries@[index as int].address
                    == *pubkey,
                None => !has_entry(self.entries@, *pubkey),
            },
    {
        let mut index: usize = 0;
        while index < self.entries.len()
            invariant
                index <= self.entries@.len(),
                forall|i: int| 0 <= i < index ==> (#[trigger] self.entries@[i]).address != *pubkey,
            decreases self.entries@.len() - index,
        {
            if same_address(&self.entries[index].address, pubkey) {
                return Some(index);
            }
            index += 1;
        }
        None
    }

    /// Insert or remove an account with a given pubkey to/from the list of overrides.
    pub fn set_account(&mut self, pubkey: &Pubkey, account: Option<AccountSharedData>)
        ensures
            final(self)@ == with_override(old(self)@, *pubkey, account),
    {
        proof {
            use_type_invariant(&*self);
        }
        let place = self.position(pubkey);
        // The list changes outside the store and is put back once it is
        // whole again, so the store never holds a list that is half changed.
        let mut entries: Vec<OverrideEntry> = Vec::new();
        core::mem::swap(&mut self.entries, &mut entries);
        match account {
            Some(account) => {
                let entry = OverrideEntry { address: *pubkey, account };
                match place {
                    Some(index) => {
                        proof {
                            lemma_replaced(entries@, index as int, entry);
                        }
                        entries.set(index, entry);
                    },
                    None => {
                        proof {
                            lemma_appended(entries@, entry);
                        }
                        entries.push(entry);
                    },
                }
            },
            None => {
                if let Some(index) = place {
                    proof {
                        lemma_dropped(entries@, index as int);
                    }
                    let _removed: OverrideEntry = entries.remove(index);
                } else {
                    proof {
                        lemma_absent(entries@, *pubkey);
                    }
                }
            },
        }
        self.entries = entries;
    }

    /// Sets in the slot history
    ///
    /// Note: no checks are performed on the correctness of the contained data
    pub fn set_slot_history(&mut self, slot_history: Option<AccountSharedData>)
        ensures
            final(self)@ == with_override(old(self)@, slot_history_address(), slot_history),
    {
        self.set_account(&sysvar::slot_history::id(), slot_history);
    }

    /// Gets the account if it's found in the list of overrides
    pub fn get(&self, pubkey: &Pubkey) -> (found: Option<&AccountSharedData>)
        ensures
            found == match override_at(self@, *pubkey) {
                Some(account) => Some(&account),
                None => None,
            },
    {
        proof {
            use_type_invariant(self);
        }
        match self.position(pubkey) {
            Some(index) => {
                proof {
                    lemma_entry_found(self.entries@, index as int);
                }
                Some(&self.entries[index].account)
            },
            None => None,
        }
    }
}

/// In a list with distinct addresses, the entry at `index` is the one that
/// the map has for its address.
proof fn lemma_entry_found(entries: Seq<OverrideEntry>, index: int)
    requires
        distinct_addresses(entries),
        0 <= index < entries.len(),
    ensures
        entries_as_map(entries).contains_key(entries[index].address),
        entries_as_map(entries)[entries[index].address] == entries[index].account,
{
    let address = entries[index].address;
    assert(has_entry(entries, address));
    let chosen = entry_index(entries, address);
    assert(chosen == index);
}

/// Replacing the entry for an address changes the map at that address only.
proof fn lemma_replaced(before: Seq<OverrideEntry>, index: int, entry: OverrideEntry)
    requires
        distinct_addresses(before),
        0 <= index < before.len(),
        before[index].address == entry.address,
    ensures
        distinct_addresses(before.update(index, entry)),
        entries_as_map(before.update(index, entry)) == entries_as_map(before).insert(
            entry.address,
            entry.account,
        ),
{
    let after = before.update(index, entry);
    let expected = entries_as_map(before).insert(entry.address, entry.account);
    assert forall|i: int| 0 <= i < after.len() implies (#[trigger] after[i]).address
        == before[i].address by {}
    assert forall|address: Pubkey| #[trigger]
        entries_as_map(after).contains_key(address) == expected.contains_key(address) by {
        if has_entry(after, address) {
            let i = entry_index(after, address);
            assert(before[i].address == address);
        }
        if has_entry(before, address) {
            let i = entry_index(before, address);
            assert(after[i].address == address);
        }
        if address == entry.address {
            assert(after[index].address == address);
        }
    }
    assert forall|address: Pubkey| #[trigger] expected.contains_key(address) implies entries_as_map(
        after,
    )[address] == expected[address] by {
        assert(entries_as_map(after).contains_key(address));
        let i = entry_index(after, address);
        lemma_entry_found(after, i);
        if address != entry.address {
            lemma_entry_found(before, i);
        }
    }
    assert(entries_as_map(after) =~= expected);
}

/// Appending an entry for an address that has none adds it to the map.
proof fn lemma_appended(before: Seq<OverrideEntry>, entry: OverrideEntry)
    requires
        distinct_addresses(before),
        !has_entry(before, entry.address),
    ensures
        distinct_addresses(before.push(entry)),
        entries_as_map(before.push(entry)) == entries_as_map(before).insert(
            entry.address,
            entry.account,
        ),
{
    let after = before.push(entry);
    let expected = entries_as_map(before).insert(entry.address, entry.account);
    assert forall|i: int| 0 <= i < before.len() implies (#[trigger] after[i]) == before[i] && (
    #[trigger] before[i]).address != entry.address by {}
    assert(after[before.len() as int] == entry);
    assert forall|address: Pubkey| #[trigger]
        entries_as_map(after).contains_key(address) == expected.contains_key(address) by {
        if has_entry(after, address) && address != entry.address {
            let i = entry_index(after, address);
            assert(before[i].address == address);
        }
        if has_entry(before, address) {
            let i = entry_index(before, address);
            assert(after[i].address == address);
        }
        if address == entry.address {
            assert(after[before.len() as int].address == address);
        }
    }
    assert forall|address: Pubkey| #[trigger] expected.contains_key(address) implies entries_as_map(
        after,
    )[address] == expected[address] by {
        assert(entries_as_map(after).contains_key(address));
        let i = entry_index(after, address);
        lemma_entry_found(after, i);
        if address != entry.address {
            lemma_entry_found(before, i);
        }
    }
    assert(entries_as_map(after) =~= expected);
}

/// Taking the entry for an address out of the list takes it out of the map.
proof fn lemma_dropped(before: Seq<OverrideEntry>, index: int)
    requires
        distinct_addresses(before),
        0 <= index < before.len(),
    ensures
        distinct_addresses(before.remove(index)),
        entries_as_map(before.remove(index)) == entries_as_map(before).remove(
            before[index].address,
        ),
{
    let after = before.remove(index);
    let gone = before[index].address;
    let expected = entries_as_map(before).remove(gone);
    assert forall|i: int| 0 <= i < after.len() implies #[trigger] after[i] == before[if i
        < index {
        i
    } else {
        i + 1
    }] by {}
    assert forall|address: Pubkey| #[trigger]
        entries_as_map(after).contains_key(address) == expected.contains_key(address) by {
        if has_entry(after, address) {
            let i = entry_index(after, address);
            let j = if i < index { i } else { i + 1 };
            assert(before[j].address == address);
        }
        if has_entry(before, address) && address != gone {
            let j = entry_index(before, address);
            let i = if j < index { j } else { j - 1 };
            assert(after[i].address == address);
        }
    }
    assert forall|address: Pubkey| #[trigger] expected.contains_key(address) implies entries_as_map(
        after,
    )[address] == expected[address] by {
        assert(entries_as_map(after).contains_key(address));
        let i = entry_index(after, address);
        lemma_entry_found(after, i);
        lemma_entry_found(before, if i < index { i } else { i + 1 });
    }
    assert(entries_as_map(after) =~= expected);
}

/// Without an entry for an address, the map has nothing to take out for it.
proof fn lemma_absent(entries: Seq<OverrideEntry>, address: Pubkey)
    requires
        !has_entry(entries, address),
    ensures
        entries_as_map(entries).remove(address) == entries_as_map(entries),
{
    assert(entries_as_map(entries).remove(address) =~= entries_as_map(entries));
}

} // verus!
