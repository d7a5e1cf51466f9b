//! The mathematical model of an override store: a finite map from addresses
//! to account records, and what writing to it and reading from it mean.

use solana_account::AccountSharedData;
use solana_pubkey::Pubkey;
use vstd::prelude::*;

verus! {

/// What a store holds: at most one record per address.
pub type Overrides = Map<Pubkey, AccountSharedData>;

/// The store without overrides.
pub open spec fn no_overrides() -> Overrides {
    Map::empty()
}

/// The overrides after one write: `Some` installs the record for `address`,
/// in place of an earlier one, and `None` drops the entry for `address`.
pub open spec fn with_override(
    overrides: Overrides,
    address: Pubkey,
    account: Option<AccountSharedData>,
) -> Overrides {
    match account {
        Some(record) => overrides.insert(address, record),
        None => overrides.remove(address),
    }
}

/// The record that overrides the account at `address`, if there is one.
pub open spec fn override_at(overrides: Overrides, address: Pubkey) -> Option<AccountSharedData> {
    if overrides.contains_key(address) {
        Some(overrides[address])
    } else {
        None
    }
}

} // verus!
