//! The ledger's address and account types, as this library sees them.
//!
//! Both are carried through as opaque values: the library never looks inside
//! an address or an account record.

use solana_account::AccountSharedData;
use solana_pubkey::Pubkey;
use vstd::prelude::*;

verus! {

/// An account address: `solana_pubkey::Pubkey`, 32 bytes compared as a whole.
#[verifier::external_type_specification]
#[verifier::external_body]
pub struct ExPubkey(Pubkey);

/// An account record: `solana_account::AccountSharedData`, held as one value.
#[verifier::external_type_specification]
#[verifier::external_body]
pub struct ExAccountSharedData(AccountSharedData);

/// The address that `Pubkey::from_str_const` decodes from base58 text.
pub uninterp spec fn address_from_base58(text: Seq<char>) -> Pubkey;

/// The address of the slot-history sysvar.
pub open spec fn slot_history_address() -> Pubkey {
    address_from_base58("SysvarS1otHistory11111111111111111111111111"@)
}

/// `solana_sdk_ids::sysvar::slot_history::id` returns the constant that the
/// crate declares by decoding the base58 text below with
/// `Pubkey::from_str_const`.
pub assume_specification[ solana_sdk_ids::sysvar::slot_history::id ]() -> (id: Pubkey)
    ensures
        id == address_from_base58("SysvarS1otHistory11111111111111111111111111"@),
;

/// `Pubkey`'s `==` compares the 32 bytes of the two addresses, which are all
/// that an address holds: it answers whether they are the same address.
#[verifier::external_body]
pub(crate) fn same_address(left: &Pubkey, right: &Pubkey) -> (same: bool)
    ensures
        same == (*left == *right),
{
    left == right
}

} // verus!
