//! Account overrides for transaction simulation.
//!
//! An override store maps account addresses to account records that take the
//! place of the stored accounts while one simulated transaction runs. The
//! crate has two of them with the same behaviour: `AccountOverrides` for a
//! caller with exclusive access, and `AccountOverrideDashMap`, whose lookups
//! may run on several threads at once.

pub mod account_overrides;
pub mod account_overrides_dashmap;
pub mod laws;
pub mod ledger;
pub mod overrides;
pub mod sharded_map;
