//! What holds of every override store, whichever of the two it is.
//!
//! Both stores state what their operations do over `with_override` and
//! `override_at`; the statements here are about these two.

use crate::account_overrides::AccountOverrides;
use crate::account_overrides_dashmap::AccountOverrideDashMap;
use crate::ledger::slot_history_address;
use crate::overrides::{no_overrides, override_at, with_override, Overrides};
use solana_account::AccountSharedData;
use solana_pubkey::Pubkey;
use vstd::prelude::*;

verus! {

/// A lookup after a write of a record finds that record.
pub proof fn lemma_write_then_read(overrides: Overrides, address: Pubkey, account: AccountSharedData)
    ensures
        override_at(with_override(overrides, address, Some(account)), address) == Some(account),
{
}

/// Removing the override of an address that has none changes nothing, and a
/// lookup of that address still finds nothing.
pub proof fn lemma_remove_absent(overrides: Overrides, address: Pubkey)
    requires
        override_at(overrides, address) is None,
    ensures
        with_override(overrides, address, None) == overrides,
        override_at(with_override(overrides, address, None), address) is None,
{
    assert(with_override(overrides, address, None) =~= overrides);
}

/// Of two writes to one address the last one wins: the store is as if the
/// first had not happened.
pub proof fn lemma_last_write_wins(
    overrides: Overrides,
    address: Pubkey,
    first: AccountSharedData,
    second: AccountSharedData,
)
    ensures
        override_at(
            with_override(with_override(overrides, address, Some(first)), address, Some(second)),
            address,
        ) == Some(second),
        with_override(with_override(overrides, address, Some(first)), address, Some(second))
            == with_override(overrides, address, Some(second)),
{
    assert(with_override(with_override(overrides, address, Some(first)), address, Some(second))
        =~= with_override(overrides, address, Some(second)));
}

/// A lookup after a write and a removal finds nothing.
pub proof fn lemma_write_then_remove(overrides: Overrides, address: Pubkey, account: AccountSharedData)
    ensures
        override_at(
            with_override(with_override(overrides, address, Some(account)), address, None),
            address,
        ) is None,
{
}

/// A write leaves every other address as it was.
pub proof fn lemma_write_is_local(
    overrides: Overrides,
    address: Pubkey,
    account: Option<AccountSharedData>,
    other: Pubkey,
)
    requires
        other != address,
    ensures
        override_at(with_override(overrides, address, account), other) == override_at(
            overrides,
            other,
        ),
{
}

/// A new store has no override for the slot history, and a store in which
/// one was set returns it under the slot history's address.
pub proof fn lemma_slot_history(overrides: Overrides, account: AccountSharedData)
    ensures
        override_at(no_overrides(), slot_history_address()) is None,
        override_at(
            with_override(overrides, slot_history_address(), Some(account)),
            slot_history_address(),
        ) == Some(account),
{
}

/// The overrides after the writes in `writes`, from the first to the last.
pub open spec fn with_all(overrides: Overrides, writes: Seq<(Pubkey, AccountSharedData)>) -> Overrides
    decreases writes.len(),
{
    if writes.len() == 0 {
        overrides
    } else {
        with_override(
            with_all(overrides, writes.drop_last()),
            writes.last().0,
            Some(writes.last().1),
        )
    }
}

/// No two writes in `writes` are to the same address.
pub open spec fn distinct_targets(writes: Seq<(Pubkey, AccountSharedData)>) -> bool {
    forall|i: int, j: int| 0 <= i < j < writes.len() ==> (#[trigger] writes[i]).0 != (
    #[trigger] writes[j]).0
}

/// Whether one of `writes` is to `address`.
pub open spec fn targets(writes: Seq<(Pubkey, AccountSharedData)>, address: Pubkey) -> bool {
    exists|i: int| 0 <= i < writes.len() && (#[trigger] writes[i]).0 == address
}

/// Writes to distinct addresses do not disturb one another: once all are
/// done, each address written to has its own record, and every other address
/// is as it was.
pub proof fn lemma_distinct_writes(overrides: Overrides, writes: Seq<(Pubkey, AccountSharedData)>)
    requires
        distinct_targets(writes),
    ensures
        forall|i: int|
            0 <= i < writes.len() ==> override_at(with_all(overrides, writes), (#[trigger] writes[i]).0)
                == Some(writes[i].1),
        forall|address: Pubkey|
            !targets(writes, address) ==> #[trigger] override_at(with_all(overrides, writes), address)
                == override_at(overrides, address),
    decreases writes.len(),
{
    if writes.len() > 0 {
        let earlier = writes.drop_last();
        let last = writes.last();
        assert(distinct_targets(earlier)) by {
            assert forall|i: int, j: int| 0 <= i < j < earlier.len() implies (#[trigger] earlier[i]).0
                != (#[trigger] earlier[j]).0 by {
                assert(earlier[i] == writes[i] && earlier[j] == writes[j]);
            }
        }
        lemma_distinct_writes(overrides, earlier);
        assert forall|i: int| 0 <= i < writes.len() implies override_at(
            with_all(overrides, writes),
            (#[trigger] writes[i]).0,
        ) == Some(writes[i].1) by {
            if i < writes.len() - 1 {
                assert(earlier[i] == writes[i]);
                assert(writes[i].0 != writes[writes.len() - 1].0);
            }
        }
        assert forall|address: Pubkey| !targets(writes, address) implies #[trigger] override_at(
            with_all(overrides, writes),
            address,
        ) == override_at(overrides, address) by {
            assert(writes[writes.len() - 1].0 != address);
            assert(!targets(earlier, address)) by {
                if targets(earlier, address) {
                    let i = choose|i: int| 0 <= i < earlier.len() && (#[trigger] earlier[i]).0 == address;
                    assert(writes[i].0 == address);
                }
            }
            assert(override_at(with_all(overrides, earlier), address) == override_at(
                overrides,
                address,
            ));
            assert(with_all(overrides, writes) == with_override(
                with_all(overrides, earlier),
                last.0,
                Some(last.1),
            ));
        }
    }
}

/// Writes to distinct addresses may be done in any order: two ways of
/// ordering the same writes leave the same overrides.
pub proof fn lemma_order_of_distinct_writes(
    overrides: Overrides,
    one_order: Seq<(Pubkey, AccountSharedData)>,
    other_order: Seq<(Pubkey, AccountSharedData)>,
)
    requires
        distinct_targets(one_order),
        distinct_targets(other_order),
        one_order.to_multiset() == other_order.to_multiset(),
    ensures
        with_all(overrides, one_order) == with_all(overrides, other_order),
{
    let one = with_all(overrides, one_order);
    let other = with_all(overrides, other_order);
    lemma_distinct_writes(overrides, one_order);
    lemma_distinct_writes(overrides, other_order);
    one_order.to_multiset_ensures();
    other_order.to_multiset_ensures();
    assert forall|address: Pubkey| override_at(one, address) == override_at(other, address) by {
        if targets(one_order, address) {
            let i = choose|i: int| 0 <= i < one_order.len() && (#[trigger] one_order[i]).0 == address;
            assert(one_order.contains(one_order[i]));
            assert(other_order.to_multiset().count(one_order[i]) > 0);
            assert(other_order.contains(one_order[i]));
            let j = choose|j: int| 0 <= j < other_order.len() && other_order[j] == one_order[i];
            assert(other_order[j].0 == address);
        } else {
            assert(!targets(other_order, address)) by {
                if targets(other_order, address) {
                    let j = choose|j: int|
                        0 <= j < other_order.len() && (#[trigger] other_order[j]).0 == address;
                    assert(other_order.contains(other_order[j]));
                    assert(one_order.to_multiset().count(other_order[j]) > 0);
                    assert(one_order.contains(other_order[j]));
                    let i = choose|i: int| 0 <= i < one_order.len() && one_order[i] == other_order[j];
                    assert(one_order[i].0 == address);
                }
            }
        }
    }
    assert forall|address: Pubkey| one.contains_key(address) == other.contains_key(address) by {
        assert(override_at(one, address) == override_at(other, address));
    }
    assert forall|address: Pubkey| one.contains_key(address) implies one[address] == other[address] by {
        assert(override_at(one, address) == override_at(other, address));
    }
    assert(one =~= other);
}

/// One call on a store: a write, or a lookup.
pub enum Operation {
    /// Install the record for the address, or drop its override.
    Write(Pubkey, Option<AccountSharedData>),
    /// Look the address up.
    Lookup(Pubkey),
}

/// The overrides after the calls in `calls`, from the first to the last.
pub open spec fn overrides_after(overrides: Overrides, calls: Seq<Operation>) -> Overrides
    decreases calls.len(),
{
    if calls.len() == 0 {
        overrides
    } else {
        let before = overrides_after(overrides, calls.drop_last());
        match calls.last() {
            Operation::Write(address, account) => with_override(before, address, account),
            Operation::Lookup(_) => before,
        }
    }
}

/// What the lookups among `calls` return, in the order of the calls.
pub open spec fn lookups(overrides: Overrides, calls: Seq<Operation>) -> Seq<Option<AccountSharedData>>
    decreases calls.len(),
{
    if calls.len() == 0 {
        Seq::empty()
    } else {
        let earlier = lookups(overrides, calls.drop_last());
        match calls.last() {
            Operation::Write(_, _) => earlier,
            Operation::Lookup(address) => earlier.push(
                override_at(overrides_after(overrides, calls.drop_last()), address),
            ),
        }
    }
}

/// The two stores agree: given the same calls one after the other, starting
/// from the same overrides, their lookups return the same and they end with
/// the same overrides.
pub proof fn lemma_stores_agree(
    exclusive: AccountOverrides,
    shared: AccountOverrideDashMap,
    calls: Seq<Operation>,
)
    requires
        exclusive@ == shared@,
    ensures
        lookups(exclusive@, calls) == lookups(shared@, calls),
        overrides_after(exclusive@, calls) == overrides_after(shared@, calls),
{
}

} // verus!
