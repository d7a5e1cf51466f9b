use account_overrides::account_overrides_dashmap::AccountOverrideDashMap;
use solana_account::{AccountSharedData, ReadableAccount};
use solana_pubkey::Pubkey;
use solana_sdk_ids::sysvar;

#[test]
fn test_set_account() {
    let mut accounts = AccountOverrideDashMap::default();
    let data = AccountSharedData::default();
    let key = Pubkey::new_unique();
    accounts.set_account(&key, Some(data.clone()));
    assert_eq!(*accounts.get(&key).unwrap().value(), data);

    accounts.set_account(&key, None);
    assert!(accounts.get(&key).is_none());
}

#[test]
fn test_slot_history() {
    let mut accounts = AccountOverrideDashMap::default();
    let data = AccountSharedData::default();

    assert_eq!(accounts.get(&sysvar::slot_history::id()).is_none(), true);
    accounts.set_slot_history(Some(data.clone()));

    assert_eq!(
        *accounts.get(&sysvar::slot_history::id()).unwrap().value(),
        data
    );
}

#[test]
fn shared_new_store_finds_nothing() {
    let accounts = AccountOverrideDashMap::default();
    assert!(accounts.get(&Pubkey::new_unique()).is_none());
    assert!(accounts.get(&Pubkey::default()).is_none());
}

#[test]
fn shared_get_returns_the_record_that_was_set() {
    let mut accounts = AccountOverrideDashMap::default();
    let owner = Pubkey::new_unique();
    let key = Pubkey::new_unique();
    let data = AccountSharedData::new(1000, 100, &owner);
    accounts.set_account(&key, Some(data.clone()));

    let found = accounts.get(&key).unwrap();
    assert_eq!(*found.key(), key);
    assert_eq!(*found.value(), data);
    assert_eq!(found.value().lamports(), 1000);
    assert_eq!(found.value().data().len(), 100);
    assert_eq!(*found.value().owner(), owner);
    assert_ne!(*found.value(), AccountSharedData::default());
}

#[test]
fn shared_remove_of_absent_address_changes_nothing() {
    let mut accounts = AccountOverrideDashMap::default();
    let kept = Pubkey::new_unique();
    let absent = Pubkey::new_unique();
    let data = AccountSharedData::new(7, 3, &Pubkey::new_unique());
    accounts.set_account(&kept, Some(data.clone()));

    accounts.set_account(&absent, None);
    assert!(accounts.get(&absent).is_none());
    assert_eq!(*accounts.get(&kept).unwrap().value(), data);

    accounts.set_account(&absent, None);
    assert!(accounts.get(&absent).is_none());
    assert_eq!(*accounts.get(&kept).unwrap().value(), data);
}

#[test]
fn shared_last_write_wins() {
    let mut accounts = AccountOverrideDashMap::default();
    let key = Pubkey::new_unique();
    let first = AccountSharedData::new(1, 0, &Pubkey::new_unique());
    let second = AccountSharedData::new(2, 8, &Pubkey::new_unique());
    accounts.set_account(&key, Some(first.clone()));
    accounts.set_account(&key, Some(second.clone()));

    assert_eq!(*accounts.get(&key).unwrap().value(), second);
    assert_ne!(*accounts.get(&key).unwrap().value(), first);
}

#[test]
fn shared_set_then_remove_finds_nothing() {
    let mut accounts = AccountOverrideDashMap::default();
    let key = Pubkey::new_unique();
    let other = Pubkey::new_unique();
    let data = AccountSharedData::new(5, 5, &Pubkey::new_unique());
    accounts.set_account(&key, Some(data.clone()));
    accounts.set_account(&other, Some(data.clone()));
    accounts.set_account(&key, None);

    assert!(accounts.get(&key).is_none());
    assert_eq!(*accounts.get(&other).unwrap().value(), data);
}

#[test]
fn shared_write_leaves_other_addresses_alone() {
    let mut accounts = AccountOverrideDashMap::default();
    let one = Pubkey::new_unique();
    let two = Pubkey::new_unique();
    let first = AccountSharedData::new(11, 1, &Pubkey::new_unique());
    let second = AccountSharedData::new(22, 2, &Pubkey::new_unique());
    accounts.set_account(&one, Some(first.clone()));
    accounts.set_account(&two, Some(second.clone()));

    assert_eq!(*accounts.get(&one).unwrap().value(), first);
    assert_eq!(*accounts.get(&two).unwrap().value(), second);
}

#[test]
fn shared_slot_history_is_stored_under_the_sysvar_address() {
    let mut accounts = AccountOverrideDashMap::default();
    let data = AccountSharedData::new(42, 16, &sysvar::id());
    accounts.set_slot_history(Some(data.clone()));

    let address: Pubkey = "SysvarS1otHistory11111111111111111111111111".parse().unwrap();
    assert_eq!(sysvar::slot_history::id(), address);
    assert_eq!(*accounts.get(&address).unwrap().value(), data);
    assert!(accounts.get(&sysvar::clock::id()).is_none());
    assert!(accounts.get(&Pubkey::default()).is_none());

    accounts.set_slot_history(None);
    assert!(accounts.get(&address).is_none());
}

#[test]
fn shared_slot_history_is_an_ordinary_entry() {
    let mut accounts = AccountOverrideDashMap::default();
    let by_name = AccountSharedData::new(1, 1, &sysvar::id());
    let by_address = AccountSharedData::new(2, 2, &sysvar::id());
    accounts.set_slot_history(Some(by_name.clone()));
    accounts.set_account(&sysvar::slot_history::id(), Some(by_address.clone()));
    assert_eq!(
        *accounts.get(&sysvar::slot_history::id()).unwrap().value(),
        by_address
    );

    accounts.set_account(&sysvar::slot_history::id(), None);
    assert!(accounts.get(&sysvar::slot_history::id()).is_none());
}

#[test]
fn shared_distinct_writes_in_any_order() {
    let keys: Vec<Pubkey> = (0..16).map(|_| Pubkey::new_unique()).collect();
    let records: Vec<AccountSharedData> = (0..16u64)
        .map(|i| AccountSharedData::new(100 + i, i as usize, &keys[0]))
        .collect();

    let mut forward = AccountOverrideDashMap::default();
    for i in 0..16 {
        forward.set_account(&keys[i], Some(records[i].clone()));
    }
    let mut backward = AccountOverrideDashMap::default();
    for i in (0..16).rev() {
        backward.set_account(&keys[i], Some(records[i].clone()));
    }
    let mut shuffled = AccountOverrideDashMap::default();
    for step in 0..16 {
        let i = (step * 7 + 3) % 16;
        shuffled.set_account(&keys[i], Some(records[i].clone()));
    }

    for i in 0..16 {
        assert_eq!(*forward.get(&keys[i]).unwrap().value(), records[i]);
        assert_eq!(*backward.get(&keys[i]).unwrap().value(), records[i]);
        assert_eq!(*shuffled.get(&keys[i]).unwrap().value(), records[i]);
        assert_eq!(forward.get(&keys[i]).unwrap().value().lamports(), 100 + i as u64);
    }
    assert!(forward.get(&Pubkey::new_unique()).is_none());
}
