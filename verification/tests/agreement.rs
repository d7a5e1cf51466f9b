use account_overrides::account_overrides::AccountOverrides;
use account_overrides::account_overrides_dashmap::AccountOverrideDashMap;
use solana_account::AccountSharedData;
use solana_pubkey::Pubkey;
use solana_sdk_ids::sysvar;

#[test]
fn both_stores_answer_the_same_calls_alike() {
    let keys: Vec<Pubkey> = (0..4).map(|_| Pubkey::new_unique()).collect();
    let record = |n: u64| AccountSharedData::new(n, n as usize, &keys[0]);
    // (address, what to write; `None` in the outer option is a lookup)
    let calls: Vec<(usize, Option<Option<AccountSharedData>>)> = vec![
        (0, None),
        (0, Some(Some(record(1)))),
        (0, None),
        (1, Some(None)),
        (1, None),
        (1, Some(Some(record(2)))),
        (0, Some(Some(record(3)))),
        (0, None),
        (1, None),
        (2, Some(Some(record(4)))),
        (0, Some(None)),
        (0, None),
        (2, None),
        (3, None),
        (0, Some(None)),
        (0, None),
    ];
    let expected: Vec<Option<AccountSharedData>> = vec![
        None,
        Some(record(1)),
        None,
        Some(record(3)),
        Some(record(2)),
        None,
        Some(record(4)),
        None,
        None,
    ];

    let mut exclusive = AccountOverrides::default();
    let mut shared = AccountOverrideDashMap::default();
    let mut from_exclusive: Vec<Option<AccountSharedData>> = Vec::new();
    let mut from_shared: Vec<Option<AccountSharedData>> = Vec::new();
    for (key, call) in calls {
        match call {
            Some(account) => {
                exclusive.set_account(&keys[key], account.clone());
                shared.set_account(&keys[key], account);
            }
            None => {
                from_exclusive.push(exclusive.get(&keys[key]).cloned());
                from_shared.push(shared.get(&keys[key]).map(|found| found.value().clone()));
            }
        }
    }

    assert_eq!(from_exclusive, from_shared);
    assert_eq!(from_exclusive, expected);
}

#[test]
fn both_stores_keep_the_slot_history_alike() {
    let mut exclusive = AccountOverrides::default();
    let mut shared = AccountOverrideDashMap::default();
    assert!(exclusive.get(&sysvar::slot_history::id()).is_none());
    assert!(shared.get(&sysvar::slot_history::id()).is_none());

    let data = AccountSharedData::new(9, 9, &sysvar::id());
    exclusive.set_slot_history(Some(data.clone()));
    shared.set_slot_history(Some(data.clone()));
    assert_eq!(exclusive.get(&sysvar::slot_history::id()), Some(&data));
    assert_eq!(
        shared
            .get(&sysvar::slot_history::id())
            .map(|found| found.value().clone()),
        Some(data)
    );

    exclusive.set_slot_history(None);
    shared.set_slot_history(None);
    assert!(exclusive.get(&sysvar::slot_history::id()).is_none());
    assert!(shared.get(&sysvar::slot_history::id()).is_none());
}
