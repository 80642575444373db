use asset_ledger::address::{Address, Grant};
use asset_ledger::table::{Key, Table};

fn address(n: u128) -> Address {
    Address::account(0, n)
}

#[test]
fn new_table_holds_nothing() {
    let table: Table<Address, i128> = Table::new();
    assert_eq!(table.get(address(1)), None);
}

#[test]
fn set_stores_and_replaces() {
    let mut table: Table<Address, i128> = Table::new();
    table.set(address(1), 10);
    table.set(address(2), 20);
    assert_eq!(table.get(address(1)), Some(10));
    assert_eq!(table.get(address(2)), Some(20));
    assert_eq!(table.get(address(3)), None);
    table.set(address(1), 11);
    assert_eq!(table.get(address(1)), Some(11));
    assert_eq!(table.get(address(2)), Some(20));
}

#[test]
fn remove_takes_one_entry_out() {
    let mut table: Table<Address, i128> = Table::new();
    for n in 1..=5 {
        table.set(address(n), n as i128 * 100);
    }
    table.remove(address(3));
    assert_eq!(table.get(address(3)), None);
    for n in [1u128, 2, 4, 5] {
        assert_eq!(table.get(address(n)), Some(n as i128 * 100));
    }
    // Taking out what is not there changes nothing.
    table.remove(address(3));
    table.remove(address(9));
    for n in [1u128, 2, 4, 5] {
        assert_eq!(table.get(address(n)), Some(n as i128 * 100));
    }
    // The first and the last entry can go too, and a key can come back.
    table.remove(address(1));
    table.remove(address(5));
    assert_eq!(table.get(address(1)), None);
    assert_eq!(table.get(address(5)), None);
    assert_eq!(table.get(address(2)), Some(200));
    assert_eq!(table.get(address(4)), Some(400));
    table.set(address(3), 7);
    assert_eq!(table.get(address(3)), Some(7));
}

#[test]
fn grants_are_keyed_by_owner_and_spender() {
    let (a, b) = (address(1), address(2));
    let mut table: Table<Grant, i128> = Table::new();
    table.set(Grant { owner: a, spender: b }, 5);
    assert_eq!(table.get(Grant { owner: a, spender: b }), Some(5));
    assert_eq!(table.get(Grant { owner: b, spender: a }), None);
    assert_eq!(table.get(Grant { owner: a, spender: a }), None);
}

#[test]
fn keys_are_the_same_when_all_parts_agree() {
    assert!(Address::account(1, 2).same(&Address::account(1, 2)));
    assert!(!Address::account(1, 2).same(&Address::contract(1, 2)));
    assert!(!Address::account(1, 2).same(&Address::account(1, 3)));
    assert!(!Address::account(1, 2).same(&Address::account(0, 2)));
    let grant = Grant { owner: address(1), spender: address(2) };
    assert!(grant.same(&Grant { owner: address(1), spender: address(2) }));
    assert!(!grant.same(&Grant { owner: address(2), spender: address(1) }));
}
