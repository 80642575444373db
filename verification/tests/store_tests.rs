use asset_ledger::address::Address;
use asset_ledger::token::{DataKey, TokenContract, TokenError, TokenValue};
use asset_ledger::vesting;
use asset_ledger::vesting::{Payout, VestingContract, VestingError, VestingSchedule, VestingValue};

fn address(n: u128) -> Address {
    Address::account(0, n)
}

/// A ledger with an admin, a cap and two funded accounts.
fn full_ledger() -> (TokenContract, Address, Address, Address) {
    let (admin, alice, bob) = (address(1), address(2), address(3));
    let mut token = TokenContract::new();
    let done = token.initialize(admin, 7, String::from("Asset"), String::from("AST"), 1_000, Some(5_000));
    assert_eq!(done, Ok(()));
    assert_eq!(token.transfer(admin, admin, alice, 300), Ok(()));
    assert_eq!(token.transfer(admin, admin, bob, 200), Ok(()));
    assert_eq!(token.approve(alice, alice, bob, 50, 0), Ok(()));
    assert_eq!(token.freeze_account(admin, bob), Ok(()));
    assert_eq!(token.propose_admin(admin, alice), Ok(()));
    (token, admin, alice, bob)
}

/// The ledger as far as `source` holds it under `keys`.
fn partial(source: &TokenContract, keys: &[DataKey]) -> TokenContract {
    let mut token = TokenContract::new();
    for key in keys {
        if let Some(value) = source.stored(*key) {
            assert!(token.restore(*key, value));
        }
    }
    token
}

#[test]
fn stored_gives_each_entry_of_a_ledger() {
    let (token, admin, alice, bob) = full_ledger();
    assert_eq!(token.stored(DataKey::Admin), Some(TokenValue::Address(admin)));
    assert_eq!(token.stored(DataKey::PendingAdmin), Some(TokenValue::Address(alice)));
    assert_eq!(token.stored(DataKey::Name), Some(TokenValue::Text(String::from("Asset"))));
    assert_eq!(token.stored(DataKey::Symbol), Some(TokenValue::Text(String::from("AST"))));
    assert_eq!(token.stored(DataKey::Decimals), Some(TokenValue::Number(7)));
    assert_eq!(token.stored(DataKey::TotalSupply), Some(TokenValue::Amount(1_000)));
    assert_eq!(token.stored(DataKey::MaxSupply), Some(TokenValue::Amount(5_000)));
    assert_eq!(token.stored(DataKey::Balance(admin)), Some(TokenValue::Amount(500)));
    assert_eq!(token.stored(DataKey::Balance(alice)), Some(TokenValue::Amount(300)));
    assert_eq!(token.stored(DataKey::Balance(bob)), Some(TokenValue::Amount(200)));
    assert_eq!(token.stored(DataKey::Balance(address(9))), None);
    assert_eq!(token.stored(DataKey::Allowance(alice, bob)), Some(TokenValue::Amount(50)));
    assert_eq!(token.stored(DataKey::Allowance(bob, alice)), None);
    assert_eq!(token.stored(DataKey::Frozen(bob)), Some(TokenValue::Flag(true)));
    assert_eq!(token.stored(DataKey::Frozen(alice)), None);
}

#[test]
fn stored_is_empty_for_a_new_ledger() {
    let token = TokenContract::new();
    let a = address(1);
    let keys = [
        DataKey::Admin,
        DataKey::PendingAdmin,
        DataKey::Name,
        DataKey::Symbol,
        DataKey::Decimals,
        DataKey::TotalSupply,
        DataKey::MaxSupply,
        DataKey::Balance(a),
        DataKey::Allowance(a, a),
        DataKey::Frozen(a),
    ];
    for key in keys {
        assert_eq!(token.stored(key), None);
    }
}

#[test]
fn stored_follows_the_operations() {
    let (mut token, admin, alice, bob) = full_ledger();
    assert_eq!(token.accept_admin(alice), Ok(()));
    assert_eq!(token.stored(DataKey::Admin), Some(TokenValue::Address(alice)));
    assert_eq!(token.stored(DataKey::PendingAdmin), None);
    assert_eq!(token.unfreeze_account(alice, bob), Ok(()));
    assert_eq!(token.stored(DataKey::Frozen(bob)), None);
    assert_eq!(token.transfer_from(bob, bob, alice, admin, 50), Ok(()));
    assert_eq!(token.stored(DataKey::Allowance(alice, bob)), Some(TokenValue::Amount(0)));
    assert_eq!(token.stored(DataKey::Balance(alice)), Some(TokenValue::Amount(250)));
    assert_eq!(token.burn(alice, alice, 250), Ok(()));
    assert_eq!(token.stored(DataKey::Balance(alice)), Some(TokenValue::Amount(0)));
    assert_eq!(token.stored(DataKey::TotalSupply), Some(TokenValue::Amount(750)));
}

#[test]
fn restore_rebuilds_what_stored_gave() {
    let (token, admin, alice, bob) = full_ledger();
    let keys = [
        DataKey::Admin,
        DataKey::PendingAdmin,
        DataKey::Name,
        DataKey::Symbol,
        DataKey::Decimals,
        DataKey::MaxSupply,
        DataKey::TotalSupply,
        DataKey::Balance(admin),
        DataKey::Balance(alice),
        DataKey::Balance(bob),
        DataKey::Allowance(alice, bob),
        DataKey::Frozen(bob),
        DataKey::Frozen(alice),
    ];
    let copy = partial(&token, &keys);
    for key in keys {
        assert_eq!(copy.stored(key), token.stored(key));
    }
    assert_eq!(copy.admin(), Ok(admin));
    assert_eq!(copy.name(), Ok(String::from("Asset")));
    assert_eq!(copy.symbol(), Ok(String::from("AST")));
    assert_eq!(copy.decimals(), Ok(7));
    assert_eq!(copy.total_supply(), 1_000);
    assert_eq!(copy.max_supply(), Some(5_000));
    assert_eq!(copy.balance(alice), 300);
    assert_eq!(copy.allowance(alice, bob), 50);
    assert!(copy.is_frozen(bob));
    assert!(!copy.is_frozen(alice));
    // Restoring leaves no notification.
    assert!(copy.events().is_empty());
}

#[test]
fn operation_on_the_touched_entries_gives_what_it_gives_on_the_whole() {
    let (mut whole, admin, alice, bob) = full_ledger();
    let carol = address(4);
    let keys = [
        DataKey::Admin,
        DataKey::TotalSupply,
        DataKey::Frozen(alice),
        DataKey::Allowance(alice, bob),
        DataKey::Balance(alice),
        DataKey::Balance(carol),
    ];
    let mut part = partial(&whole, &keys);
    assert_eq!(part.balance(admin), 0);

    assert_eq!(whole.transfer_from(bob, bob, alice, carol, 20), Ok(()));
    assert_eq!(part.transfer_from(bob, bob, alice, carol, 20), Ok(()));
    for key in keys {
        assert_eq!(part.stored(key), whole.stored(key));
    }
    assert_eq!(part.stored(DataKey::Balance(carol)), Some(TokenValue::Amount(20)));
    assert_eq!(part.events(), &whole.events()[whole.events().len() - 1..]);

    // A refusal is the same on both.
    assert_eq!(
        whole.transfer_from(bob, bob, alice, carol, 31),
        Err(TokenError::InsufficientAllowance)
    );
    assert_eq!(
        part.transfer_from(bob, bob, alice, carol, 31),
        Err(TokenError::InsufficientAllowance)
    );
}

#[test]
fn mint_on_the_touched_entries_respects_the_cap() {
    let (whole, admin, alice, _) = full_ledger();
    let keys = [DataKey::Admin, DataKey::MaxSupply, DataKey::TotalSupply, DataKey::Balance(alice)];
    let mut part = partial(&whole, &keys);
    assert_eq!(part.mint(admin, alice, 4_001), Err(TokenError::MaxSupplyExceeded));
    assert_eq!(part.mint(admin, alice, 4_000), Ok(()));
    assert_eq!(part.stored(DataKey::TotalSupply), Some(TokenValue::Amount(5_000)));
    assert_eq!(part.stored(DataKey::Balance(alice)), Some(TokenValue::Amount(4_300)));
}

#[test]
fn restore_refuses_a_value_of_the_wrong_kind() {
    let a = address(1);
    let mut token = TokenContract::new();
    assert!(!token.restore(DataKey::Admin, TokenValue::Amount(1)));
    assert!(!token.restore(DataKey::Name, TokenValue::Number(1)));
    assert!(!token.restore(DataKey::Symbol, TokenValue::Address(a)));
    assert!(!token.restore(DataKey::Decimals, TokenValue::Amount(7)));
    assert!(!token.restore(DataKey::TotalSupply, TokenValue::Number(0)));
    assert!(!token.restore(DataKey::MaxSupply, TokenValue::Flag(true)));
    assert!(!token.restore(DataKey::Balance(a), TokenValue::Text(String::from("1"))));
    assert!(!token.restore(DataKey::Allowance(a, a), TokenValue::Flag(false)));
    assert!(!token.restore(DataKey::Frozen(a), TokenValue::Amount(1)));
    assert_eq!(token.admin(), Err(TokenError::NotInitialized));
    assert_eq!(token.stored(DataKey::Frozen(a)), None);
}

#[test]
fn restore_refuses_what_would_not_be_a_ledger() {
    let (a, b) = (address(1), address(2));
    let mut token = TokenContract::new();
    // Without an admin there is no supply and no pending admin.
    assert!(!token.restore(DataKey::TotalSupply, TokenValue::Amount(10)));
    assert!(token.restore(DataKey::TotalSupply, TokenValue::Amount(0)));
    assert!(!token.restore(DataKey::PendingAdmin, TokenValue::Address(b)));
    assert!(!token.restore(DataKey::Balance(a), TokenValue::Amount(1)));
    assert!(token.restore(DataKey::Balance(a), TokenValue::Amount(0)));

    assert!(token.restore(DataKey::Admin, TokenValue::Address(a)));
    assert!(token.restore(DataKey::PendingAdmin, TokenValue::Address(b)));
    assert!(!token.restore(DataKey::TotalSupply, TokenValue::Amount(-1)));
    assert!(token.restore(DataKey::TotalSupply, TokenValue::Amount(100)));

    // The cap is positive and not below the supply.
    assert!(!token.restore(DataKey::MaxSupply, TokenValue::Amount(0)));
    assert!(!token.restore(DataKey::MaxSupply, TokenValue::Amount(99)));
    assert!(token.restore(DataKey::MaxSupply, TokenValue::Amount(100)));
    assert!(!token.restore(DataKey::TotalSupply, TokenValue::Amount(101)));

    // The balances are not negative and do not exceed the supply together.
    assert!(!token.restore(DataKey::Balance(a), TokenValue::Amount(-1)));
    assert!(token.restore(DataKey::Balance(a), TokenValue::Amount(60)));
    assert!(!token.restore(DataKey::Balance(b), TokenValue::Amount(41)));
    assert!(!token.restore(DataKey::Balance(b), TokenValue::Amount(i128::MAX)));
    assert!(token.restore(DataKey::Balance(b), TokenValue::Amount(40)));
    // An entry is replaced, not added to.
    assert!(token.restore(DataKey::Balance(a), TokenValue::Amount(10)));
    assert!(token.restore(DataKey::Balance(b), TokenValue::Amount(90)));
    assert!(!token.restore(DataKey::TotalSupply, TokenValue::Amount(99)));
    assert_eq!(token.balance(a), 10);
    assert_eq!(token.balance(b), 90);
    assert_eq!(token.total_supply(), 100);

    // An allowance is not negative.
    assert!(!token.restore(DataKey::Allowance(a, b), TokenValue::Amount(-1)));
    assert!(token.restore(DataKey::Allowance(a, b), TokenValue::Amount(i128::MAX)));
    assert_eq!(token.allowance(a, b), i128::MAX);

    // A flag that is not set clears the entry.
    assert!(token.restore(DataKey::Frozen(a), TokenValue::Flag(true)));
    assert!(token.is_frozen(a));
    assert!(token.restore(DataKey::Frozen(a), TokenValue::Flag(false)));
    assert!(!token.is_frozen(a));
    assert_eq!(token.stored(DataKey::Frozen(a)), None);
}

// ── The vesting engine ──────────────────────────────────────────────────

fn schedule(recipient: Address) -> VestingSchedule {
    VestingSchedule {
        recipient,
        total_amount: 1_000,
        cliff_ledger: 100,
        end_ledger: 200,
        released: 250,
        revoked: false,
    }
}

#[test]
fn engine_stored_gives_each_entry() {
    let (admin, ledger, recipient) = (address(1), Address::contract(0, 7), address(2));
    let mut engine = VestingContract::new();
    assert_eq!(engine.stored(vesting::DataKey::Admin), None);
    assert_eq!(engine.stored(vesting::DataKey::TokenContract), None);
    assert_eq!(engine.stored(vesting::DataKey::Schedule(recipient)), None);
    assert_eq!(engine.initialize(admin, ledger), Ok(()));
    assert_eq!(engine.create_schedule(admin, recipient, 1_000, 100, 200), Ok(()));
    assert_eq!(engine.release(recipient, 125).map(|p| p.amount), Ok(250));
    assert_eq!(engine.stored(vesting::DataKey::Admin), Some(VestingValue::Address(admin)));
    assert_eq!(engine.stored(vesting::DataKey::TokenContract), Some(VestingValue::Address(ledger)));
    assert_eq!(
        engine.stored(vesting::DataKey::Schedule(recipient)),
        Some(VestingValue::Schedule(schedule(recipient)))
    );
}

#[test]
fn engine_restored_behaves_as_the_one_it_was_taken_from() {
    let (admin, ledger, recipient) = (address(1), Address::contract(0, 7), address(2));
    let mut engine = VestingContract::new();
    assert!(engine.restore(vesting::DataKey::Admin, VestingValue::Address(admin)));
    assert!(engine.restore(vesting::DataKey::TokenContract, VestingValue::Address(ledger)));
    assert!(engine.restore(
        vesting::DataKey::Schedule(recipient),
        VestingValue::Schedule(schedule(recipient))
    ));
    assert!(engine.events().is_empty());
    assert_eq!(engine.released_amount(recipient), Ok(250));
    assert_eq!(engine.vested_amount(recipient, 150), Ok(500));
    assert_eq!(
        engine.release(recipient, 150),
        Ok(Payout { token: ledger, to: recipient, amount: 250 })
    );
    assert_eq!(
        engine.create_schedule(admin, recipient, 1, 0, 1),
        Err(VestingError::ScheduleExists)
    );
}

#[test]
fn engine_restore_refuses_what_would_not_be_an_engine() {
    let (admin, recipient, other) = (address(1), address(2), address(3));
    let key = vesting::DataKey::Schedule(recipient);
    let mut engine = VestingContract::new();
    // No schedule without an admin.
    assert!(!engine.restore(key, VestingValue::Schedule(schedule(recipient))));
    assert!(engine.restore(vesting::DataKey::Admin, VestingValue::Address(admin)));
    // Values of the wrong kind.
    assert!(!engine.restore(vesting::DataKey::Admin, VestingValue::Schedule(schedule(recipient))));
    assert!(!engine.restore(vesting::DataKey::TokenContract, VestingValue::Schedule(schedule(recipient))));
    assert!(!engine.restore(key, VestingValue::Address(recipient)));
    // A schedule stands under its own recipient and is valid.
    assert!(!engine.restore(key, VestingValue::Schedule(schedule(other))));
    let mut bad = schedule(recipient);
    bad.total_amount = 0;
    bad.released = 0;
    assert!(!engine.restore(key, VestingValue::Schedule(bad)));
    let mut bad = schedule(recipient);
    bad.end_ledger = bad.cliff_ledger;
    assert!(!engine.restore(key, VestingValue::Schedule(bad)));
    let mut bad = schedule(recipient);
    bad.released = 1_001;
    assert!(!engine.restore(key, VestingValue::Schedule(bad)));
    let mut bad = schedule(recipient);
    bad.released = -1;
    assert!(!engine.restore(key, VestingValue::Schedule(bad)));
    assert_eq!(engine.get_schedule(recipient), Err(VestingError::NoSchedule));
    assert!(engine.restore(key, VestingValue::Schedule(schedule(recipient))));
    // Without a ledger there is nowhere to pay from.
    assert_eq!(engine.release(recipient, 150), Err(VestingError::NotInitialized));
    assert_eq!(engine.revoke(admin, recipient, 150), Err(VestingError::NotInitialized));
    assert_eq!(engine.released_amount(recipient), Ok(250));
}
