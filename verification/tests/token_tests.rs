use asset_ledger::address::Address;
use asset_ledger::token::{TokenContract, TokenError, TokenEvent};

const SUPPLY: i128 = 1_000_000_0000000;

fn address(n: u128) -> Address {
    Address::account(0, n)
}

fn setup() -> (TokenContract, Address, Address) {
    let mut token = TokenContract::new();
    let admin = address(1);
    let user = address(2);
    let done = token.initialize(
        admin,
        7u32,
        String::from("TestToken"),
        String::from("TST"),
        1_000_000_0000000i128, // 1M tokens with 7 decimals
        None,
    );
    assert_eq!(done, Ok(()));
    (token, admin, user)
}

fn setup_with_cap() -> (TokenContract, Address, Address) {
    let mut token = TokenContract::new();
    let admin = address(1);
    let user = address(2);
    let done = token.initialize(
        admin,
        7u32,
        String::from("CappedToken"),
        String::from("CAP"),
        500_0000000i128,
        Some(1_000_0000000i128),
    );
    assert_eq!(done, Ok(()));
    (token, admin, user)
}

#[test]
fn test_initialize_and_getters() {
    let (token, admin, _) = setup();
    assert_eq!(token.name(), Ok(String::from("TestToken")));
    assert_eq!(token.symbol(), Ok(String::from("TST")));
    assert_eq!(token.decimals(), Ok(7u32));
    assert_eq!(token.admin(), Ok(admin));
    assert_eq!(token.total_supply(), 1_000_000_0000000i128);
    assert_eq!(token.balance(admin), 1_000_000_0000000i128);
}

#[test]
fn test_double_init_panics() {
    let (mut token, admin, _) = setup();
    let again = token.initialize(admin, 7u32, String::from("Dup"), String::from("DUP"), 0i128, None);
    assert_eq!(again, Err(TokenError::AlreadyInitialized));
    assert_eq!(token.name(), Ok(String::from("TestToken")));
    assert_eq!(token.total_supply(), SUPPLY);
}

#[test]
fn test_mint() {
    let (mut token, admin, user) = setup();
    assert_eq!(token.mint(admin, user, 500_0000000i128), Ok(()));
    assert_eq!(token.balance(user), 500_0000000i128);
    assert_eq!(token.total_supply(), 1_000_000_0000000i128 + 500_0000000i128);
    // admin balance unchanged
    assert_eq!(token.balance(admin), 1_000_000_0000000i128);
}

#[test]
fn test_burn() {
    let (mut token, admin, _) = setup();
    assert_eq!(token.burn(admin, admin, 100_0000000i128), Ok(()));
    assert_eq!(token.balance(admin), 1_000_000_0000000i128 - 100_0000000i128);
    assert_eq!(token.total_supply(), 1_000_000_0000000i128 - 100_0000000i128);
}

#[test]
fn test_burn_insufficient() {
    let (mut token, admin, user) = setup();
    assert_eq!(token.burn(admin, user, 1i128), Err(TokenError::InsufficientBalance));
    assert_eq!(token.total_supply(), SUPPLY);
}

#[test]
fn test_transfer() {
    let (mut token, admin, user) = setup();
    assert_eq!(token.transfer(admin, admin, user, 250_0000000i128), Ok(()));
    assert_eq!(token.balance(admin), 1_000_000_0000000i128 - 250_0000000i128);
    assert_eq!(token.balance(user), 250_0000000i128);
    // total supply unchanged
    assert_eq!(token.total_supply(), 1_000_000_0000000i128);
}

#[test]
fn test_transfer_insufficient() {
    let (mut token, _, user) = setup();
    assert_eq!(token.transfer(user, user, user, 1i128), Err(TokenError::InsufficientBalance));
}

#[test]
fn test_approve_and_transfer_from() {
    let (mut token, admin, user) = setup();
    let spender = address(3);

    assert_eq!(token.approve(admin, admin, spender, 100_0000000i128, 0u32), Ok(()));
    assert_eq!(token.allowance(admin, spender), 100_0000000i128);

    assert_eq!(token.transfer_from(spender, spender, admin, user, 60_0000000i128), Ok(()));
    assert_eq!(token.allowance(admin, spender), 40_0000000i128);
    assert_eq!(token.balance(user), 60_0000000i128);
    assert_eq!(token.balance(admin), 1_000_000_0000000i128 - 60_0000000i128);
}

#[test]
fn test_transfer_from_exceeds_allowance() {
    let (mut token, admin, user) = setup();
    let spender = address(3);

    assert_eq!(token.approve(admin, admin, spender, 10i128, 0u32), Ok(()));
    assert_eq!(
        token.transfer_from(spender, spender, admin, user, 11i128),
        Err(TokenError::InsufficientAllowance)
    );
    assert_eq!(token.allowance(admin, spender), 10i128);
    assert_eq!(token.balance(user), 0);
}

#[test]
fn test_propose_and_accept_admin() {
    let (mut token, admin, user) = setup();
    assert_eq!(token.propose_admin(admin, user), Ok(()));
    // Admin has not changed yet
    assert_ne!(token.admin(), Ok(user));
    assert_eq!(token.accept_admin(user), Ok(()));
    assert_eq!(token.admin(), Ok(user));
}

#[test]
fn test_accept_admin_without_proposal() {
    let (mut token, admin, user) = setup();
    assert_eq!(token.accept_admin(user), Err(TokenError::NoPendingAdmin));
    assert_eq!(token.accept_admin(admin), Err(TokenError::NoPendingAdmin));
    assert_eq!(token.admin(), Ok(admin));
}

#[test]
fn test_propose_admin_overwrites_previous() {
    let (mut token, admin, user) = setup();
    let other = address(3);
    assert_eq!(token.propose_admin(admin, user), Ok(()));
    assert_eq!(token.propose_admin(admin, other), Ok(()));
    assert_eq!(token.accept_admin(other), Ok(()));
    assert_eq!(token.admin(), Ok(other));
}

#[test]
fn test_old_admin_retains_role_until_accepted() {
    let (mut token, admin, user) = setup();
    assert_eq!(token.propose_admin(admin, user), Ok(()));
    // Admin can still mint before acceptance
    assert_eq!(token.mint(admin, user, 1i128), Ok(()));
    assert_eq!(token.admin(), Ok(admin));
}

// ── Freeze / Unfreeze tests ─────────────────────────────────────────────

#[test]
fn test_freeze_and_is_frozen() {
    let (mut token, admin, user) = setup();
    assert!(!token.is_frozen(user));
    assert_eq!(token.freeze_account(admin, user), Ok(()));
    assert!(token.is_frozen(user));
}

#[test]
fn test_frozen_transfer_blocked() {
    let (mut token, admin, user) = setup();
    assert_eq!(token.transfer(admin, admin, user, 1000i128), Ok(()));
    assert_eq!(token.freeze_account(admin, user), Ok(()));
    // `user` is frozen and cannot send.
    assert_eq!(token.transfer(user, user, admin, 500i128), Err(TokenError::AccountFrozen));
    assert_eq!(token.balance(user), 1000i128);
}

#[test]
fn test_frozen_transfer_from_blocked() {
    let (mut token, admin, user) = setup();
    let spender = address(3);
    // Give user some tokens and approve spender.
    assert_eq!(token.transfer(admin, admin, user, 1000i128), Ok(()));
    assert_eq!(token.approve(user, user, spender, 1000i128, 0u32), Ok(()));
    // Freeze user, then attempt transfer_from.
    assert_eq!(token.freeze_account(admin, user), Ok(()));
    assert_eq!(
        token.transfer_from(spender, spender, user, admin, 500i128),
        Err(TokenError::AccountFrozen)
    );
    assert_eq!(token.allowance(user, spender), 1000i128);
    assert_eq!(token.balance(user), 1000i128);
}

#[test]
fn test_unfreeze_restores_transfer() {
    let (mut token, admin, user) = setup();
    assert_eq!(token.transfer(admin, admin, user, 1000i128), Ok(()));
    assert_eq!(token.freeze_account(admin, user), Ok(()));
    assert!(token.is_frozen(user));
    assert_eq!(token.unfreeze_account(admin, user), Ok(()));
    assert!(!token.is_frozen(user));
    // Transfer should now succeed.
    assert_eq!(token.transfer(user, user, admin, 500i128), Ok(()));
    assert_eq!(token.balance(user), 500i128);
}

#[test]
fn test_non_admin_cannot_freeze() {
    let mut token = TokenContract::new();
    let admin = address(1);
    let user = address(2);
    let done = token.initialize(admin, 7u32, String::from("TestToken"), String::from("TST"), 0i128, None);
    assert_eq!(done, Ok(()));
    // Only the user authorizes, not the admin.
    assert_eq!(token.freeze_account(user, user), Err(TokenError::Unauthorized));
    assert!(!token.is_frozen(user));
}

// ── max_supply tests ────────────────────────────────────────────────────

#[test]
fn test_max_supply_getter_none() {
    let (token, _, _) = setup();
    assert_eq!(token.max_supply(), None);
}

#[test]
fn test_max_supply_getter_some() {
    let (token, _, _) = setup_with_cap();
    assert_eq!(token.max_supply(), Some(1_000_0000000i128));
}

#[test]
fn test_mint_within_max_supply() {
    let (mut token, admin, user) = setup_with_cap();
    assert_eq!(token.mint(admin, user, 500_0000000i128), Ok(()));
    assert_eq!(token.total_supply(), 1_000_0000000i128);
}

#[test]
fn test_mint_exceeds_max_supply() {
    let (mut token, admin, user) = setup_with_cap();
    assert_eq!(token.mint(admin, user, 500_0000001i128), Err(TokenError::MaxSupplyExceeded));
    assert_eq!(token.total_supply(), 500_0000000i128);
    assert_eq!(token.balance(user), 0);
}

#[test]
fn test_mint_exact_max_supply() {
    let (mut token, admin, user) = setup_with_cap();
    // Mint exactly to the cap boundary
    assert_eq!(token.mint(admin, user, 500_0000000i128), Ok(()));
    assert_eq!(token.total_supply(), 1_000_0000000i128);
    assert_eq!(token.max_supply(), Some(1_000_0000000i128));
}

#[test]
fn test_initial_supply_exceeds_max_supply() {
    let mut token = TokenContract::new();
    let admin = address(1);
    let done = token.initialize(
        admin,
        7u32,
        String::from("Bad"),
        String::from("BAD"),
        2_000_0000000i128,
        Some(1_000_0000000i128),
    );
    assert_eq!(done, Err(TokenError::InitialSupplyExceedsMaxSupply));
    assert_eq!(token.admin(), Err(TokenError::NotInitialized));
    assert_eq!(token.total_supply(), 0);
}

// ── Further cases ───────────────────────────────────────────────────────

#[test]
fn new_ledger_is_empty_and_not_initialized() {
    let token = TokenContract::new();
    let a = address(1);
    assert_eq!(token.admin(), Err(TokenError::NotInitialized));
    assert_eq!(token.decimals(), Err(TokenError::NotInitialized));
    assert_eq!(token.name(), Err(TokenError::NotInitialized));
    assert_eq!(token.symbol(), Err(TokenError::NotInitialized));
    assert_eq!(token.total_supply(), 0);
    assert_eq!(token.max_supply(), None);
    assert_eq!(token.balance(a), 0);
    assert_eq!(token.allowance(a, address(2)), 0);
    assert!(!token.is_frozen(a));
    assert!(token.events().is_empty());
}

#[test]
fn admin_operations_need_an_initialized_ledger() {
    let mut token = TokenContract::new();
    let a = address(1);
    assert_eq!(token.mint(a, a, 1), Err(TokenError::NotInitialized));
    assert_eq!(token.burn(a, a, 1), Err(TokenError::NotInitialized));
    assert_eq!(token.freeze_account(a, a), Err(TokenError::NotInitialized));
    assert_eq!(token.unfreeze_account(a, a), Err(TokenError::NotInitialized));
    assert_eq!(token.set_admin(a, a), Err(TokenError::NotInitialized));
    assert_eq!(token.propose_admin(a, a), Err(TokenError::NotInitialized));
    assert_eq!(token.accept_admin(a), Err(TokenError::NoPendingAdmin));
}

#[test]
fn initialize_rejects_a_cap_that_is_not_positive() {
    let mut token = TokenContract::new();
    let admin = address(1);
    let zero = token.initialize(admin, 7, String::from("T"), String::from("T"), 0, Some(0));
    assert_eq!(zero, Err(TokenError::MaxSupplyNotPositive));
    let negative = token.initialize(admin, 7, String::from("T"), String::from("T"), -5, Some(-1));
    assert_eq!(negative, Err(TokenError::MaxSupplyNotPositive));
    assert_eq!(token.admin(), Err(TokenError::NotInitialized));
}

#[test]
fn initialize_with_supply_equal_to_cap() {
    let mut token = TokenContract::new();
    let admin = address(1);
    let done = token.initialize(admin, 2, String::from("T"), String::from("T"), 100, Some(100));
    assert_eq!(done, Ok(()));
    assert_eq!(token.total_supply(), 100);
    assert_eq!(token.balance(admin), 100);
    assert_eq!(token.mint(admin, admin, 1), Err(TokenError::MaxSupplyExceeded));
}

#[test]
fn initialize_without_supply_mints_nothing() {
    let mut token = TokenContract::new();
    let admin = address(1);
    let done = token.initialize(admin, 2, String::from("T"), String::from("T"), 0, None);
    assert_eq!(done, Ok(()));
    assert_eq!(token.total_supply(), 0);
    assert_eq!(token.balance(admin), 0);
    assert_eq!(token.events().as_slice(), &[TokenEvent::Init { admin }]);

    let mut other = TokenContract::new();
    let done = other.initialize(admin, 2, String::from("T"), String::from("T"), -7, None);
    assert_eq!(done, Ok(()));
    assert_eq!(other.total_supply(), 0);
    assert_eq!(other.balance(admin), 0);
}

#[test]
fn operations_leave_their_notifications_in_order() {
    let (mut token, admin, user) = setup();
    let spender = address(3);
    assert_eq!(token.mint(admin, user, 5), Ok(()));
    assert_eq!(token.burn(admin, user, 2), Ok(()));
    assert_eq!(token.transfer(user, user, admin, 1), Ok(()));
    assert_eq!(token.approve(user, user, spender, 2, 99), Ok(()));
    assert_eq!(token.transfer_from(spender, spender, user, admin, 2), Ok(()));
    assert_eq!(token.freeze_account(admin, user), Ok(()));
    assert_eq!(token.unfreeze_account(admin, user), Ok(()));
    assert_eq!(token.propose_admin(admin, user), Ok(()));
    assert_eq!(token.accept_admin(user), Ok(()));
    assert_eq!(token.set_admin(user, admin), Ok(()));
    // A refused operation leaves none.
    assert_eq!(token.mint(user, user, 5), Err(TokenError::Unauthorized));
    assert_eq!(
        token.events().as_slice(),
        &[
            TokenEvent::Mint { to: admin, amount: SUPPLY },
            TokenEvent::Init { admin },
            TokenEvent::Mint { to: user, amount: 5 },
            TokenEvent::Burn { from: user, amount: 2 },
            TokenEvent::Transfer { from: user, to: admin, amount: 1 },
            TokenEvent::Approve { owner: user, spender, amount: 2 },
            TokenEvent::Transfer { from: user, to: admin, amount: 2 },
            TokenEvent::Freeze { addr: user, frozen: true },
            TokenEvent::Freeze { addr: user, frozen: false },
            TokenEvent::SetAdmin { new_admin: admin },
        ]
    );
}

#[test]
fn callers_other_than_the_principal_are_refused() {
    let (mut token, admin, user) = setup();
    let spender = address(3);
    assert_eq!(token.mint(user, user, 1), Err(TokenError::Unauthorized));
    assert_eq!(token.burn(user, admin, 1), Err(TokenError::Unauthorized));
    assert_eq!(token.set_admin(user, user), Err(TokenError::Unauthorized));
    assert_eq!(token.propose_admin(user, user), Err(TokenError::Unauthorized));
    assert_eq!(token.unfreeze_account(user, user), Err(TokenError::Unauthorized));
    assert_eq!(token.transfer(user, admin, user, 1), Err(TokenError::Unauthorized));
    assert_eq!(token.approve(user, admin, user, 1, 0), Err(TokenError::Unauthorized));
    assert_eq!(token.approve(admin, admin, spender, 10, 0), Ok(()));
    assert_eq!(token.transfer_from(admin, spender, admin, user, 1), Err(TokenError::Unauthorized));
    assert_eq!(token.propose_admin(admin, user), Ok(()));
    assert_eq!(token.accept_admin(admin), Err(TokenError::Unauthorized));
    assert_eq!(token.admin(), Ok(admin));
    assert_eq!(token.balance(admin), SUPPLY);
    assert_eq!(token.balance(user), 0);
}

#[test]
fn set_admin_replaces_the_admin_at_once() {
    let (mut token, admin, user) = setup();
    assert_eq!(token.set_admin(admin, user), Ok(()));
    assert_eq!(token.admin(), Ok(user));
    assert_eq!(token.mint(admin, admin, 1), Err(TokenError::Unauthorized));
    assert_eq!(token.mint(user, admin, 1), Ok(()));
}

#[test]
fn first_proposal_cannot_be_accepted_after_a_second() {
    let (mut token, admin, user) = setup();
    let other = address(3);
    assert_eq!(token.propose_admin(admin, user), Ok(()));
    assert_eq!(token.propose_admin(admin, other), Ok(()));
    assert_eq!(token.accept_admin(user), Err(TokenError::Unauthorized));
    assert_eq!(token.admin(), Ok(admin));
    assert_eq!(token.accept_admin(other), Ok(()));
    // The slot is cleared by acceptance.
    assert_eq!(token.accept_admin(other), Err(TokenError::NoPendingAdmin));
    assert_eq!(token.mint(admin, admin, 1), Err(TokenError::Unauthorized));
}

#[test]
fn approve_overwrites_and_accepts_zero() {
    let (mut token, admin, _) = setup();
    let spender = address(3);
    assert_eq!(token.approve(admin, admin, spender, 100, 0), Ok(()));
    assert_eq!(token.approve(admin, admin, spender, 30, 0), Ok(()));
    assert_eq!(token.allowance(admin, spender), 30);
    assert_eq!(token.approve(admin, admin, spender, 0, 0), Ok(()));
    assert_eq!(token.allowance(admin, spender), 0);
    assert_eq!(token.approve(admin, admin, spender, -1, 0), Err(TokenError::AmountNegative));
    assert_eq!(token.allowance(admin, spender), 0);
    // An allowance is per pair and per direction.
    assert_eq!(token.allowance(spender, admin), 0);
}

#[test]
fn transfer_from_checks_balance_after_allowance() {
    let (mut token, _, user) = setup();
    let spender = address(3);
    let to = address(4);
    assert_eq!(token.approve(user, user, spender, 50, 0), Ok(()));
    assert_eq!(token.transfer_from(spender, spender, user, to, 0), Err(TokenError::AmountNotPositive));
    assert_eq!(token.transfer_from(spender, spender, user, to, 51), Err(TokenError::InsufficientAllowance));
    // The owner holds nothing: the allowance stays as it was.
    assert_eq!(token.transfer_from(spender, spender, user, to, 50), Err(TokenError::InsufficientBalance));
    assert_eq!(token.allowance(user, spender), 50);
}

#[test]
fn transfer_to_oneself_needs_the_balance_and_changes_nothing() {
    let (mut token, admin, _) = setup();
    assert_eq!(token.transfer(admin, admin, admin, SUPPLY), Ok(()));
    assert_eq!(token.balance(admin), SUPPLY);
    assert_eq!(token.transfer(admin, admin, admin, SUPPLY + 1), Err(TokenError::InsufficientBalance));
    assert_eq!(token.balance(admin), SUPPLY);
    assert_eq!(token.total_supply(), SUPPLY);
}

#[test]
fn frozen_account_still_receives_approves_and_spends() {
    let (mut token, admin, user) = setup();
    let other = address(3);
    assert_eq!(token.freeze_account(admin, user), Ok(()));
    // It receives.
    assert_eq!(token.transfer(admin, admin, user, 100), Ok(()));
    assert_eq!(token.balance(user), 100);
    // It approves as owner.
    assert_eq!(token.approve(user, user, other, 10, 0), Ok(()));
    assert_eq!(token.allowance(user, other), 10);
    // It draws on another owner's allowance as spender.
    assert_eq!(token.approve(admin, admin, user, 40, 0), Ok(()));
    assert_eq!(token.transfer_from(user, user, admin, other, 40), Ok(()));
    assert_eq!(token.balance(other), 40);
    // It does not send.
    assert_eq!(token.transfer(user, user, other, 1), Err(TokenError::AccountFrozen));
    assert_eq!(token.transfer_from(other, other, user, other, 1), Err(TokenError::AccountFrozen));
    // Freezing twice and unfreezing once lets it send again.
    assert_eq!(token.freeze_account(admin, user), Ok(()));
    assert_eq!(token.unfreeze_account(admin, user), Ok(()));
    assert_eq!(token.transfer(user, user, other, 1), Ok(()));
    // Unfreezing an account that is not frozen is fine.
    assert_eq!(token.unfreeze_account(admin, other), Ok(()));
    assert!(!token.is_frozen(other));
}

#[test]
fn addresses_differ_by_kind_and_by_each_half() {
    let (mut token, admin, _) = setup();
    let a = Address::account(1, 2);
    let b = Address::contract(1, 2);
    let c = Address::account(2, 1);
    assert_eq!(token.mint(admin, a, 1), Ok(()));
    assert_eq!(token.mint(admin, b, 2), Ok(()));
    assert_eq!(token.mint(admin, c, 3), Ok(()));
    assert_eq!(token.balance(a), 1);
    assert_eq!(token.balance(b), 2);
    assert_eq!(token.balance(c), 3);
    assert_eq!(token.balance(Address::account(1, 2)), 1);
}
