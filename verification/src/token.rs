//! The asset ledger: total supply, balances, allowances, frozen accounts and
//! the admin identity, with the operations that change them.
//!
//! [`TokenState`] is the mathematical model of a ledger. Each operation is
//! described by two functions of the model: which failure it ends in, if any,
//! and the state it leaves on success. The executable operations of
//! [`TokenContract`] are proved to compute exactly these.

use vstd::prelude::*;
use crate::address::{Address, Grant};
use crate::sum::{amount_of, non_negative, total};
use crate::sum::{lemma_amount_within_total, lemma_total_empty, lemma_total_insert};
use crate::table::Table;

verus! {

/// Why an operation of the ledger was refused. A refused operation leaves the
/// ledger as it was.
#[derive(Clone, Copy, Debug, PartialEq, Eq, Structural)]
pub enum TokenError {
    /// The ledger has no admin yet.
    NotInitialized,
    /// The ledger already has an admin.
    AlreadyInitialized,
    /// The caller is not the identity that the operation asks for.
    Unauthorized,
    /// The amount must be greater than zero.
    AmountNotPositive,
    /// The amount must not be less than zero.
    AmountNegative,
    /// The supply cap must be greater than zero.
    MaxSupplyNotPositive,
    /// The initial supply is greater than the supply cap.
    InitialSupplyExceedsMaxSupply,
    /// The supply would be greater than the supply cap.
    MaxSupplyExceeded,
    /// The account holds less than the amount.
    InsufficientBalance,
    /// The spender may draw less than the amount.
    InsufficientAllowance,
    /// The sending account is frozen.
    AccountFrozen,
    /// No identity is waiting to become admin.
    NoPendingAdmin,
    /// A sum would leave the range of amounts.
    Overflow,
}

/// A notification that a successful operation leaves for the outside world.
#[derive(Clone, Copy, Debug, PartialEq, Eq, Structural)]
pub enum TokenEvent {
    Init { admin: Address },
    Mint { to: Address, amount: i128 },
    Burn { from: Address, amount: i128 },
    Transfer { from: Address, to: Address, amount: i128 },
    Approve { owner: Address, spender: Address, amount: i128 },
    Freeze { addr: Address, frozen: bool },
    SetAdmin { new_admin: Address },
}

/// The name of one entry of a ledger, as a key-value store holds it: one key
/// for each part of the state that stands alone, and one for each account,
/// each pair of owner and spender, and each frozen account.
#[derive(Clone, Copy, Debug, PartialEq, Eq, Structural, Hash)]
pub enum DataKey {
    Admin,
    PendingAdmin,
    Name,
    Symbol,
    Decimals,
    TotalSupply,
    MaxSupply,
    Balance(Address),
    /// The owner, then the spender.
    Allowance(Address, Address),
    Frozen(Address),
}

/// What a store holds under a [`DataKey`].
#[derive(Debug, PartialEq, Eq)]
pub enum TokenValue {
    Address(Address),
    Amount(i128),
    Number(u32),
    Text(String),
    Flag(bool),
}

/// The model of a [`TokenValue`].
pub enum StoredValue {
    Address(Address),
    Amount(i128),
    Number(u32),
    Text(Seq<char>),
    Flag(bool),
}

impl View for TokenValue {
    type V = StoredValue;

    open spec fn view(&self) -> StoredValue {
        match *self {
            TokenValue::Address(a) => StoredValue::Address(a),
            TokenValue::Amount(n) => StoredValue::Amount(n),
            TokenValue::Number(n) => StoredValue::Number(n),
            TokenValue::Text(s) => StoredValue::Text(s@),
            TokenValue::Flag(b) => StoredValue::Flag(b),
        }
    }
}

/// The model of a ledger.
pub struct TokenState {
    /// The admin; `None` until the ledger is initialized.
    pub admin: Option<Address>,
    /// The identity that may take over as admin, if one was proposed.
    pub pending_admin: Option<Address>,
    pub name: Seq<char>,
    pub symbol: Seq<char>,
    pub decimals: u32,
    pub total_supply: i128,
    /// The cap on the supply, if there is one.
    pub max_supply: Option<i128>,
    /// What each account holds; an account without an entry holds nothing.
    pub balances: Map<Address, i128>,
    /// What each spender may still draw from each owner; a pair without an
    /// entry may draw nothing.
    pub allowances: Map<Grant, i128>,
    /// The accounts that may not send.
    pub frozen: Set<Address>,
    /// The notifications left so far, oldest first.
    pub events: Seq<TokenEvent>,
}

impl TokenState {
    /// The state of a ledger that is not initialized yet: no admin, no
    /// supply, no entries, no notifications.
    pub open spec fn new() -> TokenState {
        TokenState {
            admin: None,
            pending_admin: None,
            name: Seq::empty(),
            symbol: Seq::empty(),
            decimals: 0,
            total_supply: 0,
            max_supply: None,
            balances: Map::empty(),
            allowances: Map::empty(),
            frozen: Set::empty(),
            events: Seq::empty(),
        }
    }

    /// What `id` holds.
    pub open spec fn balance_of(self, id: Address) -> int {
        amount_of(self.balances, id)
    }

    /// What `spender` may still draw from `owner`.
    pub open spec fn allowance_of(self, owner: Address, spender: Address) -> int {
        amount_of(self.allowances, Grant { owner, spender })
    }

    /// Whether `addr` is barred from sending.
    pub open spec fn is_frozen(self, addr: Address) -> bool {
        self.frozen.contains(addr)
    }

    /// The sum of all balances that the state holds.
    pub open spec fn sum_of_balances(self) -> int {
        total(self.balances)
    }

    /// What holds of every ledger: no balance and no allowance is negative,
    /// the balances together do not exceed the supply, the supply does not
    /// exceed the cap, and a ledger without an admin has no supply and no
    /// pending admin.
    ///
    /// A state may hold a part of the accounts only, as when it is built up
    /// from the entries that one operation touches; then the balances sum to
    /// less than the supply. Where it holds them all, it is
    /// [`conserved`](TokenState::conserved).
    pub open spec fn valid(self) -> bool {
        &&& self.balances.dom().finite()
        &&& non_negative(self.balances)
        &&& non_negative(self.allowances)
        &&& self.sum_of_balances() <= self.total_supply
        &&& (self.max_supply matches Some(cap) ==> cap > 0 && self.total_supply <= cap)
        &&& (self.admin is None ==> self.total_supply == 0 && self.pending_admin is None)
    }

    /// Whether the balances account for the whole supply.
    pub open spec fn conserved(self) -> bool {
        self.sum_of_balances() == self.total_supply
    }

    /// The state with `event` added to its notifications.
    pub open spec fn emit(self, event: TokenEvent) -> TokenState {
        TokenState { events: self.events.push(event), ..self }
    }

    /// The state in which `id` holds `amount`.
    pub open spec fn with_balance(self, id: Address, amount: int) -> TokenState {
        TokenState { balances: self.balances.insert(id, amount as i128), ..self }
    }

    /// The failure of an operation that only the admin may invoke, as far as
    /// it comes from who calls.
    pub open spec fn admin_error(self, caller: Address) -> Option<TokenError> {
        if self.admin is None {
            Some(TokenError::NotInitialized)
        } else if self.admin != Some(caller) {
            Some(TokenError::Unauthorized)
        } else {
            None
        }
    }

    // ── initialize ──────────────────────────────────────────────────────

    /// The failure of `initialize`, if it fails: the ledger has an admin
    /// already, the cap is not positive, or the initial supply exceeds the cap.
    pub open spec fn initialize_error(self, initial_supply: i128, max_supply: Option<i128>) -> Option<
        TokenError,
    > {
        if self.admin is Some {
            Some(TokenError::AlreadyInitialized)
        } else if max_supply is Some && max_supply->0 <= 0 {
            Some(TokenError::MaxSupplyNotPositive)
        } else if max_supply is Some && initial_supply > max_supply->0 {
            Some(TokenError::InitialSupplyExceedsMaxSupply)
        } else {
            None
        }
    }

    /// The state that a successful `initialize` leaves: the admin, the
    /// metadata and the cap are set, the supply starts at zero, and an initial
    /// supply that is positive is issued to the admin.
    pub open spec fn after_initialize(
        self,
        admin: Address,
        decimal: u32,
        name: Seq<char>,
        symbol: Seq<char>,
        initial_supply: i128,
        max_supply: Option<i128>,
    ) -> TokenState {
        let fresh = TokenState {
            admin: Some(admin),
            decimals: decimal,
            name,
            symbol,
            total_supply: 0,
            max_supply,
            ..self
        };
        let funded = if initial_supply > 0 {
            fresh.after_issue(admin, initial_supply)
        } else {
            fresh
        };
        funded.emit(TokenEvent::Init { admin })
    }

    // ── mint ────────────────────────────────────────────────────────────

    /// The failure of issuing `amount` to `to`, if there is one: the supply
    /// or the balance would leave the range of amounts, or the supply would
    /// pass the cap.
    pub open spec fn issue_error(self, to: Address, amount: i128) -> Option<TokenError> {
        if self.total_supply + amount > i128::MAX {
            Some(TokenError::Overflow)
        } else if self.max_supply is Some && self.total_supply + amount > self.max_supply->0 {
            Some(TokenError::MaxSupplyExceeded)
        } else if self.balance_of(to) + amount > i128::MAX {
            Some(TokenError::Overflow)
        } else {
            None
        }
    }

    /// The state after `amount` was issued to `to`.
    pub open spec fn after_issue(self, to: Address, amount: i128) -> TokenState {
        TokenState {
            total_supply: (self.total_supply + amount) as i128,
            ..self.with_balance(to, self.balance_of(to) + amount)
        }.emit(TokenEvent::Mint { to, amount })
    }

    /// The failure of `mint`, if it fails: the caller is not the admin, the
    /// amount is not positive, or the amount cannot be issued.
    pub open spec fn mint_error(self, caller: Address, to: Address, amount: i128) -> Option<TokenError> {
        if self.admin_error(caller) is Some {
            self.admin_error(caller)
        } else if amount <= 0 {
            Some(TokenError::AmountNotPositive)
        } else {
            self.issue_error(to, amount)
        }
    }

    /// The state that a successful `mint` leaves: the balance and the supply
    /// are higher by the amount.
    pub open spec fn after_mint(self, to: Address, amount: i128) -> TokenState {
        self.after_issue(to, amount)
    }

    // ── burn ────────────────────────────────────────────────────────────

    /// The failure of `burn`, if it fails: the caller is not the admin, the
    /// amount is not positive, or the account holds less.
    pub open spec fn burn_error(self, caller: Address, from: Address, amount: i128) -> Option<TokenError> {
        if self.admin_error(caller) is Some {
            self.admin_error(caller)
        } else if amount <= 0 {
            Some(TokenError::AmountNotPositive)
        } else if self.balance_of(from) < amount {
            Some(TokenError::InsufficientBalance)
        } else {
            None
        }
    }

    /// The state that a successful `burn` leaves: the balance and the supply
    /// are lower by the amount.
    pub open spec fn after_burn(self, from: Address, amount: i128) -> TokenState {
        TokenState {
            total_supply: (self.total_supply - amount) as i128,
            ..self.with_balance(from, self.balance_of(from) - amount)
        }.emit(TokenEvent::Burn { from, amount })
    }

    // ── transfer ────────────────────────────────────────────────────────

    /// The failure of moving `amount` from `from` to `to`, if there is one.
    pub open spec fn move_error(self, from: Address, to: Address, amount: i128) -> Option<TokenError> {
        if self.balance_of(from) < amount {
            Some(TokenError::InsufficientBalance)
        } else if from != to && self.balance_of(to) + amount > i128::MAX {
            Some(TokenError::Overflow)
        } else {
            None
        }
    }

    /// The state after `amount` was moved from `from` to `to`: the sender is
    /// debited first, then the receiver is credited, so that a transfer to
    /// oneself leaves the balance as it was.
    pub open spec fn after_move(self, from: Address, to: Address, amount: i128) -> TokenState {
        let debited = self.with_balance(from, self.balance_of(from) - amount);
        debited.with_balance(to, debited.balance_of(to) + amount).emit(
            TokenEvent::Transfer { from, to, amount },
        )
    }

    /// The failure of `transfer`, if it fails: the caller is not the sender,
    /// the amount is not positive, the sender is frozen, or the amount cannot
    /// be moved.
    pub open spec fn transfer_error(self, caller: Address, from: Address, to: Address, amount: i128) -> Option<
        TokenError,
    > {
        if caller != from {
            Some(TokenError::Unauthorized)
        } else if amount <= 0 {
            Some(TokenError::AmountNotPositive)
        } else if self.is_frozen(from) {
            Some(TokenError::AccountFrozen)
        } else {
            self.move_error(from, to, amount)
        }
    }

    /// The state that a successful `transfer` leaves; the supply is as it
    /// was.
    pub open spec fn after_transfer(self, from: Address, to: Address, amount: i128) -> TokenState {
        self.after_move(from, to, amount)
    }

    // ── approve, transfer_from ──────────────────────────────────────────

    /// The failure of `approve`, if it fails: the caller is not the owner, or
    /// the amount is negative. Zero is accepted.
    pub open spec fn approve_error(self, caller: Address, from: Address, amount: i128) -> Option<TokenError> {
        if caller != from {
            Some(TokenError::Unauthorized)
        } else if amount < 0 {
            Some(TokenError::AmountNegative)
        } else {
            None
        }
    }

    /// The state that a successful `approve` leaves: the spender may draw the
    /// amount, whatever it could draw before.
    pub open spec fn after_approve(self, from: Address, spender: Address, amount: i128) -> TokenState {
        TokenState { allowances: self.allowances.insert(Grant { owner: from, spender }, amount), ..self }.emit(
            TokenEvent::Approve { owner: from, spender, amount },
        )
    }

    /// The failure of `transfer_from`, if it fails: the caller is not the
    /// spender, the amount is not positive, the owner is frozen, the spender
    /// may draw less, or the amount cannot be moved.
    pub open spec fn transfer_from_error(
        self,
        caller: Address,
        spender: Address,
        from: Address,
        to: Address,
        amount: i128,
    ) -> Option<TokenError> {
        if caller != spender {
            Some(TokenError::Unauthorized)
        } else if amount <= 0 {
            Some(TokenError::AmountNotPositive)
        } else if self.is_frozen(from) {
            Some(TokenError::AccountFrozen)
        } else if self.allowance_of(from, spender) < amount {
            Some(TokenError::InsufficientAllowance)
        } else {
            self.move_error(from, to, amount)
        }
    }

    /// The state that a successful `transfer_from` leaves: the spender may
    /// draw less by the amount, and the amount has moved.
    pub open spec fn after_transfer_from(self, spender: Address, from: Address, to: Address, amount: i128) -> TokenState {
        TokenState {
            allowances: self.allowances.insert(
                Grant { owner: from, spender },
                (self.allowance_of(from, spender) - amount) as i128,
            ),
            ..self
        }.after_move(from, to, amount)
    }

    // ── freezing ────────────────────────────────────────────────────────

    /// The state that a successful `freeze_account` leaves.
    pub open spec fn after_freeze_account(self, addr: Address) -> TokenState {
        TokenState { frozen: self.frozen.insert(addr), ..self }.emit(
            TokenEvent::Freeze { addr, frozen: true },
        )
    }

    /// The state that a successful `unfreeze_account` leaves.
    pub open spec fn after_unfreeze_account(self, addr: Address) -> TokenState {
        TokenState { frozen: self.frozen.remove(addr), ..self }.emit(
            TokenEvent::Freeze { addr, frozen: false },
        )
    }

    // ── the admin ───────────────────────────────────────────────────────

    /// The state that a successful `set_admin` leaves.
    pub open spec fn after_set_admin(self, new_admin: Address) -> TokenState {
        TokenState { admin: Some(new_admin), ..self }.emit(TokenEvent::SetAdmin { new_admin })
    }

    /// The state that a successful `propose_admin` leaves: the pending
    /// identity is the proposed one, and the admin is as it was.
    pub open spec fn after_propose_admin(self, new_admin: Address) -> TokenState {
        TokenState { pending_admin: Some(new_admin), ..self }
    }

    /// The failure of `accept_admin`, if it fails: no identity is pending, or
    /// the caller is not the pending one.
    pub open spec fn accept_admin_error(self, caller: Address) -> Option<TokenError> {
        if self.pending_admin is None {
            Some(TokenError::NoPendingAdmin)
        } else if self.pending_admin != Some(caller) {
            Some(TokenError::Unauthorized)
        } else {
            None
        }
    }

    /// The state that a successful `accept_admin` leaves: the pending
    /// identity is the admin, and none is pending.
    pub open spec fn after_accept_admin(self) -> TokenState {
        TokenState { admin: self.pending_admin, pending_admin: None, ..self }
    }
    // ── the ledger as entries of a store ────────────────────────────────

    /// What a store holds under `key` for this state, if it holds anything
    /// there. The metadata and the supply are stored once the ledger has an
    /// admin; a balance or an allowance where the state has an entry; a
    /// frozen account as a flag that is set.
    pub open spec fn stored(self, key: DataKey) -> Option<StoredValue> {
        match key {
            DataKey::Admin => match self.admin {
                Some(a) => Some(StoredValue::Address(a)),
                None => None,
            },
            DataKey::PendingAdmin => match self.pending_admin {
                Some(a) => Some(StoredValue::Address(a)),
                None => None,
            },
            DataKey::Name => if self.admin is Some {
                Some(StoredValue::Text(self.name))
            } else {
                None
            },
            DataKey::Symbol => if self.admin is Some {
                Some(StoredValue::Text(self.symbol))
            } else {
                None
            },
            DataKey::Decimals => if self.admin is Some {
                Some(StoredValue::Number(self.decimals))
            } else {
                None
            },
            DataKey::TotalSupply => if self.admin is Some {
                Some(StoredValue::Amount(self.total_supply))
            } else {
                None
            },
            DataKey::MaxSupply => match self.max_supply {
                Some(cap) => Some(StoredValue::Amount(cap)),
                None => None,
            },
            DataKey::Balance(id) => if self.balances.contains_key(id) {
                Some(StoredValue::Amount(self.balances[id]))
            } else {
                None
            },
            DataKey::Allowance(owner, spender) => if self.allowances.contains_key(Grant { owner, spender }) {
                Some(StoredValue::Amount(self.allowances[Grant { owner, spender }]))
            } else {
                None
            },
            DataKey::Frozen(addr) => if self.frozen.contains(addr) {
                Some(StoredValue::Flag(true))
            } else {
                None
            },
        }
    }

    /// Whether the state can take `value` as its entry under `key`: the
    /// value is of the kind that the key holds, and the state stays valid.
    pub open spec fn admits(self, key: DataKey, value: StoredValue) -> bool {
        match (key, value) {
            (DataKey::Admin, StoredValue::Address(_)) => true,
            (DataKey::PendingAdmin, StoredValue::Address(_)) => self.admin is Some,
            (DataKey::Name, StoredValue::Text(_)) => true,
            (DataKey::Symbol, StoredValue::Text(_)) => true,
            (DataKey::Decimals, StoredValue::Number(_)) => true,
            (DataKey::TotalSupply, StoredValue::Amount(supply)) => {
                &&& self.sum_of_balances() <= supply
                &&& (self.max_supply is Some ==> supply <= self.max_supply->0)
                &&& (self.admin is None ==> supply == 0)
            },
            (DataKey::MaxSupply, StoredValue::Amount(cap)) => cap > 0 && self.total_supply <= cap,
            (DataKey::Balance(id), StoredValue::Amount(amount)) => {
                &&& amount >= 0
                &&& self.sum_of_balances() - self.balance_of(id) + amount <= self.total_supply
            },
            (DataKey::Allowance(_, _), StoredValue::Amount(amount)) => amount >= 0,
            (DataKey::Frozen(_), StoredValue::Flag(_)) => true,
            _ => false,
        }
    }

    /// The state with `value` as its entry under `key`. A flag that is not
    /// set under [`DataKey::Frozen`] stands for no entry.
    pub open spec fn with_stored(self, key: DataKey, value: StoredValue) -> TokenState {
        match (key, value) {
            (DataKey::Admin, StoredValue::Address(a)) => TokenState { admin: Some(a), ..self },
            (DataKey::PendingAdmin, StoredValue::Address(a)) => TokenState { pending_admin: Some(a), ..self },
            (DataKey::Name, StoredValue::Text(name)) => TokenState { name, ..self },
            (DataKey::Symbol, StoredValue::Text(symbol)) => TokenState { symbol, ..self },
            (DataKey::Decimals, StoredValue::Number(decimals)) => TokenState { decimals, ..self },
            (DataKey::TotalSupply, StoredValue::Amount(total_supply)) => TokenState { total_supply, ..self },
            (DataKey::MaxSupply, StoredValue::Amount(cap)) => TokenState { max_supply: Some(cap), ..self },
            (DataKey::Balance(id), StoredValue::Amount(amount)) => TokenState {
                balances: self.balances.insert(id, amount),
                ..self
            },
            (DataKey::Allowance(owner, spender), StoredValue::Amount(amount)) => TokenState {
                allowances: self.allowances.insert(Grant { owner, spender }, amount),
                ..self
            },
            (DataKey::Frozen(addr), StoredValue::Flag(frozen)) => TokenState {
                frozen: if frozen {
                    self.frozen.insert(addr)
                } else {
                    self.frozen.remove(addr)
                },
                ..self
            },
            _ => self,
        }
    }
}

/// Whether `result` and the state `after` are what an operation gives that
/// fails with `error`, if that is a failure, and otherwise leaves `success`:
/// on failure the state is the one `before`.
pub open spec fn outcome(
    result: Result<(), TokenError>,
    after: TokenState,
    before: TokenState,
    error: Option<TokenError>,
    success: TokenState,
) -> bool {
    match error {
        Some(e) => result == Err::<(), TokenError>(e) && after == before,
        None => result is Ok && after == success,
    }
}

/// A ledger. Its view is the [`TokenState`] it stands for.
pub struct TokenContract {
    admin: Option<Address>,
    pending_admin: Option<Address>,
    name: String,
    symbol: String,
    decimals: u32,
    total_supply: i128,
    max_supply: Option<i128>,
    balances: Table<Address, i128>,
    /// The sum of all balances, kept up to date.
    balance_sum: i128,
    allowances: Table<Grant, i128>,
    frozen: Table<Address, ()>,
    events: Vec<TokenEvent>,
}

impl View for TokenContract {
    type V = TokenState;

    closed spec fn view(&self) -> TokenState {
        TokenState {
            admin: self.admin,
            pending_admin: self.pending_admin,
            name: self.name@,
            symbol: self.symbol@,
            decimals: self.decimals,
            total_supply: self.total_supply,
            max_supply: self.max_supply,
            balances: self.balances@,
            allowances: self.allowances@,
            frozen: self.frozen@.dom(),
            events: self.events@,
        }
    }
}

impl TokenContract {
    /// The representation invariant: the tables are well formed, and the
    /// running sum is the sum of the balances.
    pub closed spec fn inv(&self) -> bool {
        &&& self.balances.wf()
        &&& self.allowances.wf()
        &&& self.frozen.wf()
        &&& self.balance_sum == total(self.balances@)
    }

    /// Well-formedness: the representation invariant, and the state is valid.
    pub open spec fn wf(&self) -> bool {
        self.inv() && self@.valid()
    }

    /// A ledger that is not initialized yet: no admin, no supply, no entries.
    pub fn new() -> (t: TokenContract)
        ensures
            t.wf(),
            t@ == TokenState::new(),
            t@.conserved(),
    {
        let t = TokenContract {
            admin: None,
            pending_admin: None,
            name: String::new(),
            symbol: String::new(),
            decimals: 0,
            total_supply: 0,
            max_supply: None,
            balances: Table::new(),
            balance_sum: 0,
            allowances: Table::new(),
            frozen: Table::new(),
            events: Vec::new(),
        };
        proof {
            lemma_total_empty::<Address>();
            assert(t@.frozen =~= Set::<Address>::empty());
            assert(t@.events =~= Seq::<TokenEvent>::empty());
        }
        t
    }

    // ── Initialization ──────────────────────────────────────────────────

    /// Sets the admin, the metadata and the cap, and issues `initial_supply`
    /// to `admin` if it is positive. Fails on a ledger that has an admin.
    pub fn initialize(
        &mut self,
        admin: Address,
        decimal: u32,
        name: String,
        symbol: String,
        initial_supply: i128,
        max_supply: Option<i128>,
    ) -> (r: Result<(), TokenError>)
        requires
            old(self).wf(),
        ensures
            final(self).wf(),
            outcome(
                r,
                final(self)@,
                old(self)@,
                old(self)@.initialize_error(initial_supply, max_supply),
                old(self)@.after_initialize(admin, decimal, name@, symbol@, initial_supply, max_supply),
            ),
            old(self)@.conserved() ==> final(self)@.conserved(),
    {
        if self.admin.is_some() {
            return Err(TokenError::AlreadyInitialized);
        }
        if let Some(cap) = max_supply {
            if cap <= 0 {
                return Err(TokenError::MaxSupplyNotPositive);
            }
            if initial_supply > cap {
                return Err(TokenError::InitialSupplyExceedsMaxSupply);
            }
        }
        self.max_supply = max_supply;
        self.admin = Some(admin);
        self.decimals = decimal;
        self.name = name;
        self.symbol = symbol;
        self.total_supply = 0;
        if initial_supply > 0 {
            proof {
                self.balances.lemma_finite();
                lemma_amount_within_total(self.balances@, admin);
            }
            let issued = self._mint(admin, initial_supply);
            assert(issued is Ok);
        }
        self.events.push(TokenEvent::Init { admin });
        Ok(())
    }

    // ── Admin actions ───────────────────────────────────────────────────

    /// Issues `amount` to `to`. Admin only.
    pub fn mint(&mut self, caller: Address, to: Address, amount: i128) -> (r: Result<(), TokenError>)
        requires
            old(self).wf(),
        ensures
            final(self).wf(),
            outcome(
                r,
                final(self)@,
                old(self)@,
                old(self)@.mint_error(caller, to, amount),
                old(self)@.after_mint(to, amount),
            ),
            old(self)@.conserved() ==> final(self)@.conserved(),
    {
        if let Err(e) = self._require_admin(caller) {
            return Err(e);
        }
        if amount <= 0 {
            return Err(TokenError::AmountNotPositive);
        }
        self._mint(to, amount)
    }

    /// Takes `amount` out of what `from` holds and out of the supply. Admin
    /// only.
    pub fn burn(&mut self, caller: Address, from: Address, amount: i128) -> (r: Result<(), TokenError>)
        requires
            old(self).wf(),
        ensures
            final(self).wf(),
            outcome(
                r,
                final(self)@,
                old(self)@,
                old(self)@.burn_error(caller, from, amount),
                old(self)@.after_burn(from, amount),
            ),
            old(self)@.conserved() ==> final(self)@.conserved(),
    {
        if let Err(e) = self._require_admin(caller) {
            return Err(e);
        }
        if amount <= 0 {
            return Err(TokenError::AmountNotPositive);
        }
        self._burn(from, amount)
    }

    /// Records `new_admin` as the identity that may take over as admin, in
    /// place of any that was recorded before. Admin only; the admin stays.
    pub fn propose_admin(&mut self, caller: Address, new_admin: Address) -> (r: Result<(), TokenError>)
        requires
            old(self).wf(),
        ensures
            final(self).wf(),
            outcome(
                r,
                final(self)@,
                old(self)@,
                old(self)@.admin_error(caller),
                old(self)@.after_propose_admin(new_admin),
            ),
    {
        if let Err(e) = self._require_admin(caller) {
            return Err(e);
        }
        self.pending_admin = Some(new_admin);
        Ok(())
    }

    /// Makes the pending identity the admin and clears the pending slot. Only
    /// the pending identity may call this.
    pub fn accept_admin(&mut self, caller: Address) -> (r: Result<(), TokenError>)
        requires
            old(self).wf(),
        ensures
            final(self).wf(),
            outcome(
                r,
                final(self)@,
                old(self)@,
                old(self)@.accept_admin_error(caller),
                old(self)@.after_accept_admin(),
            ),
    {
        match self.pending_admin {
            None => Err(TokenError::NoPendingAdmin),
            Some(pending) => {
                if pending != caller {
                    return Err(TokenError::Unauthorized);
                }
                self.admin = Some(pending);
                self.pending_admin = None;
                Ok(())
            },
        }
    }

    /// Replaces the admin at once. Admin only.
    pub fn set_admin(&mut self, caller: Address, new_admin: Address) -> (r: Result<(), TokenError>)
        requires
            old(self).wf(),
        ensures
            final(self).wf(),
            outcome(
                r,
                final(self)@,
                old(self)@,
                old(self)@.admin_error(caller),
                old(self)@.after_set_admin(new_admin),
            ),
    {
        if let Err(e) = self._require_admin(caller) {
            return Err(e);
        }
        self.admin = Some(new_admin);
        self.events.push(TokenEvent::SetAdmin { new_admin });
        Ok(())
    }

    /// Bars `addr` from sending. Admin only.
    pub fn freeze_account(&mut self, caller: Address, addr: Address) -> (r: Result<(), TokenError>)
        requires
            old(self).wf(),
        ensures
            final(self).wf(),
            outcome(
                r,
                final(self)@,
                old(self)@,
                old(self)@.admin_error(caller),
                old(self)@.after_freeze_account(addr),
            ),
    {
        if let Err(e) = self._require_admin(caller) {
            return Err(e);
        }
        self.frozen.set(addr, ());
        self.events.push(TokenEvent::Freeze { addr, frozen: true });
        proof {
            assert(self@.frozen =~= old(self)@.frozen.insert(addr));
        }
        Ok(())
    }

    /// Lets `addr` send again. Admin only.
    pub fn unfreeze_account(&mut self, caller: Address, addr: Address) -> (r: Result<(), TokenError>)
        requires
            old(self).wf(),
        ensures
            final(self).wf(),
            outcome(
                r,
                final(self)@,
                old(self)@,
                old(self)@.admin_error(caller),
                old(self)@.after_unfreeze_account(addr),
            ),
    {
        if let Err(e) = self._require_admin(caller) {
            return Err(e);
        }
        self.frozen.remove(addr);
        self.events.push(TokenEvent::Freeze { addr, frozen: false });
        proof {
            assert(self@.frozen =~= old(self)@.frozen.remove(addr));
        }
        Ok(())
    }

    // ── Token operations ────────────────────────────────────────────────

    /// Moves `amount` from `from` to `to`. The caller must be `from`, and
    /// `from` must not be frozen.
    pub fn transfer(&mut self, caller: Address, from: Address, to: Address, amount: i128) -> (r: Result<
        (),
        TokenError,
    >)
        requires
            old(self).wf(),
        ensures
            final(self).wf(),
            outcome(
                r,
                final(self)@,
                old(self)@,
                old(self)@.transfer_error(caller, from, to, amount),
                old(self)@.after_transfer(from, to, amount),
            ),
            old(self)@.conserved() ==> final(self)@.conserved(),
    {
        if caller != from {
            return Err(TokenError::Unauthorized);
        }
        if amount <= 0 {
            return Err(TokenError::AmountNotPositive);
        }
        if self._is_frozen(from) {
            return Err(TokenError::AccountFrozen);
        }
        self._transfer(from, to, amount)
    }

    /// Whether a transfer would succeed, and if not, how it would fail. The
    /// ledger stays as it is.
    pub fn check_transfer(&self, caller: Address, from: Address, to: Address, amount: i128) -> (r: Result<
        (),
        TokenError,
    >)
        requires
            self.wf(),
        ensures
            r == (match self@.transfer_error(caller, from, to, amount) {
                Some(e) => Err::<(), TokenError>(e),
                None => Ok::<(), TokenError>(()),
            }),
    {
        if caller != from {
            return Err(TokenError::Unauthorized);
        }
        if amount <= 0 {
            return Err(TokenError::AmountNotPositive);
        }
        if self._is_frozen(from) {
            return Err(TokenError::AccountFrozen);
        }
        if self.balance(from) < amount {
            return Err(TokenError::InsufficientBalance);
        }
        if from != to && self.balance(to).checked_add(amount).is_none() {
            return Err(TokenError::Overflow);
        }
        Ok(())
    }

    /// Lets `spender` draw up to `amount` from `from`, in place of what it
    /// could draw before. The caller must be `from`. The last argument is
    /// accepted and has no effect.
    pub fn approve(
        &mut self,
        caller: Address,
        from: Address,
        spender: Address,
        amount: i128,
        _expiration_ledger: u32,
    ) -> (r: Result<(), TokenError>)
        requires
            old(self).wf(),
        ensures
            final(self).wf(),
            outcome(
                r,
                final(self)@,
                old(self)@,
                old(self)@.approve_error(caller, from, amount),
                old(self)@.after_approve(from, spender, amount),
            ),
    {
        if caller != from {
            return Err(TokenError::Unauthorized);
        }
        if amount < 0 {
            return Err(TokenError::AmountNegative);
        }
        self.allowances.set(Grant { owner: from, spender }, amount);
        self.events.push(TokenEvent::Approve { owner: from, spender, amount });
        Ok(())
    }

    /// Moves `amount` from `from` to `to` and lowers by `amount` what
    /// `spender` may still draw from `from`. The caller must be `spender`,
    /// and `from` must not be frozen.
    pub fn transfer_from(
        &mut self,
        caller: Address,
        spender: Address,
        from: Address,
        to: Address,
        amount: i128,
    ) -> (r: Result<(), TokenError>)
        requires
            old(self).wf(),
        ensures
            final(self).wf(),
            outcome(
                r,
                final(self)@,
                old(self)@,
                old(self)@.transfer_from_error(caller, spender, from, to, amount),
                old(self)@.after_transfer_from(spender, from, to, amount),
            ),
            old(self)@.conserved() ==> final(self)@.conserved(),
    {
        if caller != spender {
            return Err(TokenError::Unauthorized);
        }
        if amount <= 0 {
            return Err(TokenError::AmountNotPositive);
        }
        if self._is_frozen(from) {
            return Err(TokenError::AccountFrozen);
        }
        let allowance = self.allowance(from, spender);
        if allowance < amount {
            return Err(TokenError::InsufficientAllowance);
        }
        if let Err(e) = self._transfer(from, to, amount) {
            return Err(e);
        }
        self.allowances.set(Grant { owner: from, spender }, allowance - amount);
        Ok(())
    }

    // ── Read-only getters ───────────────────────────────────────────────

    /// What `id` holds; zero for an account without an entry.
    pub fn balance(&self, id: Address) -> (r: i128)
        requires
            self.wf(),
        ensures
            r == self@.balance_of(id),
            r >= 0,
    {
        match self.balances.get(id) {
            Some(amount) => amount,
            None => 0,
        }
    }

    /// What `spender` may still draw from `from`; zero for a pair without an
    /// entry.
    pub fn allowance(&self, from: Address, spender: Address) -> (r: i128)
        requires
            self.wf(),
        ensures
            r == self@.allowance_of(from, spender),
            r >= 0,
    {
        match self.allowances.get(Grant { owner: from, spender }) {
            Some(amount) => amount,
            None => 0,
        }
    }

    /// The admin; fails on a ledger that is not initialized.
    pub fn admin(&self) -> (r: Result<Address, TokenError>)
        ensures
            r == (match self@.admin {
                Some(a) => Ok::<Address, TokenError>(a),
                None => Err::<Address, TokenError>(TokenError::NotInitialized),
            }),
    {
        match self.admin {
            Some(a) => Ok(a),
            None => Err(TokenError::NotInitialized),
        }
    }

    /// The number of decimals; fails on a ledger that is not initialized.
    pub fn decimals(&self) -> (r: Result<u32, TokenError>)
        ensures
            r == (if self@.admin is Some {
                Ok::<u32, TokenError>(self@.decimals)
            } else {
                Err::<u32, TokenError>(TokenError::NotInitialized)
            }),
    {
        if self.admin.is_some() {
            Ok(self.decimals)
        } else {
            Err(TokenError::NotInitialized)
        }
    }

    /// The name; fails on a ledger that is not initialized.
    pub fn name(&self) -> (r: Result<String, TokenError>)
        ensures
            match r {
                Ok(s) => self@.admin is Some && s@ == self@.name,
                Err(e) => self@.admin is None && e == TokenError::NotInitialized,
            },
    {
        if self.admin.is_some() {
            Ok(self.name.clone())
        } else {
            Err(TokenError::NotInitialized)
        }
    }

    /// The symbol; fails on a ledger that is not initialized.
    pub fn symbol(&self) -> (r: Result<String, TokenError>)
        ensures
            match r {
                Ok(s) => self@.admin is Some && s@ == self@.symbol,
                Err(e) => self@.admin is None && e == TokenError::NotInitialized,
            },
    {
        if self.admin.is_some() {
            Ok(self.symbol.clone())
        } else {
            Err(TokenError::NotInitialized)
        }
    }

    /// The total supply.
    pub fn total_supply(&self) -> (r: i128)
        ensures
            r == self@.total_supply,
    {
        self.total_supply
    }

    /// Whether `addr` is frozen.
    pub fn is_frozen(&self, addr: Address) -> (r: bool)
        requires
            self.wf(),
        ensures
            r == self@.is_frozen(addr),
    {
        self._is_frozen(addr)
    }

    /// The cap on the supply, if there is one.
    pub fn max_supply(&self) -> (r: Option<i128>)
        ensures
            r == self@.max_supply,
    {
        self.max_supply
    }

    /// The notifications left so far, oldest first.
    pub fn events(&self) -> (r: &Vec<TokenEvent>)
        ensures
            r@ == self@.events,
    {
        &self.events
    }

    // ── The ledger as entries of a store ────────────────────────────────

    /// What a store holds under `key` for this ledger, if it holds anything
    /// there.
    pub fn stored(&self, key: DataKey) -> (r: Option<TokenValue>)
        requires
            self.wf(),
        ensures
            match r {
                Some(value) => self@.stored(key) == Some(value@),
                None => self@.stored(key) is None,
            },
    {
        match key {
            DataKey::Admin => match self.admin {
                Some(a) => Some(TokenValue::Address(a)),
                None => None,
            },
            DataKey::PendingAdmin => match self.pending_admin {
                Some(a) => Some(TokenValue::Address(a)),
                None => None,
            },
            DataKey::Name => if self.admin.is_some() {
                Some(TokenValue::Text(self.name.clone()))
            } else {
                None
            },
            DataKey::Symbol => if self.admin.is_some() {
                Some(TokenValue::Text(self.symbol.clone()))
            } else {
                None
            },
            DataKey::Decimals => if self.admin.is_some() {
                Some(TokenValue::Number(self.decimals))
            } else {
                None
            },
            DataKey::TotalSupply => if self.admin.is_some() {
                Some(TokenValue::Amount(self.total_supply))
            } else {
                None
            },
            DataKey::MaxSupply => match self.max_supply {
                Some(cap) => Some(TokenValue::Amount(cap)),
                None => None,
            },
            DataKey::Balance(id) => match self.balances.get(id) {
                Some(amount) => Some(TokenValue::Amount(amount)),
                None => None,
            },
            DataKey::Allowance(owner, spender) => match self.allowances.get(Grant { owner, spender }) {
                Some(amount) => Some(TokenValue::Amount(amount)),
                None => None,
            },
            DataKey::Frozen(addr) => if self._is_frozen(addr) {
                Some(TokenValue::Flag(true))
            } else {
                None
            },
        }
    }

    /// Takes `value` as the entry under `key`, where the ledger admits it,
    /// and says whether it did. This is how a ledger is built up again from
    /// what a store holds of it; it leaves no notification.
    pub fn restore(&mut self, key: DataKey, value: TokenValue) -> (accepted: bool)
        requires
            old(self).wf(),
        ensures
            final(self).wf(),
            accepted == old(self)@.admits(key, value@),
            final(self)@ == (if accepted {
                old(self)@.with_stored(key, value@)
            } else {
                old(self)@
            }),
    {
        match (key, value) {
            (DataKey::Admin, TokenValue::Address(a)) => {
                self.admin = Some(a);
                true
            },
            (DataKey::PendingAdmin, TokenValue::Address(a)) => {
                if self.admin.is_none() {
                    return false;
                }
                self.pending_admin = Some(a);
                true
            },
            (DataKey::Name, TokenValue::Text(name)) => {
                self.name = name;
                true
            },
            (DataKey::Symbol, TokenValue::Text(symbol)) => {
                self.symbol = symbol;
                true
            },
            (DataKey::Decimals, TokenValue::Number(decimals)) => {
                self.decimals = decimals;
                true
            },
            (DataKey::TotalSupply, TokenValue::Amount(supply)) => {
                if supply < self.balance_sum {
                    return false;
                }
                if let Some(cap) = self.max_supply {
                    if supply > cap {
                        return false;
                    }
                }
                if self.admin.is_none() && supply != 0 {
                    return false;
                }
                self.total_supply = supply;
                true
            },
            (DataKey::MaxSupply, TokenValue::Amount(cap)) => {
                if cap <= 0 || self.total_supply > cap {
                    return false;
                }
                self.max_supply = Some(cap);
                true
            },
            (DataKey::Balance(id), TokenValue::Amount(amount)) => {
                if amount < 0 {
                    return false;
                }
                let held = self.balance(id);
                proof {
                    self.balances.lemma_finite();
                    lemma_amount_within_total(self.balances@, id);
                    lemma_total_insert(self.balances@, id, amount);
                }
                let sum = match (self.balance_sum - held).checked_add(amount) {
                    Some(sum) => sum,
                    None => {
                        return false;
                    },
                };
                if sum > self.total_supply {
                    return false;
                }
                self.balances.set(id, amount);
                self.balance_sum = sum;
                true
            },
            (DataKey::Allowance(owner, spender), TokenValue::Amount(amount)) => {
                if amount < 0 {
                    return false;
                }
                self.allowances.set(Grant { owner, spender }, amount);
                true
            },
            (DataKey::Frozen(addr), TokenValue::Flag(frozen)) => {
                if frozen {
                    self.frozen.set(addr, ());
                    proof {
                        assert(self@.frozen =~= old(self)@.frozen.insert(addr));
                    }
                } else {
                    self.frozen.remove(addr);
                    proof {
                        assert(self@.frozen =~= old(self)@.frozen.remove(addr));
                    }
                }
                true
            },
            _ => false,
        }
    }

    // ── Internal helpers ────────────────────────────────────────────────

    fn _require_admin(&self, caller: Address) -> (r: Result<(), TokenError>)
        ensures
            r == (match self@.admin_error(caller) {
                Some(e) => Err::<(), TokenError>(e),
                None => Ok::<(), TokenError>(()),
            }),
    {
        match self.admin {
            None => Err(TokenError::NotInitialized),
            Some(admin) => {
                if admin == caller {
                    Ok(())
                } else {
                    Err(TokenError::Unauthorized)
                }
            },
        }
    }

    fn _is_frozen(&self, addr: Address) -> (r: bool)
        requires
            self.wf(),
        ensures
            r == self@.is_frozen(addr),
    {
        self.frozen.get(addr).is_some()
    }

    fn _mint(&mut self, to: Address, amount: i128) -> (r: Result<(), TokenError>)
        requires
            old(self).wf(),
            old(self)@.admin is Some,
            amount > 0,
        ensures
            final(self).wf(),
            outcome(
                r,
                final(self)@,
                old(self)@,
                old(self)@.issue_error(to, amount),
                old(self)@.after_issue(to, amount),
            ),
            old(self)@.conserved() ==> final(self)@.conserved(),
    {
        let new_supply = match self.total_supply.checked_add(amount) {
            Some(sum) => sum,
            None => {
                return Err(TokenError::Overflow);
            },
        };
        if let Some(cap) = self.max_supply {
            if new_supply > cap {
                return Err(TokenError::MaxSupplyExceeded);
            }
        }
        let balance = self.balance(to);
        let new_balance = match balance.checked_add(amount) {
            Some(sum) => sum,
            None => {
                return Err(TokenError::Overflow);
            },
        };
        proof {
            self.balances.lemma_finite();
            lemma_total_insert(self.balances@, to, new_balance);
        }
        self.balances.set(to, new_balance);
        self.balance_sum = self.balance_sum + amount;
        self.total_supply = new_supply;
        self.events.push(TokenEvent::Mint { to, amount });
        Ok(())
    }

    fn _burn(&mut self, from: Address, amount: i128) -> (r: Result<(), TokenError>)
        requires
            old(self).wf(),
            old(self)@.admin is Some,
            amount > 0,
        ensures
            final(self).wf(),
            outcome(
                r,
                final(self)@,
                old(self)@,
                if old(self)@.balance_of(from) < amount {
                    Some(TokenError::InsufficientBalance)
                } else {
                    None
                },
                old(self)@.after_burn(from, amount),
            ),
            old(self)@.conserved() ==> final(self)@.conserved(),
    {
        let balance = self.balance(from);
        if balance < amount {
            return Err(TokenError::InsufficientBalance);
        }
        proof {
            self.balances.lemma_finite();
            lemma_amount_within_total(self.balances@, from);
            lemma_total_insert(self.balances@, from, (balance - amount) as i128);
        }
        self.balances.set(from, balance - amount);
        self.balance_sum = self.balance_sum - amount;
        self.total_supply = self.total_supply - amount;
        self.events.push(TokenEvent::Burn { from, amount });
        Ok(())
    }

    fn _transfer(&mut self, from: Address, to: Address, amount: i128) -> (r: Result<(), TokenError>)
        requires
            old(self).wf(),
            amount > 0,
        ensures
            final(self).wf(),
            outcome(
                r,
                final(self)@,
                old(self)@,
                old(self)@.move_error(from, to, amount),
                old(self)@.after_move(from, to, amount),
            ),
            old(self)@.conserved() ==> final(self)@.conserved(),
    {
        let from_balance = self.balance(from);
        if from_balance < amount {
            return Err(TokenError::InsufficientBalance);
        }
        let to_balance = if from == to {
            from_balance - amount
        } else {
            self.balance(to)
        };
        let new_to_balance = match to_balance.checked_add(amount) {
            Some(sum) => sum,
            None => {
                return Err(TokenError::Overflow);
            },
        };
        proof {
            let debited = self.balances@.insert(from, (from_balance - amount) as i128);
            self.balances.lemma_finite();
            lemma_total_insert(self.balances@, from, (from_balance - amount) as i128);
            lemma_total_insert(debited, to, new_to_balance);
        }
        self.balances.set(from, from_balance - amount);
        self.balances.set(to, new_to_balance);
        self.events.push(TokenEvent::Transfer { from, to, amount });
        Ok(())
    }
}

} // verus!
