//! Laws of the asset ledger, proved from the model of its operations.

use vstd::prelude::*;
use crate::address::{Address, Grant};
use crate::sum::{lemma_amount_within_total, lemma_pair_within_total, lemma_total_empty, lemma_total_insert};
use crate::token::{DataKey, StoredValue, TokenError, TokenState};

verus! {

/// An operation of the ledger together with its caller and arguments.
pub enum TokenOp {
    Initialize {
        admin: Address,
        decimal: u32,
        name: Seq<char>,
        symbol: Seq<char>,
        initial_supply: i128,
        max_supply: Option<i128>,
    },
    Mint { caller: Address, to: Address, amount: i128 },
    Burn { caller: Address, from: Address, amount: i128 },
    Transfer { caller: Address, from: Address, to: Address, amount: i128 },
    Approve { caller: Address, from: Address, spender: Address, amount: i128 },
    TransferFrom { caller: Address, spender: Address, from: Address, to: Address, amount: i128 },
    FreezeAccount { caller: Address, addr: Address },
    UnfreezeAccount { caller: Address, addr: Address },
    SetAdmin { caller: Address, new_admin: Address },
    ProposeAdmin { caller: Address, new_admin: Address },
    AcceptAdmin { caller: Address },
}

impl TokenOp {
    /// The entries of the ledger that the operation reads or writes.
    pub open spec fn touches(self) -> Set<DataKey> {
        match self {
            TokenOp::Initialize { admin, .. } => set![
                DataKey::Admin,
                DataKey::Name,
                DataKey::Symbol,
                DataKey::Decimals,
                DataKey::TotalSupply,
                DataKey::MaxSupply,
                DataKey::Balance(admin),
            ],
            TokenOp::Mint { to, .. } => set![
                DataKey::Admin,
                DataKey::TotalSupply,
                DataKey::MaxSupply,
                DataKey::Balance(to),
            ],
            TokenOp::Burn { from, .. } => set![DataKey::Admin, DataKey::TotalSupply, DataKey::Balance(from)],
            TokenOp::Transfer { from, to, .. } => set![
                DataKey::Frozen(from),
                DataKey::Balance(from),
                DataKey::Balance(to),
            ],
            TokenOp::Approve { from, spender, .. } => set![DataKey::Allowance(from, spender)],
            TokenOp::TransferFrom { spender, from, to, .. } => set![
                DataKey::Frozen(from),
                DataKey::Allowance(from, spender),
                DataKey::Balance(from),
                DataKey::Balance(to),
            ],
            TokenOp::FreezeAccount { addr, .. } => set![DataKey::Admin, DataKey::Frozen(addr)],
            TokenOp::UnfreezeAccount { addr, .. } => set![DataKey::Admin, DataKey::Frozen(addr)],
            TokenOp::SetAdmin { .. } => set![DataKey::Admin],
            TokenOp::ProposeAdmin { .. } => set![DataKey::Admin, DataKey::PendingAdmin],
            TokenOp::AcceptAdmin { .. } => set![DataKey::Admin, DataKey::PendingAdmin],
        }
    }
}

/// Whether a store holds the same for both states under each of `keys`.
pub open spec fn agree_on(a: TokenState, b: TokenState, keys: Set<DataKey>) -> bool {
    forall|key: DataKey| keys.contains(key) ==> #[trigger] a.stored(key) == b.stored(key)
}

impl TokenState {
    /// The failure that `op` ends in on this state, if it fails.
    pub open spec fn error_of(self, op: TokenOp) -> Option<TokenError> {
        match op {
            TokenOp::Initialize { initial_supply, max_supply, .. } => self.initialize_error(
                initial_supply,
                max_supply,
            ),
            TokenOp::Mint { caller, to, amount } => self.mint_error(caller, to, amount),
            TokenOp::Burn { caller, from, amount } => self.burn_error(caller, from, amount),
            TokenOp::Transfer { caller, from, to, amount } => self.transfer_error(caller, from, to, amount),
            TokenOp::Approve { caller, from, amount, .. } => self.approve_error(caller, from, amount),
            TokenOp::TransferFrom { caller, spender, from, to, amount } => self.transfer_from_error(
                caller,
                spender,
                from,
                to,
                amount,
            ),
            TokenOp::FreezeAccount { caller, .. } => self.admin_error(caller),
            TokenOp::UnfreezeAccount { caller, .. } => self.admin_error(caller),
            TokenOp::SetAdmin { caller, .. } => self.admin_error(caller),
            TokenOp::ProposeAdmin { caller, .. } => self.admin_error(caller),
            TokenOp::AcceptAdmin { caller } => self.accept_admin_error(caller),
        }
    }

    /// The state that `op` leaves where it succeeds.
    pub open spec fn success_of(self, op: TokenOp) -> TokenState {
        match op {
            TokenOp::Initialize { admin, decimal, name, symbol, initial_supply, max_supply } => self.after_initialize(
                admin,
                decimal,
                name,
                symbol,
                initial_supply,
                max_supply,
            ),
            TokenOp::Mint { to, amount, .. } => self.after_mint(to, amount),
            TokenOp::Burn { from, amount, .. } => self.after_burn(from, amount),
            TokenOp::Transfer { from, to, amount, .. } => self.after_transfer(from, to, amount),
            TokenOp::Approve { from, spender, amount, .. } => self.after_approve(from, spender, amount),
            TokenOp::TransferFrom { spender, from, to, amount, .. } => self.after_transfer_from(
                spender,
                from,
                to,
                amount,
            ),
            TokenOp::FreezeAccount { addr, .. } => self.after_freeze_account(addr),
            TokenOp::UnfreezeAccount { addr, .. } => self.after_unfreeze_account(addr),
            TokenOp::SetAdmin { new_admin, .. } => self.after_set_admin(new_admin),
            TokenOp::ProposeAdmin { new_admin, .. } => self.after_propose_admin(new_admin),
            TokenOp::AcceptAdmin { .. } => self.after_accept_admin(),
        }
    }

    /// The state after `op` was invoked: a failed operation changes nothing.
    pub open spec fn step(self, op: TokenOp) -> TokenState {
        if self.error_of(op) is None {
            self.success_of(op)
        } else {
            self
        }
    }

    /// The state after the operations `ops` were invoked one after the other.
    pub open spec fn run(self, ops: Seq<TokenOp>) -> TokenState
        decreases ops.len(),
    {
        if ops.len() == 0 {
            self
        } else {
            self.run(ops.drop_last()).step(ops.last())
        }
    }
}

/// Moving an amount that the sender holds keeps the state valid and leaves
/// the sum of the balances as it was.
pub proof fn lemma_move_keeps_sum(s: TokenState, from: Address, to: Address, amount: i128)
    requires
        s.valid(),
        amount > 0,
        s.move_error(from, to, amount) is None,
    ensures
        s.after_move(from, to, amount).valid(),
        s.after_move(from, to, amount).sum_of_balances() == s.sum_of_balances(),
        s.after_move(from, to, amount).total_supply == s.total_supply,
{
    let debit = (s.balance_of(from) - amount) as i128;
    let debited = s.with_balance(from, s.balance_of(from) - amount);
    let credit = (debited.balance_of(to) + amount) as i128;
    lemma_amount_within_total(s.balances, from);
    if from != to {
        lemma_pair_within_total(s.balances, from, to);
    }
    lemma_total_insert(s.balances, from, debit);
    lemma_total_insert(debited.balances, to, credit);
}

/// Any one operation keeps a valid state valid, and keeps the balances equal
/// to the supply where they were.
pub proof fn lemma_step_keeps_valid(s: TokenState, op: TokenOp)
    requires
        s.valid(),
    ensures
        s.step(op).valid(),
        s.conserved() ==> s.step(op).conserved(),
{
    if s.error_of(op) is None {
        match op {
            TokenOp::Initialize { admin, initial_supply, .. } => {
                lemma_amount_within_total(s.balances, admin);
                if initial_supply > 0 {
                    lemma_total_insert(s.balances, admin, initial_supply);
                }
            },
            TokenOp::Mint { to, amount, .. } => {
                lemma_amount_within_total(s.balances, to);
                lemma_total_insert(s.balances, to, (s.balance_of(to) + amount) as i128);
            },
            TokenOp::Burn { from, amount, .. } => {
                lemma_amount_within_total(s.balances, from);
                lemma_total_insert(s.balances, from, (s.balance_of(from) - amount) as i128);
            },
            TokenOp::Transfer { from, to, amount, .. } => {
                lemma_move_keeps_sum(s, from, to, amount);
            },
            TokenOp::TransferFrom { spender, from, to, amount, .. } => {
                let drawn = TokenState {
                    allowances: s.allowances.insert(
                        Grant { owner: from, spender },
                        (s.allowance_of(from, spender) - amount) as i128,
                    ),
                    ..s
                };
                lemma_move_keeps_sum(drawn, from, to, amount);
            },
            _ => {},
        }
    }
}

/// Conservation. From a valid state in which the balances sum to the supply,
/// any sequence of operations leads to such a state again; as this holds of
/// every sequence, it holds after each single operation of one.
pub proof fn lemma_conservation(s: TokenState, ops: Seq<TokenOp>)
    requires
        s.valid(),
        s.conserved(),
    ensures
        s.run(ops).valid(),
        s.run(ops).sum_of_balances() == s.run(ops).total_supply,
    decreases ops.len(),
{
    if ops.len() > 0 {
        lemma_conservation(s, ops.drop_last());
        lemma_step_keeps_valid(s.run(ops.drop_last()), ops.last());
    }
}

/// Conservation from the start. Whatever operations are invoked on a new
/// ledger, the balances sum to the supply after each of them.
pub proof fn lemma_conservation_from_new(ops: Seq<TokenOp>)
    ensures
        TokenState::new().run(ops).valid(),
        TokenState::new().run(ops).sum_of_balances() == TokenState::new().run(ops).total_supply,
{
    lemma_total_empty::<Address>();
    lemma_conservation(TokenState::new(), ops);
}

/// The metadata and the cap are set once. On a ledger that has an admin, no
/// sequence of operations changes the name, the symbol, the number of
/// decimals or the cap, and the ledger keeps having an admin.
pub proof fn lemma_metadata_is_immutable(s: TokenState, ops: Seq<TokenOp>)
    requires
        s.valid(),
        s.admin is Some,
    ensures
        s.run(ops).admin is Some,
        s.run(ops).name == s.name,
        s.run(ops).symbol == s.symbol,
        s.run(ops).decimals == s.decimals,
        s.run(ops).max_supply == s.max_supply,
    decreases ops.len(),
{
    if ops.len() > 0 {
        lemma_metadata_is_immutable(s, ops.drop_last());
        lemma_balances_never_negative(s, ops.drop_last(), arbitrary());
    }
}

/// Non-negativity. After any sequence of operations on a valid state, no
/// account holds less than nothing.
pub proof fn lemma_balances_never_negative(s: TokenState, ops: Seq<TokenOp>, id: Address)
    requires
        s.valid(),
    ensures
        s.run(ops).valid(),
        s.run(ops).balance_of(id) >= 0,
    decreases ops.len(),
{
    if ops.len() > 0 {
        lemma_balances_never_negative(s, ops.drop_last(), id);
        lemma_step_keeps_valid(s.run(ops.drop_last()), ops.last());
    }
}

/// Cap enforcement. After any sequence of operations on a valid state the
/// supply does not exceed the cap, where there is one.
pub proof fn lemma_supply_within_cap(s: TokenState, ops: Seq<TokenOp>)
    requires
        s.valid(),
    ensures
        s.run(ops).max_supply is Some ==> s.run(ops).total_supply <= s.run(ops).max_supply->0,
    decreases ops.len(),
{
    lemma_balances_never_negative(s, ops, arbitrary());
}

/// Cap enforcement at the boundary. A mint by the admin of a positive amount
/// succeeds exactly when the new supply does not exceed the cap: one that
/// reaches the cap exactly succeeds, one unit more fails.
pub proof fn lemma_mint_up_to_cap(s: TokenState, caller: Address, to: Address, amount: i128)
    requires
        s.valid(),
        s.max_supply is Some,
        s.admin == Some(caller),
        amount > 0,
    ensures
        s.mint_error(caller, to, amount) is None <==> s.total_supply + amount <= s.max_supply->0,
        s.total_supply + amount == s.max_supply->0 ==> s.mint_error(caller, to, amount) is None,
        s.total_supply + amount == s.max_supply->0 + 1 ==> s.mint_error(caller, to, amount) is Some,
        s.mint_error(caller, to, amount) is None ==> s.after_mint(to, amount).total_supply
            <= s.max_supply->0,
{
    lemma_amount_within_total(s.balances, to);
}

/// Rejection of amounts that are not positive. With an amount of zero or
/// less, `mint`, `burn`, `transfer` and `transfer_from` fail whoever calls;
/// `approve` by the owner accepts exactly zero of them.
pub proof fn lemma_non_positive_amount_rejected(
    s: TokenState,
    caller: Address,
    spender: Address,
    from: Address,
    to: Address,
    amount: i128,
)
    requires
        amount <= 0,
    ensures
        s.mint_error(caller, to, amount) is Some,
        s.burn_error(caller, from, amount) is Some,
        s.transfer_error(caller, from, to, amount) is Some,
        s.transfer_from_error(caller, spender, from, to, amount) is Some,
        s.approve_error(from, from, amount) is None <==> amount == 0,
{
}

/// Transfer conservation. A successful transfer leaves the supply, the sum
/// of all balances and what the two accounts hold together as they were, and
/// no other account's balance changes.
pub proof fn lemma_transfer_conserves(s: TokenState, caller: Address, from: Address, to: Address, amount: i128)
    requires
        s.valid(),
        s.transfer_error(caller, from, to, amount) is None,
    ensures
        s.after_transfer(from, to, amount).total_supply == s.total_supply,
        s.after_transfer(from, to, amount).sum_of_balances() == s.sum_of_balances(),
        from != to ==> s.after_transfer(from, to, amount).balance_of(from) == s.balance_of(from) - amount,
        from != to ==> s.after_transfer(from, to, amount).balance_of(to) == s.balance_of(to) + amount,
        from == to ==> s.after_transfer(from, to, amount).balance_of(from) == s.balance_of(from),
        s.after_transfer(from, to, amount).balance_of(from) + s.after_transfer(from, to, amount).balance_of(to)
            == s.balance_of(from) + s.balance_of(to),
        forall|other: Address|
            other != from && other != to ==> #[trigger] s.after_transfer(from, to, amount).balance_of(other)
                == s.balance_of(other),
{
    lemma_move_keeps_sum(s, from, to, amount);
    lemma_amount_within_total(s.balances, from);
    if from != to {
        lemma_pair_within_total(s.balances, from, to);
    }
}

/// Approval overwrites. After an approval the spender may draw the approved
/// amount, whatever it could draw before, and no other allowance changes.
pub proof fn lemma_approve_overwrites(s: TokenState, from: Address, spender: Address, amount: i128)
    ensures
        s.after_approve(from, spender, amount).allowance_of(from, spender) == amount,
        forall|owner: Address, other: Address|
            owner != from || other != spender ==> #[trigger] s.after_approve(
                from,
                spender,
                amount,
            ).allowance_of(owner, other) == s.allowance_of(owner, other),
{
    assert forall|owner: Address, other: Address| owner != from || other != spender implies #[trigger] s.after_approve(
        from,
        spender,
        amount,
    ).allowance_of(owner, other) == s.allowance_of(owner, other) by {
        assert(Grant { owner, spender: other } != Grant { owner: from, spender });
    }
}

/// A delegated transfer draws on the allowance. It fails where the amount
/// exceeds what the spender may draw, and where it succeeds the allowance is
/// lower by exactly the amount and the balances move as in a transfer.
pub proof fn lemma_transfer_from_draws_allowance(
    s: TokenState,
    caller: Address,
    spender: Address,
    from: Address,
    to: Address,
    amount: i128,
)
    requires
        s.valid(),
    ensures
        amount > s.allowance_of(from, spender) ==> s.transfer_from_error(caller, spender, from, to, amount)
            is Some,
        s.transfer_from_error(caller, spender, from, to, amount) is None ==> {
            let after = s.after_transfer_from(spender, from, to, amount);
            &&& after.allowance_of(from, spender) == s.allowance_of(from, spender) - amount
            &&& after.balances == s.after_transfer(from, to, amount).balances
            &&& after.total_supply == s.total_supply
        },
{
}

/// Freeze gating. A frozen account cannot send, by `transfer` or as the
/// `from` of `transfer_from`, whoever calls and whatever the amount.
pub proof fn lemma_frozen_cannot_send(
    s: TokenState,
    caller: Address,
    spender: Address,
    from: Address,
    to: Address,
    amount: i128,
)
    requires
        s.is_frozen(from),
    ensures
        s.transfer_error(caller, from, to, amount) is Some,
        s.transfer_from_error(caller, spender, from, to, amount) is Some,
{
}

/// Freezing bars sending only. Whether an account other than the sender is
/// frozen makes no difference to a transfer: a frozen account receives funds
/// and draws on allowances as any other.
pub proof fn lemma_frozen_can_receive_and_spend(
    s: TokenState,
    frozen: Address,
    caller: Address,
    spender: Address,
    from: Address,
    to: Address,
    amount: i128,
)
    requires
        frozen != from,
    ensures
        s.after_freeze_account(frozen).transfer_error(caller, from, to, amount) == s.transfer_error(
            caller,
            from,
            to,
            amount,
        ),
        s.after_freeze_account(frozen).transfer_from_error(caller, spender, from, to, amount)
            == s.transfer_from_error(caller, spender, from, to, amount),
        s.after_freeze_account(frozen).approve_error(caller, frozen, amount) == s.approve_error(
            caller,
            frozen,
            amount,
        ),
{
}

/// Admin handover, first half. A proposal leaves the admin in office: every
/// admin-only operation fails or succeeds after it as it did before it.
pub proof fn lemma_proposal_keeps_admin(s: TokenState, new_admin: Address, caller: Address)
    ensures
        s.after_propose_admin(new_admin).admin == s.admin,
        s.after_propose_admin(new_admin).admin_error(caller) == s.admin_error(caller),
        forall|to: Address, amount: i128| #[trigger]
            s.after_propose_admin(new_admin).mint_error(caller, to, amount) == s.mint_error(caller, to, amount),
{
}

/// Admin handover, second half. Of two proposals only the later one can be
/// accepted: the identity proposed last becomes admin by accepting, and any
/// other identity is refused.
pub proof fn lemma_latest_proposal_wins(s: TokenState, first: Address, second: Address, caller: Address)
    ensures
        ({
            let proposed = s.after_propose_admin(first).after_propose_admin(second);
            &&& proposed.pending_admin == Some(second)
            &&& proposed.accept_admin_error(second) is None
            &&& proposed.after_accept_admin().admin == Some(second)
            &&& proposed.after_accept_admin().pending_admin is None
            &&& caller != second ==> proposed.accept_admin_error(caller) == Some(TokenError::Unauthorized)
        }),
{
}

/// Overflow guard. A mint that would take the supply past the largest amount
/// fails, whoever calls.
pub proof fn lemma_mint_overflow_rejected(s: TokenState, caller: Address, to: Address, amount: i128)
    requires
        s.total_supply + amount > i128::MAX,
    ensures
        s.mint_error(caller, to, amount) is Some,
        s.admin == Some(caller) && amount > 0 ==> s.mint_error(caller, to, amount) == Some(
            TokenError::Overflow,
        ),
        s.step(TokenOp::Mint { caller, to, amount }) == s,
{
}

/// Operations are local. Two valid states that hold the same under the
/// entries that an operation touches take the operation alike: it fails on
/// both with the same failure or succeeds on both, and afterwards they hold
/// the same under those entries again.
pub proof fn lemma_step_is_local(a: TokenState, b: TokenState, op: TokenOp)
    requires
        a.valid(),
        b.valid(),
        agree_on(a, b, op.touches()),
    ensures
        a.error_of(op) == b.error_of(op),
        agree_on(a.step(op), b.step(op), op.touches()),
{
    let keys = op.touches();
    if keys.contains(DataKey::Admin) {
        assert(a.stored(DataKey::Admin) == b.stored(DataKey::Admin));
        assert(a.admin == b.admin);
    }
    if keys.contains(DataKey::PendingAdmin) {
        assert(a.stored(DataKey::PendingAdmin) == b.stored(DataKey::PendingAdmin));
        assert(a.pending_admin == b.pending_admin);
    }
    if keys.contains(DataKey::TotalSupply) {
        assert(a.stored(DataKey::TotalSupply) == b.stored(DataKey::TotalSupply));
    }
    if keys.contains(DataKey::MaxSupply) {
        assert(a.stored(DataKey::MaxSupply) == b.stored(DataKey::MaxSupply));
        assert(a.max_supply == b.max_supply);
    }
    assert forall|id: Address| keys.contains(DataKey::Balance(id)) implies a.balance_of(id) == b.balance_of(id)
        && (a.balances.contains_key(id) <==> b.balances.contains_key(id)) by {
        assert(a.stored(DataKey::Balance(id)) == b.stored(DataKey::Balance(id)));
    }
    assert forall|owner: Address, spender: Address|
        keys.contains(DataKey::Allowance(owner, spender)) implies a.allowance_of(owner, spender)
        == b.allowance_of(owner, spender) && (a.allowances.contains_key(Grant { owner, spender })
        <==> b.allowances.contains_key(Grant { owner, spender })) by {
        assert(a.stored(DataKey::Allowance(owner, spender)) == b.stored(DataKey::Allowance(owner, spender)));
    }
    assert forall|addr: Address| keys.contains(DataKey::Frozen(addr)) implies a.is_frozen(addr) == b.is_frozen(
        addr,
    ) by {
        assert(a.stored(DataKey::Frozen(addr)) == b.stored(DataKey::Frozen(addr)));
    }
    match op {
        TokenOp::Initialize { admin, .. } => {
            assert(keys.contains(DataKey::Admin));
            assert(keys.contains(DataKey::Balance(admin)));
        },
        TokenOp::Mint { to, .. } => {
            assert(keys.contains(DataKey::Admin));
            assert(keys.contains(DataKey::TotalSupply));
            assert(keys.contains(DataKey::MaxSupply));
            assert(keys.contains(DataKey::Balance(to)));
        },
        TokenOp::Burn { from, .. } => {
            assert(keys.contains(DataKey::Admin));
            assert(keys.contains(DataKey::TotalSupply));
            assert(keys.contains(DataKey::Balance(from)));
        },
        TokenOp::Transfer { from, to, .. } => {
            assert(keys.contains(DataKey::Frozen(from)));
            assert(keys.contains(DataKey::Balance(from)));
            assert(keys.contains(DataKey::Balance(to)));
        },
        TokenOp::Approve { from, spender, .. } => {
            assert(keys.contains(DataKey::Allowance(from, spender)));
        },
        TokenOp::TransferFrom { spender, from, to, .. } => {
            assert(keys.contains(DataKey::Frozen(from)));
            assert(keys.contains(DataKey::Allowance(from, spender)));
            assert(keys.contains(DataKey::Balance(from)));
            assert(keys.contains(DataKey::Balance(to)));
        },
        TokenOp::FreezeAccount { addr, .. } => {
            assert(keys.contains(DataKey::Admin));
            assert(keys.contains(DataKey::Frozen(addr)));
        },
        TokenOp::UnfreezeAccount { addr, .. } => {
            assert(keys.contains(DataKey::Admin));
            assert(keys.contains(DataKey::Frozen(addr)));
        },
        TokenOp::SetAdmin { .. } => {
            assert(keys.contains(DataKey::Admin));
        },
        TokenOp::ProposeAdmin { .. } => {
            assert(keys.contains(DataKey::Admin));
            assert(keys.contains(DataKey::PendingAdmin));
        },
        TokenOp::AcceptAdmin { .. } => {
            assert(keys.contains(DataKey::Admin));
            assert(keys.contains(DataKey::PendingAdmin));
        },
    }
    assert(a.error_of(op) == b.error_of(op));
    assert forall|key: DataKey| keys.contains(key) implies #[trigger] a.step(op).stored(key) == b.step(
        op,
    ).stored(key) by {
        assert(a.stored(key) == b.stored(key));
    }
}

/// Operations leave the rest alone. What a store holds under an entry that
/// an operation does not touch is the same after the operation as before.
pub proof fn lemma_step_keeps_other_entries(s: TokenState, op: TokenOp, key: DataKey)
    requires
        s.valid(),
        !op.touches().contains(key),
    ensures
        s.step(op).stored(key) == s.stored(key),
{
}

/// Restoring an entry stores it. A state that admits a value under a key
/// stays valid with it, and a store then holds that value under the key:
/// the metadata and the supply once there is an admin, and a frozen account
/// where the flag is set.
pub proof fn lemma_restored_is_stored(s: TokenState, key: DataKey, value: StoredValue)
    requires
        s.valid(),
        s.admits(key, value),
    ensures
        s.with_stored(key, value).valid(),
        match key {
            DataKey::Name | DataKey::Symbol | DataKey::Decimals | DataKey::TotalSupply => s.admin is Some
                ==> s.with_stored(key, value).stored(key) == Some(value),
            DataKey::Frozen(_) => s.with_stored(key, value).stored(key) == (if value == StoredValue::Flag(true) {
                Some(value)
            } else {
                None
            }),
            _ => s.with_stored(key, value).stored(key) == Some(value),
        },
{
    match (key, value) {
        (DataKey::Balance(id), StoredValue::Amount(amount)) => {
            lemma_total_insert(s.balances, id, amount);
        },
        _ => {},
    }
}

} // verus!
