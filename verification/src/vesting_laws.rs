//! Laws of the vesting engine, proved from the model of its operations.

use vstd::prelude::*;
use crate::address::Address;
use crate::token::TokenState;
use crate::token_laws::lemma_move_keeps_sum;
use crate::vesting::{DataKey, VestingError, VestingState, VestingValue};

verus! {

/// An operation of the engine together with its caller, its arguments and,
/// where it reads the clock, the time at which it is invoked.
pub enum VestingOp {
    Initialize { admin: Address, token_contract: Address },
    CreateSchedule { caller: Address, recipient: Address, total_amount: i128, cliff_ledger: u32, end_ledger: u32 },
    Release { recipient: Address, now: u32 },
    Revoke { caller: Address, recipient: Address, now: u32 },
}

impl VestingOp {
    /// The entries of the engine that the operation reads or writes.
    pub open spec fn touches(self) -> Set<DataKey> {
        match self {
            VestingOp::Initialize { .. } => set![DataKey::Admin, DataKey::TokenContract],
            VestingOp::CreateSchedule { recipient, .. } => set![DataKey::Admin, DataKey::Schedule(recipient)],
            VestingOp::Release { recipient, .. } => set![DataKey::TokenContract, DataKey::Schedule(recipient)],
            VestingOp::Revoke { recipient, .. } => set![
                DataKey::Admin,
                DataKey::TokenContract,
                DataKey::Schedule(recipient),
            ],
        }
    }
}

/// Whether a store holds the same for both states under each of `keys`.
pub open spec fn agree_on(a: VestingState, b: VestingState, keys: Set<DataKey>) -> bool {
    forall|key: DataKey| keys.contains(key) ==> #[trigger] a.stored(key) == b.stored(key)
}

impl VestingState {
    /// The failure that `op` ends in on this state, if it fails.
    pub open spec fn error_of(self, op: VestingOp) -> Option<VestingError> {
        match op {
            VestingOp::Initialize { .. } => self.initialize_error(),
            VestingOp::CreateSchedule {
                caller,
                recipient,
                total_amount,
                cliff_ledger,
                end_ledger,
            } => self.create_schedule_error(caller, recipient, total_amount, cliff_ledger, end_ledger),
            VestingOp::Release { recipient, now } => self.release_error(recipient, now),
            VestingOp::Revoke { caller, recipient, now } => self.revoke_error(caller, recipient, now),
        }
    }

    /// The state that `op` leaves where it succeeds.
    pub open spec fn success_of(self, op: VestingOp) -> VestingState {
        match op {
            VestingOp::Initialize { admin, token_contract } => self.after_initialize(admin, token_contract),
            VestingOp::CreateSchedule {
                recipient,
                total_amount,
                cliff_ledger,
                end_ledger,
                ..
            } => self.after_create_schedule(recipient, total_amount, cliff_ledger, end_ledger),
            VestingOp::Release { recipient, now } => self.after_release(recipient, now),
            VestingOp::Revoke { recipient, now, .. } => self.after_revoke(recipient, now),
        }
    }

    /// The state after `op` was invoked: a failed operation changes nothing.
    pub open spec fn step(self, op: VestingOp) -> VestingState {
        if self.error_of(op) is None {
            self.success_of(op)
        } else {
            self
        }
    }

    /// The state after the operations `ops` were invoked one after the other.
    pub open spec fn run(self, ops: Seq<VestingOp>) -> VestingState
        decreases ops.len(),
    {
        if ops.len() == 0 {
            self
        } else {
            self.run(ops.drop_last()).step(ops.last())
        }
    }
}

/// Any one operation keeps a valid state valid, keeps every schedule that
/// there is, with its amount and its two points in time, and keeps a revoked
/// schedule revoked.
pub proof fn lemma_step_keeps_schedules(s: VestingState, op: VestingOp, recipient: Address)
    requires
        s.valid(),
        s.schedules.contains_key(recipient),
    ensures
        s.step(op).valid(),
        s.step(op).schedules.contains_key(recipient),
        s.step(op).schedules[recipient].total_amount == s.schedules[recipient].total_amount,
        s.step(op).schedules[recipient].cliff_ledger == s.schedules[recipient].cliff_ledger,
        s.step(op).schedules[recipient].end_ledger == s.schedules[recipient].end_ledger,
        s.schedules[recipient].revoked ==> s.step(op).schedules[recipient] == s.schedules[recipient],
{
    lemma_step_keeps_valid(s, op);
}

/// Any one operation keeps a valid state valid.
pub proof fn lemma_step_keeps_valid(s: VestingState, op: VestingOp)
    requires
        s.valid(),
    ensures
        s.step(op).valid(),
{
    if s.error_of(op) is None {
        match op {
            VestingOp::Release { recipient, now } => {
                s.schedules[recipient].lemma_vested_bounds(now);
            },
            VestingOp::Revoke { recipient, now, .. } => {
                s.schedules[recipient].lemma_vested_bounds(now);
            },
            _ => {},
        }
    }
}

/// Revocation is final. Once a schedule is revoked, no sequence of
/// operations changes it: it stays revoked, and what counts as released
/// stays as the revocation left it.
pub proof fn lemma_revoked_is_terminal(s: VestingState, ops: Seq<VestingOp>, recipient: Address)
    requires
        s.valid(),
        s.schedules.contains_key(recipient),
        s.schedules[recipient].revoked,
    ensures
        s.run(ops).valid(),
        s.run(ops).schedules.contains_key(recipient),
        s.run(ops).schedules[recipient] == s.schedules[recipient],
    decreases ops.len(),
{
    if ops.len() > 0 {
        lemma_revoked_is_terminal(s, ops.drop_last(), recipient);
        lemma_step_keeps_schedules(s.run(ops.drop_last()), ops.last(), recipient);
    }
}

/// After a revocation nothing is released and nothing is revoked again,
/// whatever the time.
pub proof fn lemma_revoked_refuses(s: VestingState, caller: Address, recipient: Address, now: u32, later: u32)
    requires
        s.valid(),
        s.revoke_error(caller, recipient, now) is None,
    ensures
        s.after_revoke(recipient, now).release_error(recipient, later) == Some(VestingError::ScheduleRevoked),
        s.after_revoke(recipient, now).revoke_error(caller, recipient, later) == Some(
            VestingError::AlreadyRevoked,
        ),
{
}

/// Schedules are kept. After any sequence of operations a valid engine is
/// valid, each schedule that there was is still there with its amount, its
/// cliff and its end, and no more counts as released than its amount.
pub proof fn lemma_schedules_are_kept(s: VestingState, ops: Seq<VestingOp>, recipient: Address)
    requires
        s.valid(),
        s.schedules.contains_key(recipient),
    ensures
        s.run(ops).valid(),
        s.run(ops).schedules.contains_key(recipient),
        s.run(ops).schedules[recipient].total_amount == s.schedules[recipient].total_amount,
        s.run(ops).schedules[recipient].cliff_ledger == s.schedules[recipient].cliff_ledger,
        s.run(ops).schedules[recipient].end_ledger == s.schedules[recipient].end_ledger,
        0 <= s.run(ops).schedules[recipient].released <= s.schedules[recipient].total_amount,
    decreases ops.len(),
{
    if ops.len() > 0 {
        lemma_schedules_are_kept(s, ops.drop_last(), recipient);
        lemma_step_keeps_schedules(s.run(ops.drop_last()), ops.last(), recipient);
    }
}

/// A release pays out everything that has vested: what it pays is positive,
/// afterwards exactly the vested amount counts as released, and a second
/// release at the same time finds nothing to release.
pub proof fn lemma_release_settles(s: VestingState, recipient: Address, now: u32)
    requires
        s.valid(),
        s.release_error(recipient, now) is None,
    ensures
        s.release_payout(recipient, now).amount > 0,
        s.after_release(recipient, now).schedules[recipient].released == s.schedules[recipient].released
            + s.release_payout(recipient, now).amount,
        s.after_release(recipient, now).schedules[recipient].released == s.schedules[recipient].vested_at(
            now,
        ),
        s.after_release(recipient, now).release_error(recipient, now) == Some(
            VestingError::NothingToRelease,
        ),
{
    s.schedules[recipient].lemma_vested_bounds(now);
}

/// A revocation splits the amount. What was released before, what goes to
/// the recipient and what goes back to the admin add up to the whole amount
/// of the schedule, provided that the clock has not gone back behind the
/// last release.
pub proof fn lemma_revoke_splits_amount(s: VestingState, caller: Address, recipient: Address, now: u32)
    requires
        s.valid(),
        s.revoke_error(caller, recipient, now) is None,
        s.schedules[recipient].released <= s.schedules[recipient].vested_at(now),
    ensures
        ({
            let settlement = s.revoke_settlement(recipient, now);
            let to_recipient: int = if settlement.to_recipient is Some {
                settlement.to_recipient->0.amount as int
            } else {
                0
            };
            let to_admin: int = if settlement.to_admin is Some {
                settlement.to_admin->0.amount as int
            } else {
                0
            };
            &&& s.schedules[recipient].released + to_recipient + to_admin == s.schedules[recipient].total_amount
            &&& to_recipient == s.schedules[recipient].vested_at(now) - s.schedules[recipient].released
            &&& to_admin == s.schedules[recipient].total_amount - s.schedules[recipient].vested_at(now)
            &&& settlement.to_recipient is Some ==> settlement.to_recipient->0.to == recipient
            &&& settlement.to_admin is Some ==> Some(settlement.to_admin->0.to) == s.admin
        }),
{
    s.schedules[recipient].lemma_vested_bounds(now);
}

/// What counts as released never falls while the clock does not go back: a
/// release or a revocation at a time by which at least the released amount
/// has vested leaves no less released than before.
pub proof fn lemma_released_never_falls(s: VestingState, op: VestingOp, recipient: Address, now: u32)
    requires
        s.valid(),
        s.schedules.contains_key(recipient),
        op == (VestingOp::Release { recipient, now }) || exists|caller: Address|
            op == (VestingOp::Revoke { caller, recipient, now }),
        s.schedules[recipient].released <= s.schedules[recipient].vested_at(now),
    ensures
        s.step(op).schedules[recipient].released >= s.schedules[recipient].released,
{
    s.schedules[recipient].lemma_vested_bounds(now);
}

/// What has vested does not depend on what was released. No operation
/// changes the answer that an existing schedule gives to the question of
/// what has vested at a given time.
pub proof fn lemma_vested_amount_is_kept(s: VestingState, op: VestingOp, recipient: Address, at: u32)
    requires
        s.valid(),
        s.schedules.contains_key(recipient),
    ensures
        s.step(op).vested_amount(recipient, at) == s.vested_amount(recipient, at),
{
    lemma_step_keeps_schedules(s, op, recipient);
}

/// Operations are local. Two valid states that hold the same under the
/// entries that an operation touches take the operation alike: it fails on
/// both with the same failure or succeeds on both, and afterwards they hold
/// the same under those entries again.
pub proof fn lemma_step_is_local(a: VestingState, b: VestingState, op: VestingOp)
    requires
        a.valid(),
        b.valid(),
        agree_on(a, b, op.touches()),
    ensures
        a.error_of(op) == b.error_of(op),
        agree_on(a.step(op), b.step(op), op.touches()),
{
    let keys = op.touches();
    if keys.contains(DataKey::Admin) {
        assert(a.stored(DataKey::Admin) == b.stored(DataKey::Admin));
        assert(a.admin == b.admin);
    }
    if keys.contains(DataKey::TokenContract) {
        assert(a.stored(DataKey::TokenContract) == b.stored(DataKey::TokenContract));
        assert(a.token_contract == b.token_contract);
    }
    assert forall|r: Address| keys.contains(DataKey::Schedule(r)) implies (a.schedules.contains_key(r)
        <==> b.schedules.contains_key(r)) && (a.schedules.contains_key(r) ==> a.schedules[r]
        == b.schedules[r]) by {
        assert(a.stored(DataKey::Schedule(r)) == b.stored(DataKey::Schedule(r)));
    }
    match op {
        VestingOp::Initialize { .. } => {
            assert(keys.contains(DataKey::Admin));
        },
        VestingOp::CreateSchedule { recipient, .. } => {
            assert(keys.contains(DataKey::Admin));
            assert(keys.contains(DataKey::Schedule(recipient)));
        },
        VestingOp::Release { recipient, .. } => {
            assert(keys.contains(DataKey::TokenContract));
            assert(keys.contains(DataKey::Schedule(recipient)));
        },
        VestingOp::Revoke { recipient, .. } => {
            assert(keys.contains(DataKey::Admin));
            assert(keys.contains(DataKey::TokenContract));
            assert(keys.contains(DataKey::Schedule(recipient)));
        },
    }
    assert(a.error_of(op) == b.error_of(op));
    assert forall|key: DataKey| keys.contains(key) implies #[trigger] a.step(op).stored(key) == b.step(
        op,
    ).stored(key) by {
        assert(a.stored(key) == b.stored(key));
    }
}

/// Operations leave the rest alone. What a store holds under an entry that
/// an operation does not touch is the same after the operation as before.
pub proof fn lemma_step_keeps_other_entries(s: VestingState, op: VestingOp, key: DataKey)
    requires
        s.valid(),
        !op.touches().contains(key),
    ensures
        s.step(op).stored(key) == s.stored(key),
{
}

/// The payouts are local too. Two valid states that hold the same under the
/// entries that a release or a revocation touches hand back the same
/// payouts.
pub proof fn lemma_payouts_are_local(a: VestingState, b: VestingState, caller: Address, recipient: Address, now: u32)
    requires
        a.valid(),
        b.valid(),
        agree_on(a, b, (VestingOp::Revoke { caller, recipient, now }).touches()),
    ensures
        a.release_error(recipient, now) is None ==> a.release_payout(recipient, now) == b.release_payout(
            recipient,
            now,
        ),
        a.revoke_error(caller, recipient, now) is None ==> a.revoke_settlement(recipient, now)
            == b.revoke_settlement(recipient, now),
{
    let keys = (VestingOp::Revoke { caller, recipient, now }).touches();
    assert(keys.contains(DataKey::Admin));
    assert(keys.contains(DataKey::TokenContract));
    assert(keys.contains(DataKey::Schedule(recipient)));
    assert(a.stored(DataKey::Admin) == b.stored(DataKey::Admin));
    assert(a.stored(DataKey::TokenContract) == b.stored(DataKey::TokenContract));
    assert(a.stored(DataKey::Schedule(recipient)) == b.stored(DataKey::Schedule(recipient)));
}

/// Restoring an entry stores it. A state that admits a value under a key
/// stays valid with it, and a store then holds that value under the key.
pub proof fn lemma_restored_is_stored(s: VestingState, key: DataKey, value: VestingValue)
    requires
        s.valid(),
        s.admits(key, value),
    ensures
        s.with_stored(key, value).valid(),
        s.with_stored(key, value).stored(key) == Some(value),
{
}

/// A release moves the funds. Where a release that pays out succeeds, the
/// recipient holds on the ledger what it held and what was released, the
/// engine's account holds that much less, and the supply and the sum of the
/// balances are as they were.
pub proof fn lemma_release_moves_funds(
    s: VestingState,
    ledger: TokenState,
    account: Address,
    recipient: Address,
    now: u32,
)
    requires
        s.valid(),
        ledger.valid(),
        s.release_and_pay_error(ledger, account, recipient, now) is None,
        account != recipient,
    ensures
        ({
            let after = s.release_payout(recipient, now).applied_to(ledger, account);
            let amount = s.schedules[recipient].releasable_at(now);
            &&& amount > 0
            &&& after.valid()
            &&& after.balance_of(recipient) == ledger.balance_of(recipient) + amount
            &&& after.balance_of(account) == ledger.balance_of(account) - amount
            &&& after.total_supply == ledger.total_supply
            &&& after.sum_of_balances() == ledger.sum_of_balances()
        }),
{
    s.schedules[recipient].lemma_vested_bounds(now);
    let payout = s.release_payout(recipient, now);
    lemma_move_keeps_sum(ledger, account, payout.to, payout.amount);
}

/// A revocation moves the split. Where a revocation that pays out
/// succeeds, and the clock has not gone back behind the last release, the
/// recipient holds on the ledger what it held and what had vested and was
/// not released, the admin what it held and what had not vested, the
/// engine's account holds less by both, which together with what was
/// released before make up the amount of the schedule, and the supply and
/// the sum of the balances are as they were.
pub proof fn lemma_revocation_moves_funds(
    s: VestingState,
    ledger: TokenState,
    account: Address,
    caller: Address,
    recipient: Address,
    now: u32,
)
    requires
        s.valid(),
        ledger.valid(),
        s.revoke_and_pay_error(ledger, account, caller, recipient, now) is None,
        s.schedules[recipient].released <= s.schedules[recipient].vested_at(now),
        account != recipient,
        account != caller,
        recipient != caller,
    ensures
        ({
            let after = s.revoke_settlement(recipient, now).applied_to(ledger, account);
            let schedule = s.schedules[recipient];
            &&& s.admin == Some(caller)
            &&& after.valid()
            &&& after.balance_of(recipient) == ledger.balance_of(recipient) + schedule.releasable_at(now)
            &&& after.balance_of(caller) == ledger.balance_of(caller) + schedule.unvested_at(now)
            &&& after.balance_of(account) == ledger.balance_of(account) - schedule.releasable_at(now)
                - schedule.unvested_at(now)
            &&& schedule.released + schedule.releasable_at(now) + schedule.unvested_at(now)
                == schedule.total_amount
            &&& after.total_supply == ledger.total_supply
            &&& after.sum_of_balances() == ledger.sum_of_balances()
        }),
{
    s.schedules[recipient].lemma_vested_bounds(now);
    let settlement = s.revoke_settlement(recipient, now);
    let midway = settlement.midway(ledger, account);
    if settlement.to_recipient is Some {
        lemma_move_keeps_sum(ledger, account, recipient, settlement.to_recipient->0.amount);
    }
    if settlement.to_admin is Some {
        lemma_move_keeps_sum(midway, account, caller, settlement.to_admin->0.amount);
    }
}

} // verus!
