//! The vesting engine: one unlock schedule per recipient, released along a
//! cliff-plus-linear curve over the ledger's clock, and revocable by the
//! admin.
//!
//! The engine holds its funds as an ordinary account of an asset ledger.
//! [`VestingContract::release`] and [`VestingContract::revoke`] settle the
//! schedule and hand back the payouts that are to be executed on that ledger,
//! from the engine's account; the schedule is settled first, the funds move
//! after. Where the ledger is reached from elsewhere, the caller executes
//! them, and discards the engine's new state if it cannot. Where the ledger
//! is at hand, [`VestingContract::release_and_pay`] and
//! [`VestingContract::revoke_and_pay`] do both, as a whole or not at all.

use vstd::prelude::*;
use vstd::arithmetic::div_mod::{lemma_div_is_ordered, lemma_div_multiples_vanish, lemma_div_pos_is_pos};
use vstd::arithmetic::mul::{lemma_mul_inequality, lemma_mul_is_commutative, lemma_mul_nonnegative};
use crate::address::Address;
use crate::sum::lemma_pair_within_total;
use crate::table::Table;
use crate::token::{TokenContract, TokenError, TokenState};

verus! {

/// Why an operation of the vesting engine was refused. A refused operation
/// leaves the engine as it was.
#[derive(Clone, Copy, Debug, PartialEq, Eq, Structural)]
pub enum VestingError {
    /// The engine has no admin, or no ledger, yet.
    NotInitialized,
    /// The engine already has an admin.
    AlreadyInitialized,
    /// The caller is not the admin.
    Unauthorized,
    /// The amount of a schedule must be greater than zero.
    TotalAmountNotPositive,
    /// A schedule must end after its cliff.
    EndNotAfterCliff,
    /// The recipient already has a schedule.
    ScheduleExists,
    /// The recipient has no schedule.
    NoSchedule,
    /// The schedule was revoked, so that nothing more is released.
    ScheduleRevoked,
    /// The schedule was revoked before.
    AlreadyRevoked,
    /// Nothing has vested that was not released yet.
    NothingToRelease,
    /// The product of the amount and the elapsed time leaves the range of
    /// amounts.
    Overflow,
}

/// A notification that a successful operation leaves for the outside world.
#[derive(Clone, Copy, Debug, PartialEq, Eq, Structural)]
pub enum VestingEvent {
    Init { admin: Address, token_contract: Address },
    Create { recipient: Address, total_amount: i128 },
    Release { recipient: Address, amount: i128 },
    Revoke { recipient: Address, released: i128, returned: i128 },
}

/// A transfer of `amount` on the ledger `token`, from the engine's own
/// account to `to`, that the caller has to execute.
#[derive(Clone, Copy, Debug, PartialEq, Eq, Structural)]
pub struct Payout {
    pub token: Address,
    pub to: Address,
    pub amount: i128,
}

/// The payouts of a revocation: what had vested and was not released goes to
/// the recipient, what had not vested goes back to the admin. A payout is
/// there exactly when its amount is positive.
#[derive(Clone, Copy, Debug, PartialEq, Eq, Structural)]
pub struct Settlement {
    pub to_recipient: Option<Payout>,
    pub to_admin: Option<Payout>,
}

/// Why an operation that also pays out was refused: by the engine, or by the
/// ledger when the funds were to move. Either way the engine and the ledger
/// are left as they were.
#[derive(Clone, Copy, Debug, PartialEq, Eq, Structural)]
pub enum SettleError {
    Vesting(VestingError),
    Ledger(TokenError),
}

impl Payout {
    /// The failure of executing the payout on the ledger state `ledger`,
    /// from the account `account`, if it fails: that of the transfer.
    pub open spec fn error_on(self, ledger: TokenState, account: Address) -> Option<TokenError> {
        ledger.transfer_error(account, account, self.to, self.amount)
    }

    /// The ledger state after the payout was executed.
    pub open spec fn applied_to(self, ledger: TokenState, account: Address) -> TokenState {
        ledger.after_transfer(account, self.to, self.amount)
    }

    /// Executes the payout on `ledger`, which has to be the ledger that the
    /// payout names, from the engine's account `account`.
    pub fn execute(&self, ledger: &mut TokenContract, account: Address) -> (r: Result<(), TokenError>)
        requires
            old(ledger).wf(),
        ensures
            final(ledger).wf(),
            match self.error_on(old(ledger)@, account) {
                Some(e) => r == Err::<(), TokenError>(e) && final(ledger)@ == old(ledger)@,
                None => r is Ok && final(ledger)@ == self.applied_to(old(ledger)@, account),
            },
            old(ledger)@.conserved() ==> final(ledger)@.conserved(),
    {
        ledger.transfer(account, account, self.to, self.amount)
    }
}

impl Settlement {
    /// The ledger state after the payout to the recipient, if there is one.
    pub open spec fn midway(self, ledger: TokenState, account: Address) -> TokenState {
        match self.to_recipient {
            Some(payout) => payout.applied_to(ledger, account),
            None => ledger,
        }
    }

    /// The failure of executing the payouts one after the other, if one
    /// fails: that of the payout to the recipient, and else that of the
    /// payout to the admin on the ledger as the first one left it.
    pub open spec fn error_on(self, ledger: TokenState, account: Address) -> Option<TokenError> {
        if self.to_recipient is Some && self.to_recipient->0.error_on(ledger, account) is Some {
            self.to_recipient->0.error_on(ledger, account)
        } else if self.to_admin is Some {
            self.to_admin->0.error_on(self.midway(ledger, account), account)
        } else {
            None
        }
    }

    /// The ledger state after both payouts were executed.
    pub open spec fn applied_to(self, ledger: TokenState, account: Address) -> TokenState {
        match self.to_admin {
            Some(payout) => payout.applied_to(self.midway(ledger, account), account),
            None => self.midway(ledger, account),
        }
    }

    /// Executes the payouts on `ledger`, from the engine's account
    /// `account`: both, or, where one of them would fail, none.
    pub fn execute(&self, ledger: &mut TokenContract, account: Address) -> (r: Result<(), TokenError>)
        requires
            old(ledger).wf(),
        ensures
            final(ledger).wf(),
            match self.error_on(old(ledger)@, account) {
                Some(e) => r == Err::<(), TokenError>(e) && final(ledger)@ == old(ledger)@,
                None => r is Ok && final(ledger)@ == self.applied_to(old(ledger)@, account),
            },
            old(ledger)@.conserved() ==> final(ledger)@.conserved(),
    {
        if let Some(first) = self.to_recipient {
            if let Err(e) = ledger.check_transfer(account, account, first.to, first.amount) {
                return Err(e);
            }
        }
        if let Some(second) = self.to_admin {
            // What the second payout meets is the ledger after the first.
            if second.amount <= 0 {
                return Err(TokenError::AmountNotPositive);
            }
            if ledger.is_frozen(account) {
                return Err(TokenError::AccountFrozen);
            }
            let held = ledger.balance(account);
            let left = match self.to_recipient {
                Some(first) => if first.to == account {
                    held
                } else {
                    held - first.amount
                },
                None => held,
            };
            if left < second.amount {
                return Err(TokenError::InsufficientBalance);
            }
        }
        if let Some(first) = self.to_recipient {
            let paid = first.execute(ledger, account);
            assert(paid is Ok);
        }
        if let Some(second) = self.to_admin {
            proof {
                if second.to != account {
                    lemma_pair_within_total(ledger@.balances, account, second.to);
                }
            }
            let paid = second.execute(ledger, account);
            assert(paid is Ok);
        }
        Ok(())
    }
}

/// The unlock schedule of one recipient.
#[derive(Clone, Copy, Debug, PartialEq, Eq, Structural)]
pub struct VestingSchedule {
    pub recipient: Address,
    /// The amount that unlocks over the life of the schedule.
    pub total_amount: i128,
    /// Before this point of the clock nothing has vested.
    pub cliff_ledger: u32,
    /// From this point of the clock on everything has vested.
    pub end_ledger: u32,
    /// What was released to the recipient, or settled by a revocation, so
    /// far.
    pub released: i128,
    /// Whether the schedule was revoked. A revoked schedule stays revoked.
    pub revoked: bool,
}

impl VestingSchedule {
    /// What holds of every schedule: a positive amount, an end after the
    /// cliff, and no more released than the amount.
    pub open spec fn valid(self) -> bool {
        &&& self.total_amount > 0
        &&& self.cliff_ledger < self.end_ledger
        &&& 0 <= self.released <= self.total_amount
    }

    /// The amount that has vested at `now`: nothing before the cliff,
    /// everything from the end on, and in between the share of the amount
    /// that the elapsed time is of the time from cliff to end, rounded down.
    pub open spec fn vested_at(self, now: u32) -> int {
        if now < self.cliff_ledger {
            0
        } else if now >= self.end_ledger {
            self.total_amount as int
        } else {
            self.total_amount * (now - self.cliff_ledger) / (self.end_ledger - self.cliff_ledger)
        }
    }

    /// Whether the product that the vested amount at `now` is computed from
    /// leaves the range of amounts.
    pub open spec fn overflows_at(self, now: u32) -> bool {
        &&& self.cliff_ledger <= now < self.end_ledger
        &&& self.total_amount * (now - self.cliff_ledger) > i128::MAX
    }

    /// What has vested at `now` and was not released yet.
    pub open spec fn releasable_at(self, now: u32) -> int {
        self.vested_at(now) - self.released
    }

    /// What has not vested at `now`.
    pub open spec fn unvested_at(self, now: u32) -> int {
        self.total_amount - self.vested_at(now)
    }

    /// The schedule with everything that has vested at `now` released.
    pub open spec fn released_up_to(self, now: u32) -> VestingSchedule {
        VestingSchedule { released: self.vested_at(now) as i128, ..self }
    }

    /// The schedule revoked at `now`: everything that has vested counts as
    /// released.
    pub open spec fn revoked_at(self, now: u32) -> VestingSchedule {
        VestingSchedule { released: self.vested_at(now) as i128, revoked: true, ..self }
    }

    /// The vested amount lies between nothing and the whole amount.
    pub proof fn lemma_vested_bounds(self, now: u32)
        requires
            self.valid(),
        ensures
            0 <= self.vested_at(now) <= self.total_amount,
    {
        if self.cliff_ledger <= now < self.end_ledger {
            let total = self.total_amount as int;
            let elapsed = (now - self.cliff_ledger) as int;
            let duration = (self.end_ledger - self.cliff_ledger) as int;
            lemma_mul_nonnegative(total, elapsed);
            lemma_div_pos_is_pos(total * elapsed, duration);
            lemma_mul_is_commutative(total, elapsed);
            lemma_mul_is_commutative(total, duration);
            lemma_mul_inequality(elapsed, duration, total);
            lemma_div_is_ordered(total * elapsed, total * duration, duration);
            lemma_div_multiples_vanish(total, duration);
        }
    }

    /// The curve is exact at its ends: up to and at the cliff nothing has
    /// vested, and from the end on the whole amount has.
    pub proof fn lemma_vested_at_the_ends(self, now: u32)
        requires
            self.valid(),
        ensures
            now <= self.cliff_ledger ==> self.vested_at(now) == 0,
            now >= self.end_ledger ==> self.vested_at(now) == self.total_amount,
    {
        if now == self.cliff_ledger {
            let duration = (self.end_ledger - self.cliff_ledger) as int;
            assert(self.total_amount * (now - self.cliff_ledger) == 0) by (nonlinear_arith)
                requires
                    now - self.cliff_ledger == 0,
            ;
            assert(0int / duration == 0) by (nonlinear_arith)
                requires
                    duration > 0,
            ;
        }
    }

    /// The vested amount never falls as the clock advances.
    pub proof fn lemma_vested_monotonic(self, earlier: u32, later: u32)
        requires
            self.valid(),
            earlier <= later,
        ensures
            self.vested_at(earlier) <= self.vested_at(later),
    {
        self.lemma_vested_bounds(earlier);
        self.lemma_vested_bounds(later);
        if self.cliff_ledger <= earlier && later < self.end_ledger {
            let total = self.total_amount as int;
            let before = (earlier - self.cliff_ledger) as int;
            let after = (later - self.cliff_ledger) as int;
            let duration = (self.end_ledger - self.cliff_ledger) as int;
            lemma_mul_is_commutative(total, before);
            lemma_mul_is_commutative(total, after);
            lemma_mul_inequality(before, after, total);
            lemma_div_is_ordered(total * before, total * after, duration);
        }
    }
}

/// The name of one entry of an engine, as a key-value store holds it.
#[derive(Clone, Copy, Debug, PartialEq, Eq, Structural, Hash)]
pub enum DataKey {
    Admin,
    TokenContract,
    Schedule(Address),
}

/// What a store holds under a [`DataKey`].
#[derive(Clone, Copy, Debug, PartialEq, Eq, Structural)]
pub enum VestingValue {
    Address(Address),
    Schedule(VestingSchedule),
}

/// The model of a vesting engine.
pub struct VestingState {
    /// The admin; `None` until the engine is initialized.
    pub admin: Option<Address>,
    /// The ledger that holds the engine's funds; `None` until the engine is
    /// initialized.
    pub token_contract: Option<Address>,
    /// The schedule of each recipient that has one.
    pub schedules: Map<Address, VestingSchedule>,
    /// The notifications left so far, oldest first.
    pub events: Seq<VestingEvent>,
}

impl VestingState {
    /// The state of an engine that is not initialized yet: no admin, no
    /// ledger, no schedule, no notifications.
    pub open spec fn new() -> VestingState {
        VestingState { admin: None, token_contract: None, schedules: Map::empty(), events: Seq::empty() }
    }

    /// What holds of every engine: each schedule is valid and stored under
    /// its recipient, and an engine without an admin has no schedule.
    pub open spec fn valid(self) -> bool {
        &&& forall|r: Address| #[trigger]
            self.schedules.contains_key(r) ==> self.schedules[r].valid() && self.schedules[r].recipient == r
        &&& (self.admin is None ==> self.schedules == Map::<Address, VestingSchedule>::empty())
    }

    /// The state with `event` added to its notifications.
    pub open spec fn emit(self, event: VestingEvent) -> VestingState {
        VestingState { events: self.events.push(event), ..self }
    }

    /// The state in which `schedule` stands for its recipient.
    pub open spec fn with_schedule(self, schedule: VestingSchedule) -> VestingState {
        VestingState { schedules: self.schedules.insert(schedule.recipient, schedule), ..self }
    }

    /// The failure of an operation that only the admin may invoke, as far as
    /// it comes from who calls.
    pub open spec fn admin_error(self, caller: Address) -> Option<VestingError> {
        if self.admin is None {
            Some(VestingError::NotInitialized)
        } else if self.admin != Some(caller) {
            Some(VestingError::Unauthorized)
        } else {
            None
        }
    }

    // ── initialize ──────────────────────────────────────────────────────

    /// The failure of `initialize`, if it fails: the engine has an admin
    /// already.
    pub open spec fn initialize_error(self) -> Option<VestingError> {
        if self.admin is Some {
            Some(VestingError::AlreadyInitialized)
        } else {
            None
        }
    }

    /// The state that a successful `initialize` leaves.
    pub open spec fn after_initialize(self, admin: Address, token_contract: Address) -> VestingState {
        VestingState { admin: Some(admin), token_contract: Some(token_contract), ..self }.emit(
            VestingEvent::Init { admin, token_contract },
        )
    }

    // ── create_schedule ─────────────────────────────────────────────────

    /// The failure of `create_schedule`, if it fails: the caller is not the
    /// admin, the amount is not positive, the end is not after the cliff, or
    /// the recipient has a schedule already.
    pub open spec fn create_schedule_error(
        self,
        caller: Address,
        recipient: Address,
        total_amount: i128,
        cliff_ledger: u32,
        end_ledger: u32,
    ) -> Option<VestingError> {
        if self.admin_error(caller) is Some {
            self.admin_error(caller)
        } else if total_amount <= 0 {
            Some(VestingError::TotalAmountNotPositive)
        } else if end_ledger <= cliff_ledger {
            Some(VestingError::EndNotAfterCliff)
        } else if self.schedules.contains_key(recipient) {
            Some(VestingError::ScheduleExists)
        } else {
            None
        }
    }

    /// The state that a successful `create_schedule` leaves: the recipient
    /// has the schedule, with nothing released and not revoked.
    pub open spec fn after_create_schedule(
        self,
        recipient: Address,
        total_amount: i128,
        cliff_ledger: u32,
        end_ledger: u32,
    ) -> VestingState {
        self.with_schedule(
            VestingSchedule { recipient, total_amount, cliff_ledger, end_ledger, released: 0, revoked: false },
        ).emit(VestingEvent::Create { recipient, total_amount })
    }

    // ── release ─────────────────────────────────────────────────────────

    /// The failure of `release`, if it fails: the recipient has no schedule,
    /// the schedule is revoked, the vested amount cannot be computed, nothing
    /// is left to release, or the engine has no ledger.
    pub open spec fn release_error(self, recipient: Address, now: u32) -> Option<VestingError> {
        if !self.schedules.contains_key(recipient) {
            Some(VestingError::NoSchedule)
        } else if self.schedules[recipient].revoked {
            Some(VestingError::ScheduleRevoked)
        } else if self.schedules[recipient].overflows_at(now) {
            Some(VestingError::Overflow)
        } else if self.schedules[recipient].releasable_at(now) <= 0 {
            Some(VestingError::NothingToRelease)
        } else if self.token_contract is None {
            Some(VestingError::NotInitialized)
        } else {
            None
        }
    }

    /// The state that a successful `release` leaves: everything that has
    /// vested counts as released.
    pub open spec fn after_release(self, recipient: Address, now: u32) -> VestingState {
        let schedule = self.schedules[recipient];
        self.with_schedule(schedule.released_up_to(now)).emit(
            VestingEvent::Release { recipient, amount: schedule.releasable_at(now) as i128 },
        )
    }

    /// The payout of a release at `now`: what has vested and was not
    /// released yet, to the recipient.
    pub open spec fn release_payout(self, recipient: Address, now: u32) -> Payout {
        Payout {
            token: self.token_contract->0,
            to: recipient,
            amount: self.schedules[recipient].releasable_at(now) as i128,
        }
    }

    // ── revoke ──────────────────────────────────────────────────────────

    /// The failure of `revoke`, if it fails: the caller is not the admin, the
    /// recipient has no schedule, the schedule is revoked already, the vested
    /// amount cannot be computed, or the engine has no ledger.
    pub open spec fn revoke_error(self, caller: Address, recipient: Address, now: u32) -> Option<VestingError> {
        if self.admin_error(caller) is Some {
            self.admin_error(caller)
        } else if !self.schedules.contains_key(recipient) {
            Some(VestingError::NoSchedule)
        } else if self.schedules[recipient].revoked {
            Some(VestingError::AlreadyRevoked)
        } else if self.schedules[recipient].overflows_at(now) {
            Some(VestingError::Overflow)
        } else if self.token_contract is None {
            Some(VestingError::NotInitialized)
        } else {
            None
        }
    }

    /// The state that a successful `revoke` leaves: the schedule is revoked,
    /// and everything that has vested counts as released.
    pub open spec fn after_revoke(self, recipient: Address, now: u32) -> VestingState {
        let schedule = self.schedules[recipient];
        self.with_schedule(schedule.revoked_at(now)).emit(
            VestingEvent::Revoke {
                recipient,
                released: schedule.releasable_at(now) as i128,
                returned: schedule.unvested_at(now) as i128,
            },
        )
    }

    /// The payouts of a revocation at `now`.
    pub open spec fn revoke_settlement(self, recipient: Address, now: u32) -> Settlement {
        let schedule = self.schedules[recipient];
        Settlement {
            to_recipient: if schedule.releasable_at(now) > 0 {
                Some(
                    Payout {
                        token: self.token_contract->0,
                        to: recipient,
                        amount: schedule.releasable_at(now) as i128,
                    },
                )
            } else {
                None
            },
            to_admin: if schedule.unvested_at(now) > 0 {
                Some(
                    Payout {
                        token: self.token_contract->0,
                        to: self.admin->0,
                        amount: schedule.unvested_at(now) as i128,
                    },
                )
            } else {
                None
            },
        }
    }

    // ── operations that pay out ─────────────────────────────────────────

    /// The failure of a release that also pays out on `ledger`, if it fails:
    /// that of the release, and else that of the payout.
    pub open spec fn release_and_pay_error(
        self,
        ledger: TokenState,
        account: Address,
        recipient: Address,
        now: u32,
    ) -> Option<SettleError> {
        if self.release_error(recipient, now) is Some {
            Some(SettleError::Vesting(self.release_error(recipient, now)->0))
        } else if self.release_payout(recipient, now).error_on(ledger, account) is Some {
            Some(SettleError::Ledger(self.release_payout(recipient, now).error_on(ledger, account)->0))
        } else {
            None
        }
    }

    /// The failure of a revocation that also pays out on `ledger`, if it
    /// fails: that of the revocation, and else that of the payouts.
    pub open spec fn revoke_and_pay_error(
        self,
        ledger: TokenState,
        account: Address,
        caller: Address,
        recipient: Address,
        now: u32,
    ) -> Option<SettleError> {
        if self.revoke_error(caller, recipient, now) is Some {
            Some(SettleError::Vesting(self.revoke_error(caller, recipient, now)->0))
        } else if self.revoke_settlement(recipient, now).error_on(ledger, account) is Some {
            Some(SettleError::Ledger(self.revoke_settlement(recipient, now).error_on(ledger, account)->0))
        } else {
            None
        }
    }

    // ── queries ─────────────────────────────────────────────────────────

    /// What `vested_amount` gives: the vested amount of the recipient's
    /// schedule at `now`, or the failure where there is no schedule or the
    /// amount cannot be computed.
    pub open spec fn vested_amount(self, recipient: Address, now: u32) -> Result<i128, VestingError> {
        if !self.schedules.contains_key(recipient) {
            Err(VestingError::NoSchedule)
        } else if self.schedules[recipient].overflows_at(now) {
            Err(VestingError::Overflow)
        } else {
            Ok(self.schedules[recipient].vested_at(now) as i128)
        }
    }

    /// What `get_schedule` gives: the recipient's schedule, or the failure
    /// where there is none.
    pub open spec fn get_schedule(self, recipient: Address) -> Result<VestingSchedule, VestingError> {
        if self.schedules.contains_key(recipient) {
            Ok(self.schedules[recipient])
        } else {
            Err(VestingError::NoSchedule)
        }
    }
    // ── the engine as entries of a store ────────────────────────────────

    /// What a store holds under `key` for this state, if it holds anything
    /// there.
    pub open spec fn stored(self, key: DataKey) -> Option<VestingValue> {
        match key {
            DataKey::Admin => match self.admin {
                Some(a) => Some(VestingValue::Address(a)),
                None => None,
            },
            DataKey::TokenContract => match self.token_contract {
                Some(a) => Some(VestingValue::Address(a)),
                None => None,
            },
            DataKey::Schedule(recipient) => if self.schedules.contains_key(recipient) {
                Some(VestingValue::Schedule(self.schedules[recipient]))
            } else {
                None
            },
        }
    }

    /// Whether the state can take `value` as its entry under `key`: the
    /// value is of the kind that the key holds, and the state stays valid.
    pub open spec fn admits(self, key: DataKey, value: VestingValue) -> bool {
        match (key, value) {
            (DataKey::Admin, VestingValue::Address(_)) => true,
            (DataKey::TokenContract, VestingValue::Address(_)) => true,
            (DataKey::Schedule(recipient), VestingValue::Schedule(schedule)) => {
                &&& schedule.valid()
                &&& schedule.recipient == recipient
                &&& self.admin is Some
            },
            _ => false,
        }
    }

    /// The state with `value` as its entry under `key`.
    pub open spec fn with_stored(self, key: DataKey, value: VestingValue) -> VestingState {
        match (key, value) {
            (DataKey::Admin, VestingValue::Address(a)) => VestingState { admin: Some(a), ..self },
            (DataKey::TokenContract, VestingValue::Address(a)) => VestingState {
                token_contract: Some(a),
                ..self
            },
            (DataKey::Schedule(recipient), VestingValue::Schedule(schedule)) => VestingState {
                schedules: self.schedules.insert(recipient, schedule),
                ..self
            },
            _ => self,
        }
    }
}

/// A vesting engine. Its view is the [`VestingState`] it stands for.
pub struct VestingContract {
    admin: Option<Address>,
    token_contract: Option<Address>,
    schedules: Table<Address, VestingSchedule>,
    events: Vec<VestingEvent>,
}

impl View for VestingContract {
    type V = VestingState;

    closed spec fn view(&self) -> VestingState {
        VestingState {
            admin: self.admin,
            token_contract: self.token_contract,
            schedules: self.schedules@,
            events: self.events@,
        }
    }
}

impl VestingContract {
    /// The representation invariant: the table of schedules is well formed.
    pub closed spec fn inv(&self) -> bool {
        self.schedules.wf()
    }

    /// Well-formedness: the representation invariant, and the state is valid.
    pub open spec fn wf(&self) -> bool {
        self.inv() && self@.valid()
    }

    /// An engine that is not initialized yet: no admin, no ledger, no
    /// schedule.
    pub fn new() -> (v: VestingContract)
        ensures
            v.wf(),
            v@ == VestingState::new(),
    {
        let v = VestingContract { admin: None, token_contract: None, schedules: Table::new(), events: Vec::new() };
        proof {
            assert(v@.events =~= Seq::<VestingEvent>::empty());
        }
        v
    }

    // ── Initialization ──────────────────────────────────────────────────

    /// Sets the admin and the ledger that holds the engine's funds. Fails on
    /// an engine that has an admin.
    pub fn initialize(&mut self, admin: Address, token_contract: Address) -> (r: Result<(), VestingError>)
        requires
            old(self).wf(),
        ensures
            final(self).wf(),
            match old(self)@.initialize_error() {
                Some(e) => r == Err::<(), VestingError>(e) && final(self)@ == old(self)@,
                None => r is Ok && final(self)@ == old(self)@.after_initialize(admin, token_contract),
            },
    {
        if self.admin.is_some() {
            return Err(VestingError::AlreadyInitialized);
        }
        self.admin = Some(admin);
        self.token_contract = Some(token_contract);
        self.events.push(VestingEvent::Init { admin, token_contract });
        Ok(())
    }

    // ── Admin actions ───────────────────────────────────────────────────

    /// Gives `recipient` a schedule over `total_amount` that starts to
    /// unlock at `cliff_ledger` and has unlocked everything at `end_ledger`.
    /// Admin only; a recipient has one schedule at most.
    ///
    /// The engine's account on the ledger has to hold the amount; this is
    /// not looked at here, and shows when a payout is executed.
    pub fn create_schedule(
        &mut self,
        caller: Address,
        recipient: Address,
        total_amount: i128,
        cliff_ledger: u32,
        end_ledger: u32,
    ) -> (r: Result<(), VestingError>)
        requires
            old(self).wf(),
        ensures
            final(self).wf(),
            match old(self)@.create_schedule_error(caller, recipient, total_amount, cliff_ledger, end_ledger) {
                Some(e) => r == Err::<(), VestingError>(e) && final(self)@ == old(self)@,
                None => r is Ok && final(self)@ == old(self)@.after_create_schedule(
                    recipient,
                    total_amount,
                    cliff_ledger,
                    end_ledger,
                ),
            },
    {
        if let Err(e) = self._require_admin(caller) {
            return Err(e);
        }
        if total_amount <= 0 {
            return Err(VestingError::TotalAmountNotPositive);
        }
        if end_ledger <= cliff_ledger {
            return Err(VestingError::EndNotAfterCliff);
        }
        if self.schedules.get(recipient).is_some() {
            return Err(VestingError::ScheduleExists);
        }
        let schedule = VestingSchedule {
            recipient,
            total_amount,
            cliff_ledger,
            end_ledger,
            released: 0,
            revoked: false,
        };
        self.schedules.set(recipient, schedule);
        self.events.push(VestingEvent::Create { recipient, total_amount });
        Ok(())
    }

    /// Releases to `recipient` what has vested at `now` and was not released
    /// yet, and hands back the payout to execute. Anyone may call this.
    pub fn release(&mut self, recipient: Address, now: u32) -> (r: Result<Payout, VestingError>)
        requires
            old(self).wf(),
        ensures
            final(self).wf(),
            match old(self)@.release_error(recipient, now) {
                Some(e) => r == Err::<Payout, VestingError>(e) && final(self)@ == old(self)@,
                None => r == Ok::<Payout, VestingError>(old(self)@.release_payout(recipient, now))
                    && final(self)@ == old(self)@.after_release(recipient, now),
            },
    {
        let mut schedule = match self.schedules.get(recipient) {
            Some(schedule) => schedule,
            None => {
                return Err(VestingError::NoSchedule);
            },
        };
        if schedule.revoked {
            return Err(VestingError::ScheduleRevoked);
        }
        let vested = match Self::_vested_amount(&schedule, now) {
            Ok(vested) => vested,
            Err(e) => {
                return Err(e);
            },
        };
        let releasable = vested - schedule.released;
        if releasable <= 0 {
            return Err(VestingError::NothingToRelease);
        }
        let token = match self.token_contract {
            Some(token) => token,
            None => {
                return Err(VestingError::NotInitialized);
            },
        };
        schedule.released = schedule.released + releasable;
        self.schedules.set(recipient, schedule);
        self.events.push(VestingEvent::Release { recipient, amount: releasable });
        Ok(Payout { token, to: recipient, amount: releasable })
    }

    /// Revokes the schedule of `recipient` at `now`: what has vested counts
    /// as released, nothing more will be, and the payouts to execute are
    /// handed back. Admin only; a schedule is revoked once.
    pub fn revoke(&mut self, caller: Address, recipient: Address, now: u32) -> (r: Result<
        Settlement,
        VestingError,
    >)
        requires
            old(self).wf(),
        ensures
            final(self).wf(),
            match old(self)@.revoke_error(caller, recipient, now) {
                Some(e) => r == Err::<Settlement, VestingError>(e) && final(self)@ == old(self)@,
                None => r == Ok::<Settlement, VestingError>(old(self)@.revoke_settlement(recipient, now))
                    && final(self)@ == old(self)@.after_revoke(recipient, now),
            },
    {
        let admin = match self.admin {
            Some(admin) => admin,
            None => {
                return Err(VestingError::NotInitialized);
            },
        };
        if admin != caller {
            return Err(VestingError::Unauthorized);
        }
        let mut schedule = match self.schedules.get(recipient) {
            Some(schedule) => schedule,
            None => {
                return Err(VestingError::NoSchedule);
            },
        };
        if schedule.revoked {
            return Err(VestingError::AlreadyRevoked);
        }
        let vested = match Self::_vested_amount(&schedule, now) {
            Ok(vested) => vested,
            Err(e) => {
                return Err(e);
            },
        };
        let releasable = vested - schedule.released;
        let unvested = schedule.total_amount - vested;
        let token = match self.token_contract {
            Some(token) => token,
            None => {
                return Err(VestingError::NotInitialized);
            },
        };
        schedule.revoked = true;
        schedule.released = vested;
        self.schedules.set(recipient, schedule);
        self.events.push(VestingEvent::Revoke { recipient, released: releasable, returned: unvested });
        let to_recipient = if releasable > 0 {
            Some(Payout { token, to: recipient, amount: releasable })
        } else {
            None
        };
        let to_admin = if unvested > 0 {
            Some(Payout { token, to: admin, amount: unvested })
        } else {
            None
        };
        Ok(Settlement { to_recipient, to_admin })
    }

    // ── Operations that pay out ─────────────────────────────────────────

    /// Releases to `recipient` what has vested at `now`, as
    /// [`release`](VestingContract::release) does, and moves it on `ledger`
    /// from the engine's account `account` to the recipient. Where the
    /// ledger refuses the transfer, nothing is released.
    pub fn release_and_pay(
        &mut self,
        ledger: &mut TokenContract,
        account: Address,
        recipient: Address,
        now: u32,
    ) -> (r: Result<Payout, SettleError>)
        requires
            old(self).wf(),
            old(ledger).wf(),
        ensures
            final(self).wf(),
            final(ledger).wf(),
            old(ledger)@.conserved() ==> final(ledger)@.conserved(),
            match old(self)@.release_and_pay_error(old(ledger)@, account, recipient, now) {
                Some(e) => {
                    &&& r == Err::<Payout, SettleError>(e)
                    &&& final(self)@ == old(self)@
                    &&& final(ledger)@ == old(ledger)@
                },
                None => {
                    &&& r == Ok::<Payout, SettleError>(old(self)@.release_payout(recipient, now))
                    &&& final(self)@ == old(self)@.after_release(recipient, now)
                    &&& final(ledger)@ == old(self)@.release_payout(recipient, now).applied_to(
                        old(ledger)@,
                        account,
                    )
                },
            },
    {
        let before = self.schedules.get(recipient);
        let payout = match self.release(recipient, now) {
            Ok(payout) => payout,
            Err(e) => {
                return Err(SettleError::Vesting(e));
            },
        };
        match payout.execute(ledger, account) {
            Ok(()) => Ok(payout),
            Err(e) => {
                self.undo(recipient, before);
                proof {
                    assert(self@.schedules =~= old(self)@.schedules);
                    assert(self@.events =~= old(self)@.events);
                }
                Err(SettleError::Ledger(e))
            },
        }
    }

    /// Revokes the schedule of `recipient` at `now`, as
    /// [`revoke`](VestingContract::revoke) does, and moves on `ledger`, from
    /// the engine's account `account`, what had vested to the recipient and
    /// what had not back to the admin. Where the ledger refuses one of the
    /// two transfers, nothing moves and the schedule is not revoked.
    pub fn revoke_and_pay(
        &mut self,
        ledger: &mut TokenContract,
        account: Address,
        caller: Address,
        recipient: Address,
        now: u32,
    ) -> (r: Result<Settlement, SettleError>)
        requires
            old(self).wf(),
            old(ledger).wf(),
        ensures
            final(self).wf(),
            final(ledger).wf(),
            old(ledger)@.conserved() ==> final(ledger)@.conserved(),
            match old(self)@.revoke_and_pay_error(old(ledger)@, account, caller, recipient, now) {
                Some(e) => {
                    &&& r == Err::<Settlement, SettleError>(e)
                    &&& final(self)@ == old(self)@
                    &&& final(ledger)@ == old(ledger)@
                },
                None => {
                    &&& r == Ok::<Settlement, SettleError>(old(self)@.revoke_settlement(recipient, now))
                    &&& final(self)@ == old(self)@.after_revoke(recipient, now)
                    &&& final(ledger)@ == old(self)@.revoke_settlement(recipient, now).applied_to(
                        old(ledger)@,
                        account,
                    )
                },
            },
    {
        let before = self.schedules.get(recipient);
        let settlement = match self.revoke(caller, recipient, now) {
            Ok(settlement) => settlement,
            Err(e) => {
                return Err(SettleError::Vesting(e));
            },
        };
        match settlement.execute(ledger, account) {
            Ok(()) => Ok(settlement),
            Err(e) => {
                self.undo(recipient, before);
                proof {
                    assert(self@.schedules =~= old(self)@.schedules);
                    assert(self@.events =~= old(self)@.events);
                }
                Err(SettleError::Ledger(e))
            },
        }
    }

    /// Takes back the last operation on the schedule of `recipient`: puts
    /// the schedule `before` in its place again and drops the notification.
    fn undo(&mut self, recipient: Address, before: Option<VestingSchedule>)
        requires
            old(self).inv(),
            before is Some,
            old(self)@.events.len() > 0,
        ensures
            final(self).inv(),
            final(self)@ == (VestingState {
                schedules: old(self)@.schedules.insert(recipient, before->0),
                events: old(self)@.events.drop_last(),
                ..old(self)@
            }),
    {
        if let Some(schedule) = before {
            self.schedules.set(recipient, schedule);
        }
        self.events.pop();
    }

    // ── Read-only queries ───────────────────────────────────────────────

    /// What has vested for `recipient` at `now`, released or not. The
    /// result depends on the schedule and on `now` alone, and the engine
    /// stays as it is.
    pub fn vested_amount(&self, recipient: Address, now: u32) -> (r: Result<i128, VestingError>)
        requires
            self.wf(),
        ensures
            r == self@.vested_amount(recipient, now),
    {
        match self.schedules.get(recipient) {
            Some(schedule) => Self::_vested_amount(&schedule, now),
            None => Err(VestingError::NoSchedule),
        }
    }

    /// What was released to `recipient` so far.
    pub fn released_amount(&self, recipient: Address) -> (r: Result<i128, VestingError>)
        requires
            self.wf(),
        ensures
            r == (match self@.get_schedule(recipient) {
                Ok(schedule) => Ok::<i128, VestingError>(schedule.released),
                Err(e) => Err::<i128, VestingError>(e),
            }),
    {
        match self.schedules.get(recipient) {
            Some(schedule) => Ok(schedule.released),
            None => Err(VestingError::NoSchedule),
        }
    }

    /// The schedule of `recipient`.
    pub fn get_schedule(&self, recipient: Address) -> (r: Result<VestingSchedule, VestingError>)
        requires
            self.wf(),
        ensures
            r == self@.get_schedule(recipient),
    {
        match self.schedules.get(recipient) {
            Some(schedule) => Ok(schedule),
            None => Err(VestingError::NoSchedule),
        }
    }

    /// The notifications left so far, oldest first.
    pub fn events(&self) -> (r: &Vec<VestingEvent>)
        ensures
            r@ == self@.events,
    {
        &self.events
    }

    // ── The engine as entries of a store ────────────────────────────────

    /// What a store holds under `key` for this engine, if it holds anything
    /// there.
    pub fn stored(&self, key: DataKey) -> (r: Option<VestingValue>)
        requires
            self.wf(),
        ensures
            r == self@.stored(key),
    {
        match key {
            DataKey::Admin => match self.admin {
                Some(a) => Some(VestingValue::Address(a)),
                None => None,
            },
            DataKey::TokenContract => match self.token_contract {
                Some(a) => Some(VestingValue::Address(a)),
                None => None,
            },
            DataKey::Schedule(recipient) => match self.schedules.get(recipient) {
                Some(schedule) => Some(VestingValue::Schedule(schedule)),
                None => None,
            },
        }
    }

    /// Takes `value` as the entry under `key`, where the engine admits it,
    /// and says whether it did. This is how an engine is built up again from
    /// what a store holds of it; it leaves no notification.
    pub fn restore(&mut self, key: DataKey, value: VestingValue) -> (accepted: bool)
        requires
            old(self).wf(),
        ensures
            final(self).wf(),
            accepted == old(self)@.admits(key, value),
            final(self)@ == (if accepted {
                old(self)@.with_stored(key, value)
            } else {
                old(self)@
            }),
    {
        match (key, value) {
            (DataKey::Admin, VestingValue::Address(a)) => {
                self.admin = Some(a);
                true
            },
            (DataKey::TokenContract, VestingValue::Address(a)) => {
                self.token_contract = Some(a);
                true
            },
            (DataKey::Schedule(recipient), VestingValue::Schedule(schedule)) => {
                if schedule.total_amount <= 0 || schedule.cliff_ledger >= schedule.end_ledger {
                    return false;
                }
                if schedule.released < 0 || schedule.released > schedule.total_amount {
                    return false;
                }
                if schedule.recipient != recipient {
                    return false;
                }
                if self.admin.is_none() {
                    return false;
                }
                self.schedules.set(recipient, schedule);
                true
            },
            _ => false,
        }
    }

    // ── Internals ───────────────────────────────────────────────────────

    fn _require_admin(&self, caller: Address) -> (r: Result<(), VestingError>)
        ensures
            r == (match self@.admin_error(caller) {
                Some(e) => Err::<(), VestingError>(e),
                None => Ok::<(), VestingError>(()),
            }),
    {
        match self.admin {
            None => Err(VestingError::NotInitialized),
            Some(admin) => {
                if admin == caller {
                    Ok(())
                } else {
                    Err(VestingError::Unauthorized)
                }
            },
        }
    }

    /// The amount of `schedule` that has vested at `now`, by the
    /// cliff-plus-linear formula. Fails where the product of the amount and
    /// the elapsed time leaves the range of amounts.
    pub fn _vested_amount(schedule: &VestingSchedule, now: u32) -> (r: Result<i128, VestingError>)
        requires
            schedule.valid(),
        ensures
            r == (if schedule.overflows_at(now) {
                Err::<i128, VestingError>(VestingError::Overflow)
            } else {
                Ok::<i128, VestingError>(schedule.vested_at(now) as i128)
            }),
            r is Ok ==> 0 <= r->Ok_0 <= schedule.total_amount,
    {
        proof {
            schedule.lemma_vested_bounds(now);
        }
        if now < schedule.cliff_ledger {
            return Ok(0);
        }
        if now >= schedule.end_ledger {
            return Ok(schedule.total_amount);
        }
        let elapsed: i128 = (now - schedule.cliff_ledger) as i128;
        let duration: i128 = (schedule.end_ledger - schedule.cliff_ledger) as i128;
        proof {
            lemma_mul_nonnegative(schedule.total_amount as int, elapsed as int);
        }
        match schedule.total_amount.checked_mul(elapsed) {
            Some(product) => Ok(product / duration),
            None => Err(VestingError::Overflow),
        }
    }
}

} // verus!
