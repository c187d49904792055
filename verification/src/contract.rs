use vstd::prelude::*;

use crate::account::Account;
use crate::allowlist::{self, list_with, list_without};
use crate::effects::{Effect, Event, Outcome};
use crate::error::VestingError;
use crate::table::Table;
use crate::types::{
    ContractConfig, MilestoneSchedule, VariableRateSchedule, VestingSchedule, WasmHash,
    DEFAULT_MIN_DEPOSIT, MAX_FEE_BPS, PERSISTENT_BUMP_AMOUNT, PERSISTENT_LEDGER_THRESHOLD,
};

verus! {

/// Consolidated statistics for a fixed-rate stream.
#[derive(Clone, Copy, Debug, PartialEq, Eq, Structural)]
pub struct StreamStats {
    /// The deposit: `rate_per_ledger * (end_ledger - start_ledger -
    /// accumulated_pause_ledgers)`.
    pub total_deposited: i128,
    /// Tokens already transferred to the recipient.
    pub total_claimed: i128,
    /// Tokens still held for this stream: `total_deposited - total_claimed`.
    pub remaining: i128,
    /// Tokens claimable at the queried ledger (zero before the cliff and
    /// while paused).
    pub claimable_now: i128,
}

/// The stored state of the vesting contract.
///
/// Each field is one stored entry (or one family of per-recipient entries):
/// a call needs only the entries it reads, and changes only those its
/// contract names.
pub struct VestingDrips {
    /// The contract admin, once initialized.
    pub admin: Option<Account>,
    /// Whether `initialize` has run.
    pub initialized: bool,
    /// Protocol fee in basis points (0 when unset).
    pub fee_bps: u32,
    /// Where protocol fees go, once configured.
    pub treasury: Option<Account>,
    /// The configured minimum deposit, if any (see [`DEFAULT_MIN_DEPOSIT`]).
    pub min_deposit: Option<i128>,
    /// Allowed stream tokens; empty means every token is allowed.
    pub allowed_tokens: Vec<Account>,
    /// Fixed-rate schedules by recipient.
    pub schedules: Table<VestingSchedule>,
    /// Variable-rate schedules by recipient.
    pub variable_schedules: Table<VariableRateSchedule>,
    /// Milestone schedules by recipient.
    pub milestone_schedules: Table<MilestoneSchedule>,
}

/// The minimum deposit in force: the configured one, else [`DEFAULT_MIN_DEPOSIT`].
pub open spec fn effective_min_deposit(configured: Option<i128>) -> int {
    match configured {
        Some(m) => m as int,
        None => DEFAULT_MIN_DEPOSIT as int,
    }
}

/// The configuration entries of `a` and `b` agree.
pub open spec fn same_config(a: &VestingDrips, b: &VestingDrips) -> bool {
    &&& a.admin == b.admin
    &&& a.initialized == b.initialized
    &&& a.fee_bps == b.fee_bps
    &&& a.treasury == b.treasury
    &&& a.min_deposit == b.min_deposit
    &&& a.allowed_tokens@ == b.allowed_tokens@
}

/// The variable-rate and milestone schedules of `a` and `b` agree.
pub open spec fn same_other_streams(a: &VestingDrips, b: &VestingDrips) -> bool {
    &&& a.variable_schedules@ == b.variable_schedules@
    &&& a.milestone_schedules@ == b.milestone_schedules@
}

/// All stored entries of `a` and `b` agree.
pub open spec fn same_state(a: &VestingDrips, b: &VestingDrips) -> bool {
    &&& same_config(a, b)
    &&& same_other_streams(a, b)
    &&& a.schedules@ == b.schedules@
}

/// Everything but the admin, fee, treasury and initialized entries agree.
pub open spec fn same_but_settings(a: &VestingDrips, b: &VestingDrips) -> bool {
    &&& a.min_deposit == b.min_deposit
    &&& a.allowed_tokens@ == b.allowed_tokens@
    &&& same_other_streams(a, b)
    &&& a.schedules@ == b.schedules@
}

/// An empty effect list.
pub(crate) fn no_effects() -> (v: Vec<Effect>)
    ensures
        v@ == Seq::<Effect>::empty(),
{
    Vec::new()
}

/// The effect list holding only `who`'s authorisation.
pub(crate) fn auth_only(who: Account) -> (v: Vec<Effect>)
    ensures
        v@ == seq![Effect::RequireAuth(who)],
{
    let mut v = Vec::new();
    v.push(Effect::RequireAuth(who));
    v
}

impl VestingDrips {
    /// A freshly deployed contract: nothing configured, no streams.
    pub fn new() -> (s: Self)
        ensures
            s.admin is None,
            !s.initialized,
            s.fee_bps == 0,
            s.treasury is None,
            s.min_deposit is None,
            s.allowed_tokens@ == Seq::<Account>::empty(),
            s.schedules@ == Map::<Account, VestingSchedule>::empty(),
            s.variable_schedules@ == Map::<Account, VariableRateSchedule>::empty(),
            s.milestone_schedules@ == Map::<Account, MilestoneSchedule>::empty(),
    {
        VestingDrips {
            admin: None,
            initialized: false,
            fee_bps: 0,
            treasury: None,
            min_deposit: None,
            allowed_tokens: Vec::new(),
            schedules: Table::new(),
            variable_schedules: Table::new(),
            milestone_schedules: Table::new(),
        }
    }

    /// The compiled-in storage lifetime parameters.
    pub fn get_config() -> (c: ContractConfig)
        ensures
            c.persistent_ledger_threshold == PERSISTENT_LEDGER_THRESHOLD,
            c.persistent_bump_amount == PERSISTENT_BUMP_AMOUNT,
    {
        ContractConfig {
            persistent_ledger_threshold: PERSISTENT_LEDGER_THRESHOLD,
            persistent_bump_amount: PERSISTENT_BUMP_AMOUNT,
        }
    }

    /// The minimum deposit in force.
    pub fn get_min_deposit(&self) -> (m: i128)
        ensures
            m == effective_min_deposit(self.min_deposit),
    {
        match self.min_deposit {
            Some(m) => m,
            None => DEFAULT_MIN_DEPOSIT,
        }
    }

    /// Configures admin, fee and treasury, once.
    ///
    /// Fails with `AlreadyInitialized` after a first success, and with
    /// `InvalidRate` when `fee_bps` exceeds 500.
    pub fn initialize(&mut self, admin: Account, fee_bps: u32, treasury: Account) -> (r: Outcome<()>)
        ensures
            old(self).initialized ==> r.result == Err::<(), VestingError>(VestingError::AlreadyInitialized)
                && r.effects@ == Seq::<Effect>::empty() && same_state(final(self), old(self)),
            !old(self).initialized && fee_bps > MAX_FEE_BPS ==> r.result == Err::<(), VestingError>(VestingError::InvalidRate)
                && r.effects@ == Seq::<Effect>::empty() && same_state(final(self), old(self)),
            !old(self).initialized && fee_bps <= MAX_FEE_BPS ==> {
                &&& r.result == Ok::<(), VestingError>(())
                &&& r.effects@ == seq![
                    Effect::RequireAuth(admin),
                    Effect::Emit(Event::ContractInitialized { admin, fee_bps, treasury }),
                ]
                &&& final(self).admin == Some(admin)
                &&& final(self).fee_bps == fee_bps
                &&& final(self).treasury == Some(treasury)
                &&& final(self).initialized
                &&& same_but_settings(final(self), old(self))
            },
    {
        if self.initialized {
            return Outcome { effects: no_effects(), result: Err(VestingError::AlreadyInitialized) };
        }
        if fee_bps > MAX_FEE_BPS {
            return Outcome { effects: no_effects(), result: Err(VestingError::InvalidRate) };
        }
        let mut effects = auth_only(admin);
        effects.push(Effect::Emit(Event::ContractInitialized { admin, fee_bps, treasury }));
        self.admin = Some(admin);
        self.fee_bps = fee_bps;
        self.treasury = Some(treasury);
        self.initialized = true;
        Outcome { effects, result: Ok(()) }
    }

    /// Replaces the contract's code; only the configured admin may.
    pub fn upgrade(&self, admin: Account, new_wasm_hash: WasmHash) -> (r: Outcome<()>)
        ensures
            self.admin != Some(admin) ==> r.result == Err::<(), VestingError>(VestingError::Unauthorized)
                && r.effects@ == seq![Effect::RequireAuth(admin)],
            self.admin == Some(admin) ==> r.result == Ok::<(), VestingError>(())
                && r.effects@ == seq![
                    Effect::RequireAuth(admin),
                    Effect::Emit(Event::ContractUpgraded { admin, new_wasm_hash }),
                    Effect::UpdateWasm(new_wasm_hash),
                ],
    {
        let mut effects = auth_only(admin);
        if !self.is_admin(admin) {
            return Outcome { effects, result: Err(VestingError::Unauthorized) };
        }
        effects.push(Effect::Emit(Event::ContractUpgraded { admin, new_wasm_hash }));
        effects.push(Effect::UpdateWasm(new_wasm_hash));
        Outcome { effects, result: Ok(()) }
    }

    /// Hands admin authority from the current admin to `new_admin`.
    pub fn transfer_admin(&mut self, admin: Account, new_admin: Account) -> (r: Outcome<()>)
        ensures
            r.effects@ == seq![Effect::RequireAuth(admin)],
            old(self).admin != Some(admin) ==> r.result == Err::<(), VestingError>(VestingError::Unauthorized)
                && same_state(final(self), old(self)),
            old(self).admin == Some(admin) ==> r.result == Ok::<(), VestingError>(())
                && final(self).admin == Some(new_admin)
                && final(self).initialized == old(self).initialized
                && final(self).fee_bps == old(self).fee_bps
                && final(self).treasury == old(self).treasury
                && same_but_settings(final(self), old(self)),
    {
        let effects = auth_only(admin);
        if !self.is_admin(admin) {
            return Outcome { effects, result: Err(VestingError::Unauthorized) };
        }
        self.admin = Some(new_admin);
        Outcome { effects, result: Ok(()) }
    }

    /// Sets the protocol fee (at most 500 bps) and the treasury; only the
    /// configured admin may.
    pub fn set_fee(&mut self, admin: Account, fee_bps: u32, treasury: Account) -> (r: Outcome<()>)
        ensures
            r.effects@ == seq![Effect::RequireAuth(admin)],
            old(self).admin != Some(admin) ==> r.result == Err::<(), VestingError>(VestingError::Unauthorized)
                && same_state(final(self), old(self)),
            old(self).admin == Some(admin) && fee_bps > MAX_FEE_BPS ==> r.result == Err::<(), VestingError>(VestingError::InvalidRate)
                && same_state(final(self), old(self)),
            old(self).admin == Some(admin) && fee_bps <= MAX_FEE_BPS ==> r.result == Ok::<(), VestingError>(())
                && final(self).fee_bps == fee_bps
                && final(self).treasury == Some(treasury)
                && final(self).admin == old(self).admin
                && final(self).initialized == old(self).initialized
                && same_but_settings(final(self), old(self)),
    {
        let effects = auth_only(admin);
        let stored = match self.admin {
            Some(a) => a,
            None => return Outcome { effects, result: Err(VestingError::Unauthorized) },
        };
        if admin != stored {
            return Outcome { effects, result: Err(VestingError::Unauthorized) };
        }
        if fee_bps > MAX_FEE_BPS {
            return Outcome { effects, result: Err(VestingError::InvalidRate) };
        }
        self.fee_bps = fee_bps;
        self.treasury = Some(treasury);
        Outcome { effects, result: Ok(()) }
    }

    /// Sets the minimum deposit, which must be positive; only the configured
    /// admin may.
    pub fn set_min_deposit(&mut self, admin: Account, min_deposit: i128) -> (r: Outcome<()>)
        ensures
            r.effects@ == seq![Effect::RequireAuth(admin)],
            old(self).admin != Some(admin) ==> r.result == Err::<(), VestingError>(VestingError::Unauthorized)
                && same_state(final(self), old(self)),
            old(self).admin == Some(admin) && min_deposit <= 0 ==> r.result == Err::<(), VestingError>(VestingError::InvalidRate)
                && same_state(final(self), old(self)),
            old(self).admin == Some(admin) && min_deposit > 0 ==> r.result == Ok::<(), VestingError>(())
                && final(self).min_deposit == Some(min_deposit)
                && final(self).admin == old(self).admin
                && final(self).initialized == old(self).initialized
                && final(self).fee_bps == old(self).fee_bps
                && final(self).treasury == old(self).treasury
                && final(self).allowed_tokens@ == old(self).allowed_tokens@
                && same_other_streams(final(self), old(self))
                && final(self).schedules@ == old(self).schedules@,
    {
        let effects = auth_only(admin);
        if !self.is_admin(admin) {
            return Outcome { effects, result: Err(VestingError::Unauthorized) };
        }
        if min_deposit <= 0 {
            return Outcome { effects, result: Err(VestingError::InvalidRate) };
        }
        self.min_deposit = Some(min_deposit);
        Outcome { effects, result: Ok(()) }
    }

    /// Adds `token` to the allowlist (no-op if already listed); only the
    /// configured admin may.
    pub fn add_allowed_token(&mut self, admin: Account, token: Account) -> (r: Outcome<()>)
        ensures
            old(self).admin != Some(admin) ==> r.result == Err::<(), VestingError>(VestingError::Unauthorized)
                && r.effects@ == seq![Effect::RequireAuth(admin)] && same_state(final(self), old(self)),
            old(self).admin == Some(admin) ==> {
                &&& r.result == Ok::<(), VestingError>(())
                &&& r.effects@ == seq![
                    Effect::RequireAuth(admin),
                    Effect::Emit(Event::AllowlistUpdated { admin, token, added: true }),
                ]
                &&& final(self).allowed_tokens@ == list_with(old(self).allowed_tokens@, token)
                &&& final(self).admin == old(self).admin
                &&& final(self).initialized == old(self).initialized
                &&& final(self).fee_bps == old(self).fee_bps
                &&& final(self).treasury == old(self).treasury
                &&& final(self).min_deposit == old(self).min_deposit
                &&& same_other_streams(final(self), old(self))
                &&& final(self).schedules@ == old(self).schedules@
            },
    {
        let mut effects = auth_only(admin);
        if !self.is_admin(admin) {
            return Outcome { effects, result: Err(VestingError::Unauthorized) };
        }
        allowlist::add_allowed_token(&mut self.allowed_tokens, &token);
        effects.push(Effect::Emit(Event::AllowlistUpdated { admin, token, added: true }));
        Outcome { effects, result: Ok(()) }
    }

    /// Removes `token` from the allowlist; an emptied list accepts every
    /// token. Only the configured admin may.
    pub fn remove_allowed_token(&mut self, admin: Account, token: Account) -> (r: Outcome<()>)
        ensures
            old(self).admin != Some(admin) ==> r.result == Err::<(), VestingError>(VestingError::Unauthorized)
                && r.effects@ == seq![Effect::RequireAuth(admin)] && same_state(final(self), old(self)),
            old(self).admin == Some(admin) ==> {
                &&& r.result == Ok::<(), VestingError>(())
                &&& r.effects@ == seq![
                    Effect::RequireAuth(admin),
                    Effect::Emit(Event::AllowlistUpdated { admin, token, added: false }),
                ]
                &&& final(self).allowed_tokens@ == list_without(old(self).allowed_tokens@, token)
                &&& final(self).admin == old(self).admin
                &&& final(self).initialized == old(self).initialized
                &&& final(self).fee_bps == old(self).fee_bps
                &&& final(self).treasury == old(self).treasury
                &&& final(self).min_deposit == old(self).min_deposit
                &&& same_other_streams(final(self), old(self))
                &&& final(self).schedules@ == old(self).schedules@
            },
    {
        let mut effects = auth_only(admin);
        if !self.is_admin(admin) {
            return Outcome { effects, result: Err(VestingError::Unauthorized) };
        }
        allowlist::remove_allowed_token(&mut self.allowed_tokens, &token);
        effects.push(Effect::Emit(Event::AllowlistUpdated { admin, token, added: false }));
        Outcome { effects, result: Ok(()) }
    }

    /// Whether `who` is the configured admin.
    pub fn is_admin(&self, who: Account) -> (b: bool)
        ensures
            b == (self.admin == Some(who)),
    {
        match self.admin {
            Some(a) => a == who,
            None => false,
        }
    }

    /// All currently allowed tokens; empty means every token is accepted.
    pub fn get_allowed_tokens(&self) -> (v: Vec<Account>)
        ensures
            v@ == self.allowed_tokens@,
    {
        let n = self.allowed_tokens.len();
        let mut v: Vec<Account> = Vec::new();
        let mut i: usize = 0;
        while i < n
            invariant
                n == self.allowed_tokens@.len(),
                i <= n,
                v@ == self.allowed_tokens@.take(i as int),
            decreases n - i,
        {
            v.push(self.allowed_tokens[i]);
            i = i + 1;
            assert(v@ =~= self.allowed_tokens@.take(i as int));
        }
        assert(v@ =~= self.allowed_tokens@);
        v
    }
}

} // verus!
