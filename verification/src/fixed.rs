use vstd::prelude::*;

use crate::error::VestingError;
use crate::types::VestingSchedule;

verus! {

/// Computes the full deposit `rate * total_duration` for a fixed-rate stream.
///
/// The exact safe boundary is `rate <= i128::MAX / total_duration`; the
/// multiplication overflows immediately above it.
pub fn calculate_total_deposit(rate: i128, total_duration: u32) -> (r: Result<i128, VestingError>)
    ensures
        i128::MIN <= rate * total_duration <= i128::MAX ==> r == Ok::<i128, VestingError>((rate * total_duration) as i128),
        !(i128::MIN <= rate * total_duration <= i128::MAX) ==> r == Err::<i128, VestingError>(VestingError::DepositOverflow),
{
    match rate.checked_mul(total_duration as i128) {
        Some(v) => Ok(v),
        None => Err(VestingError::DepositOverflow),
    }
}

/// `a <= b <= c` splits `(c - a) * r` into `(b - a) * r + (c - b) * r`.
pub proof fn lemma_split_span(r: int, a: int, b: int, c: int)
    requires
        a <= b <= c,
        r > 0,
    ensures
        (b - a) * r + (c - b) * r == (c - a) * r,
        0 <= (b - a) * r <= (c - a) * r,
        0 <= (c - b) * r,
{
    assert((b - a) * r + (c - b) * r == (c - a) * r) by (nonlinear_arith);
    assert(0 <= (b - a) * r) by (nonlinear_arith)
        requires a <= b, r > 0;
    assert(0 <= (c - b) * r) by (nonlinear_arith)
        requires b <= c, r > 0;
}

/// Whether `v` fits in an `i128`.
pub open spec fn in_i128(v: int) -> bool {
    i128::MIN <= v <= i128::MAX
}

impl VestingSchedule {
    /// Where accrual starts: the start ledger moved on by every ledger the
    /// stream spent paused, so that paused ledgers never accrue.
    pub open spec fn accrual_start(self) -> int {
        self.start_ledger + self.accumulated_pause_ledgers
    }

    /// The deposit implied by the schedule: the rate times the ledgers from
    /// the accrual start to the end, `(end_ledger - start_ledger -
    /// accumulated_pause_ledgers) * rate_per_ledger`. Pausing and resuming
    /// leave it unchanged.
    pub open spec fn total(self) -> int {
        (self.end_ledger - self.accrual_start()) * self.rate_per_ledger
    }

    /// The invariant every schedule written by the contract keeps: the
    /// claim cursor lies between the accrual start and the end, the rate is
    /// positive, the implied deposit fits in `i128`, and exactly the ledgers
    /// before the cursor have been paid out.
    pub open spec fn sound(self) -> bool {
        &&& self.accrual_start() <= self.last_claimed_ledger <= self.end_ledger
        &&& self.rate_per_ledger > 0
        &&& self.total() <= i128::MAX
        &&& self.claimed_amount == (self.last_claimed_ledger - self.accrual_start()) * self.rate_per_ledger
        &&& self.total_claimed == self.claimed_amount
    }

    /// Tokens the stream owes its recipient at ledger `now`, pauses aside:
    /// nothing before the cliff, everything not yet paid at or after the end,
    /// and the ledgers since the last claim in between.
    pub open spec fn owed_at(self, now: u32) -> int {
        if now < self.cliff_ledger {
            0
        } else if now >= self.end_ledger {
            self.total() - self.claimed_amount
        } else {
            (now - self.last_claimed_ledger) * self.rate_per_ledger
        }
    }

    /// The deposit implied by the schedule.
    pub fn total_deposited(&self) -> (t: i128)
        requires
            self.total_defined(),
        ensures
            t == self.total(),
    {
        (self.end_ledger - self.start_ledger - self.accumulated_pause_ledgers) as i128 * self.rate_per_ledger
    }

    /// Whether the implied deposit can be computed: the end does not precede
    /// the accrual start and the product fits in `i128`.
    pub open spec fn total_defined(self) -> bool {
        self.accrual_start() <= self.end_ledger && in_i128(self.total())
    }

    /// Whether, past the cliff, what is owed at `now` can be computed without
    /// overflow: the implied deposit, and then either the unpaid rest (at or
    /// after the end) or the accrual since a claim cursor not after `now`.
    pub open spec fn owed_defined(self, now: u32) -> bool {
        &&& self.total_defined()
        &&& now >= self.end_ledger ==> in_i128(self.total() - self.claimed_amount)
        &&& now < self.end_ledger ==> self.last_claimed_ledger <= now
            && in_i128((now - self.last_claimed_ledger) * self.rate_per_ledger)
    }

    /// Whether a claim at `now` computes without overflow: what is owed, and
    /// both claim counters once it is added.
    pub open spec fn claim_defined(self, now: u32) -> bool {
        &&& self.owed_defined(now)
        &&& in_i128(self.total_claimed + self.owed_at(now))
        &&& in_i128(self.claimed_amount + self.owed_at(now))
    }

    /// The ledger the stream's accrual has reached at `now`: `now`, or, while
    /// the stream is paused, the ledger at which it was paused.
    pub open spec fn accrual_ledger(self, now: u32) -> u32 {
        match self.paused_at_ledger {
            Some(p) => if p < now { p } else { now },
            None => now,
        }
    }

    /// [`VestingSchedule::accrual_ledger`] at `now`.
    pub(crate) fn current_accrual_ledger(&self, now: u32) -> (n: u32)
        ensures
            n == self.accrual_ledger(now),
    {
        match self.paused_at_ledger {
            Some(p) => if p < now { p } else { now },
            None => now,
        }
    }

    /// Whether a cancellation at `now` computes without overflow (see
    /// [`crate::cliff::cancel_split`]): past the cliff (as of the ledger the
    /// accrual has reached) the recipient's share, the implied deposit and
    /// the refund; before it the unpaid span.
    pub open spec fn cancel_defined(self, now: u32) -> bool {
        let n = self.accrual_ledger(now);
        if n >= self.cliff_ledger {
            let active_end = if n < self.end_ledger { n } else { self.end_ledger };
            let earned = (active_end - self.last_claimed_ledger) * self.rate_per_ledger;
            &&& self.last_claimed_ledger <= active_end
            &&& in_i128(earned)
            &&& self.total_defined()
            &&& in_i128(self.total() - self.claimed_amount)
            &&& in_i128(self.total() - self.claimed_amount - earned)
        } else {
            &&& self.last_claimed_ledger <= self.end_ledger
            &&& in_i128((self.end_ledger - self.last_claimed_ledger) * self.rate_per_ledger)
        }
    }

    /// Whether the statistics at `now` compute without overflow: the implied
    /// deposit, what remains after the claims, and what is owed.
    pub open spec fn stats_defined(self, now: u32) -> bool {
        &&& self.total_defined()
        &&& in_i128(self.total() - self.total_claimed)
        &&& self.paused_at_ledger is None && now >= self.cliff_ledger ==> self.owed_defined(now)
    }

    /// What a snapshot at `now` reports as claimable: nothing while paused,
    /// else what is owed.
    pub open spec fn claimable_at(self, now: u32) -> int {
        if self.paused_at_ledger is None { self.owed_at(now) } else { 0 }
    }

    /// Whether a snapshot at `now` computes without overflow: the statistics
    /// and the locked remainder after what is claimable.
    pub open spec fn info_defined(self, now: u32) -> bool {
        &&& self.total_defined()
        &&& in_i128(self.total() - self.total_claimed)
        &&& self.paused_at_ledger is None && now >= self.cliff_ledger ==> self.owed_defined(now)
        &&& in_i128(self.total() - self.total_claimed - self.claimable_at(now))
    }

    /// The implied deposit, or `None` when [`VestingSchedule::total_defined`] fails.
    pub fn checked_total(&self) -> (r: Option<i128>)
        ensures
            r is Some <==> self.total_defined(),
            r matches Some(t) ==> t == self.total(),
    {
        if self.start_ledger > self.end_ledger || self.accumulated_pause_ledgers > self.end_ledger - self.start_ledger {
            return None;
        }
        ((self.end_ledger - self.start_ledger - self.accumulated_pause_ledgers) as i128).checked_mul(self.rate_per_ledger)
    }

    /// Whether [`VestingSchedule::owed_defined`] holds at `now`.
    pub fn is_owed_defined(&self, now: u32) -> (b: bool)
        ensures
            b == self.owed_defined(now),
    {
        let total = match self.checked_total() {
            Some(t) => t,
            None => return false,
        };
        if now >= self.end_ledger {
            total.checked_sub(self.claimed_amount).is_some()
        } else {
            self.last_claimed_ledger <= now
                && ((now - self.last_claimed_ledger) as i128).checked_mul(self.rate_per_ledger).is_some()
        }
    }

    /// Whether [`VestingSchedule::claim_defined`] holds at `now`.
    pub fn is_claim_defined(&self, now: u32) -> (b: bool)
        ensures
            b == self.claim_defined(now),
    {
        if !self.is_owed_defined(now) {
            return false;
        }
        let c = self.owed(now);
        self.total_claimed.checked_add(c).is_some() && self.claimed_amount.checked_add(c).is_some()
    }

    /// Whether [`VestingSchedule::cancel_defined`] holds at `now`.
    pub fn is_cancel_defined(&self, now: u32) -> (b: bool)
        ensures
            b == self.cancel_defined(now),
    {
        let n = self.current_accrual_ledger(now);
        if n >= self.cliff_ledger {
            let active_end = if n < self.end_ledger { n } else { self.end_ledger };
            if self.last_claimed_ledger > active_end {
                return false;
            }
            let earned = match ((active_end - self.last_claimed_ledger) as i128).checked_mul(self.rate_per_ledger) {
                Some(e) => e,
                None => return false,
            };
            let total = match self.checked_total() {
                Some(t) => t,
                None => return false,
            };
            match total.checked_sub(self.claimed_amount) {
                Some(rest) => rest.checked_sub(earned).is_some(),
                None => false,
            }
        } else {
            self.last_claimed_ledger <= self.end_ledger
                && ((self.end_ledger - self.last_claimed_ledger) as i128).checked_mul(self.rate_per_ledger).is_some()
        }
    }

    /// Whether [`VestingSchedule::stats_defined`] holds at `now`.
    pub fn is_stats_defined(&self, now: u32) -> (b: bool)
        ensures
            b == self.stats_defined(now),
    {
        let total = match self.checked_total() {
            Some(t) => t,
            None => return false,
        };
        total.checked_sub(self.total_claimed).is_some()
            && (self.paused_at_ledger.is_some() || now < self.cliff_ledger || self.is_owed_defined(now))
    }

    /// Whether [`VestingSchedule::info_defined`] holds at `now`.
    pub fn is_info_defined(&self, now: u32) -> (b: bool)
        ensures
            b == self.info_defined(now),
    {
        let total = match self.checked_total() {
            Some(t) => t,
            None => return false,
        };
        let rest = match total.checked_sub(self.total_claimed) {
            Some(r) => r,
            None => return false,
        };
        let claimable = if self.paused_at_ledger.is_none() && now >= self.cliff_ledger {
            if !self.is_owed_defined(now) {
                return false;
            }
            self.owed(now)
        } else {
            0
        };
        rest.checked_sub(claimable).is_some()
    }

    /// Tokens owed at ledger `now` (see [`VestingSchedule::owed_at`]).
    pub fn owed(&self, now: u32) -> (a: i128)
        requires
            now >= self.cliff_ledger ==> self.owed_defined(now),
        ensures
            a == self.owed_at(now),
    {
        if now < self.cliff_ledger {
            0
        } else if now >= self.end_ledger {
            self.total_deposited() - self.claimed_amount
        } else {
            (now - self.last_claimed_ledger) as i128 * self.rate_per_ledger
        }
    }

    /// The tokens still held for the stream: implied deposit minus what was paid.
    pub open spec fn remaining(self) -> int {
        self.total() - self.claimed_amount
    }

    /// Whether the remaining balance can be computed without overflow.
    pub open spec fn remaining_defined(self) -> bool {
        &&& self.total_defined()
        &&& in_i128(self.remaining())
    }

    /// The remaining balance, or `None` when computing it would overflow.
    pub fn checked_remaining(&self) -> (r: Option<i128>)
        ensures
            r is Some <==> self.remaining_defined(),
            r matches Some(v) ==> v == self.remaining(),
    {
        match self.checked_total() {
            Some(t) => t.checked_sub(self.claimed_amount),
            None => None,
        }
    }

    /// Increments the version counter; fails with `VersionOverflow`, leaving
    /// the schedule unchanged, when it is already `u32::MAX`.
    pub fn increment_version(&mut self) -> (r: Result<(), VestingError>)
        ensures
            old(self).version == u32::MAX ==> r == Err::<(), VestingError>(VestingError::VersionOverflow) && *final(self) == *old(self),
            old(self).version < u32::MAX ==> r == Ok::<(), VestingError>(()) && *final(self) == (VestingSchedule { version: (old(self).version + 1) as u32, ..*old(self) }),
    {
        match self.version.checked_add(1) {
            Some(v) => {
                self.version = v;
                Ok(())
            },
            None => Err(VestingError::VersionOverflow),
        }
    }
}

} // verus!
