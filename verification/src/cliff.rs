use vstd::prelude::*;

use crate::account::Account;
use crate::allowlist::{self, token_allowed};
use crate::contract::{
    auth_only, effective_min_deposit, no_effects, same_config, same_other_streams, same_state,
    VestingDrips,
};
use crate::effects::{deposit, make_deposit, make_payout, payout, Effect, Event, Outcome, Party, Transfer};
use crate::error::VestingError;
use crate::fixed::calculate_total_deposit;
use crate::contract::StreamStats;
use crate::types::{StreamInfo, StreamStatus, VestingSchedule, DRAIN_DELAY_LEDGERS, MAX_METADATA_BYTES};

verus! {

/// Metadata as stored: an empty string is stored as no metadata.
pub open spec fn normalized_metadata(metadata: Option<Vec<u8>>) -> Option<Vec<u8>> {
    match metadata {
        Some(m) => if m@.len() == 0 { None } else { Some(m) },
        None => None,
    }
}

/// The first check of stream creation that fails before the sponsor's
/// authorisation is asked for, if any.
pub open spec fn create_precheck(
    st: &VestingDrips,
    sponsor: Account,
    recipient: Account,
    token: Account,
    rate: i128,
    cliff_duration: u32,
    total_duration: u32,
    metadata: Option<Vec<u8>>,
) -> Option<VestingError> {
    if sponsor == recipient {
        Some(VestingError::InvalidRecipient)
    } else if rate <= 0 {
        Some(VestingError::InvalidRate)
    } else if total_duration <= cliff_duration {
        Some(VestingError::InvalidDuration)
    } else if st.schedules@.contains_key(recipient) {
        Some(VestingError::ScheduleAlreadyExists)
    } else if !token_allowed(st.allowed_tokens@, token) {
        Some(VestingError::TokenNotAllowed)
    } else if metadata matches Some(m) && m@.len() > MAX_METADATA_BYTES {
        Some(VestingError::MetadataTooLong)
    } else {
        None
    }
}

/// The first check of stream creation that fails after the sponsor's
/// authorisation and before the deposit, if any: ledger overflow, deposit
/// overflow, deposit below the minimum.
pub open spec fn create_postcheck(
    st: &VestingDrips,
    rate: i128,
    cliff_duration: u32,
    total_duration: u32,
    now: u32,
) -> Option<VestingError> {
    if now + cliff_duration > u32::MAX {
        Some(VestingError::DepositOverflow)
    } else if now + total_duration > u32::MAX {
        Some(VestingError::DepositOverflow)
    } else if rate * total_duration > i128::MAX {
        Some(VestingError::DepositOverflow)
    } else if rate * total_duration < effective_min_deposit(st.min_deposit) {
        Some(VestingError::DepositBelowMinimum)
    } else {
        None
    }
}

/// The fee owed on a deposit of `d`: `d * fee_bps / 10000`, rounded down.
pub open spec fn fee_amount(st: &VestingDrips, d: int) -> int {
    d * st.fee_bps / 10000
}

/// The check of the fee stage that fails, if any: a fee is configured but no
/// treasury, or the fee computation overflows.
pub open spec fn fee_check(st: &VestingDrips, d: int) -> Option<VestingError> {
    if st.fee_bps > 0 {
        if st.treasury is None {
            Some(VestingError::Unauthorized)
        } else if d * st.fee_bps > i128::MAX {
            Some(VestingError::DepositOverflow)
        } else {
            None
        }
    } else {
        None
    }
}

/// The fee transfer and its event, when a positive fee is due.
pub open spec fn fee_effects(st: &VestingDrips, sponsor: Account, token: Account, d: int) -> Seq<Effect> {
    if st.fee_bps > 0 && fee_amount(st, d) > 0 {
        let treasury = st.treasury.unwrap();
        let fee = fee_amount(st, d) as i128;
        seq![
            Effect::TryTransfer(Transfer { token, from: Party::Holder(sponsor), to: Party::Holder(treasury), amount: fee }),
            Effect::Emit(Event::FeeCollected { sponsor, treasury, fee_amount: fee }),
        ]
    } else {
        Seq::empty()
    }
}

/// The schedule a successful creation stores.
pub open spec fn new_fixed_schedule(
    token: Account,
    sponsor: Account,
    rate: i128,
    cliff_duration: u32,
    total_duration: u32,
    metadata: Option<Vec<u8>>,
    now: u32,
) -> VestingSchedule {
    VestingSchedule {
        token,
        sponsor,
        rate_per_ledger: rate,
        start_ledger: now,
        cliff_ledger: (now + cliff_duration) as u32,
        end_ledger: (now + total_duration) as u32,
        last_claimed_ledger: now,
        total_claimed: 0,
        claimed_amount: 0,
        dust: 0,
        metadata: normalized_metadata(metadata),
        paused_at_ledger: None,
        accumulated_pause_ledgers: 0,
        version: 1,
    }
}

/// The schedule after a claim at `now` that pays `owed_at(now)`.
pub open spec fn claimed_schedule(s: VestingSchedule, now: u32) -> VestingSchedule {
    let c = s.owed_at(now);
    VestingSchedule {
        version: (s.version + 1) as u32,
        last_claimed_ledger: if now < s.end_ledger { now } else { s.end_ledger },
        total_claimed: (s.total_claimed + c) as i128,
        claimed_amount: (s.claimed_amount + c) as i128,
        ..s
    }
}

/// The first check of `claim_vested` that fails, if any.
pub open spec fn claim_check(st: &VestingDrips, recipient: Account, now: u32) -> Option<VestingError> {
    if !st.schedules@.contains_key(recipient) {
        Some(VestingError::ScheduleNotFound)
    } else {
        let s = st.schedules@[recipient];
        if s.paused_at_ledger is Some {
            Some(VestingError::NothingToClaim)
        } else if now < s.cliff_ledger {
            Some(VestingError::CliffNotReached)
        } else if s.version == u32::MAX {
            Some(VestingError::VersionOverflow)
        } else if s.owed_at(now) == 0 {
            Some(VestingError::NothingToClaim)
        } else {
            None
        }
    }
}

/// Whether a claim at `now` reaches the payout arithmetic.
pub open spec fn claim_computes(s: VestingSchedule, now: u32) -> bool {
    s.paused_at_ledger is None && now >= s.cliff_ledger && s.version < u32::MAX
}

/// The effects of a successful claim of `c` tokens.
pub open spec fn claim_effects(s: VestingSchedule, recipient: Account, now: u32) -> Seq<Effect> {
    let c = s.owed_at(now) as i128;
    let through = if now < s.end_ledger { now } else { s.end_ledger };
    let done = claimed_schedule(s, now).claimed_amount >= s.total();
    seq![Effect::RequireAuth(recipient), Effect::TryTransfer(payout(s.token, recipient, c))]
        + (if done { seq![Effect::Emit(Event::StreamCompleted { recipient, token: s.token })] } else { Seq::empty() })
        + seq![Effect::Emit(Event::TokensClaimed { recipient, amount: c, ledger_claimed_through: through })]
}

/// `a + b`, saturating at `u32::MAX`.
pub open spec fn sat_add(a: u32, b: u32) -> u32 {
    if a + b > u32::MAX { u32::MAX } else { (a + b) as u32 }
}

/// `a - b`, saturating at 0.
pub open spec fn sat_sub(a: u32, b: u32) -> u32 {
    if a < b { 0 } else { (a - b) as u32 }
}

/// How a cancellation at `now` splits the stream's balance: the recipient's
/// share and the sponsor's refund.
///
/// The stream's clock is the ledger its accrual has reached (the pause
/// ledger while paused, so paused ledgers do not accrue). At or after the
/// cliff the recipient gets the ledgers since the last claim up to that
/// ledger (and at most `end_ledger`) and the refund is the rest, never
/// negative; before the cliff the whole unpaid span is refunded.
pub open spec fn cancel_split(s: VestingSchedule, now: u32) -> (int, int) {
    let n = s.accrual_ledger(now);
    if n >= s.cliff_ledger {
        let active_end = if n < s.end_ledger { n } else { s.end_ledger };
        let earned = (active_end - s.last_claimed_ledger) * s.rate_per_ledger;
        let refund = s.total() - s.claimed_amount - earned;
        (earned, if refund > 0 { refund } else { 0 })
    } else {
        (0, (s.end_ledger - s.last_claimed_ledger) * s.rate_per_ledger)
    }
}

/// The effects of a successful cancellation.
pub open spec fn cancel_effects(s: VestingSchedule, sponsor: Account, recipient: Account, now: u32) -> Seq<Effect> {
    let share = cancel_split(s, now).0;
    let refund = cancel_split(s, now).1;
    seq![Effect::RequireAuth(sponsor)]
        + (if share > 0 { seq![Effect::TryTransfer(payout(s.token, recipient, share as i128))] } else { Seq::empty() })
        + (if refund > 0 { seq![Effect::TryTransfer(payout(s.token, sponsor, refund as i128))] } else { Seq::empty() })
        + seq![Effect::Emit(Event::StreamCancelled { recipient, refunded_amount: refund as i128 })]
}

/// The schedule after a resume at `now` of a stream paused at `paused_at`:
/// the claim cursor, cliff, end and the pause total move by the paused
/// duration (so the paused ledgers never accrue and the deposit stays as it
/// was), and the version is incremented.
pub open spec fn resumed_schedule(s: VestingSchedule, paused_at: u32, now: u32) -> VestingSchedule {
    let d = sat_sub(now, paused_at);
    VestingSchedule {
        version: (s.version + 1) as u32,
        accumulated_pause_ledgers: sat_add(s.accumulated_pause_ledgers, d),
        last_claimed_ledger: sat_add(s.last_claimed_ledger, d),
        end_ledger: sat_add(s.end_ledger, d),
        cliff_ledger: sat_add(s.cliff_ledger, d),
        paused_at_ledger: None,
        ..s
    }
}

/// Tokens a view reports as claimable at `now`: what a claim would pay, or
/// zero when there is no stream or it is paused.
pub open spec fn claimable_view(st: &VestingDrips, recipient: Account, now: u32) -> int {
    if st.schedules@.contains_key(recipient) {
        st.schedules@[recipient].claimable_at(now)
    } else {
        0
    }
}

/// The status of a stream at `now`.
pub open spec fn status_at(s: VestingSchedule, now: u32) -> StreamStatus {
    if now < s.cliff_ledger {
        StreamStatus::PreCliff
    } else if now < s.end_ledger {
        StreamStatus::Active
    } else {
        StreamStatus::Expired
    }
}

/// `claimed * 10000 / total` rounded down, in basis points, capped at 10000
/// and 0 when nothing positive was claimed or deposited. When `claimed *
/// 10000` exceeds `i128::MAX` it is computed against `total` rounded down to
/// whole basis points instead.
pub open spec fn vested_bps(claimed: int, total: int) -> int {
    let raw = if total <= 0 || claimed <= 0 {
        0
    } else if claimed * 10000 <= i128::MAX {
        claimed * 10000 / total
    } else if total / 10000 == 0 {
        10000
    } else {
        claimed / (total / 10000)
    };
    if raw > 10000 { 10000 } else { raw }
}

/// `claimed` as a share of `total`, in basis points (see [`vested_bps`]).
pub fn basis_points(claimed: i128, total: i128) -> (b: u32)
    ensures
        b == vested_bps(claimed as int, total as int),
{
    let raw: i128 = if total <= 0 || claimed <= 0 {
        0
    } else {
        match claimed.checked_mul(10_000) {
            Some(scaled) => scaled / total,
            None => {
                let unit = total / 10_000;
                if unit == 0 {
                    10_000
                } else {
                    claimed / unit
                }
            },
        }
    };
    if raw > 10_000 {
        10_000
    } else {
        raw as u32
    }
}

impl VestingDrips {
    /// Creates a fixed-rate cliff stream for `recipient` without metadata.
    pub fn create_vesting_stream(
        &mut self,
        sponsor: Account,
        recipient: Account,
        token: Account,
        rate: i128,
        cliff_duration: u32,
        total_duration: u32,
        current_ledger: u32,
    ) -> (r: Outcome<()>)
        ensures
            ({
                let pre = create_precheck(old(self), sponsor, recipient, token, rate, cliff_duration, total_duration, None);
                let post = create_postcheck(old(self), rate, cliff_duration, total_duration, current_ledger);
                let d = rate * total_duration;
                &&& pre matches Some(e) ==> r.result == Err::<(), VestingError>(e)
                    && r.effects@ == Seq::<Effect>::empty() && same_state(final(self), old(self))
                &&& pre is None ==> (post matches Some(e) ==> r.result == Err::<(), VestingError>(e)
                    && r.effects@ == seq![Effect::RequireAuth(sponsor)] && same_state(final(self), old(self)))
                &&& pre is None && post is None ==> (fee_check(old(self), d) matches Some(e) ==>
                    r.result == Err::<(), VestingError>(e)
                    && r.effects@ == seq![Effect::RequireAuth(sponsor), Effect::TryTransfer(deposit(token, sponsor, d as i128))]
                    && same_state(final(self), old(self)))
                &&& pre is None && post is None && fee_check(old(self), d) is None ==> {
                    &&& r.result == Ok::<(), VestingError>(())
                    &&& r.effects@ == seq![Effect::RequireAuth(sponsor), Effect::TryTransfer(deposit(token, sponsor, d as i128))]
                        + fee_effects(old(self), sponsor, token, d)
                        + seq![Effect::Emit(Event::StreamCreated {
                            sponsor,
                            recipient,
                            token,
                            rate,
                            start_ledger: current_ledger,
                            cliff_ledger: (current_ledger + cliff_duration) as u32,
                            end_ledger: (current_ledger + total_duration) as u32,
                            total_deposit: d as i128,
                        })]
                    &&& final(self).schedules@ == old(self).schedules@.insert(
                        recipient,
                        new_fixed_schedule(token, sponsor, rate, cliff_duration, total_duration, None, current_ledger),
                    )
                    &&& same_config(final(self), old(self))
                    &&& same_other_streams(final(self), old(self))
                }
            }),
    {
        self.create_vesting_stream_with_metadata(sponsor, recipient, token, rate, cliff_duration, total_duration, None, current_ledger)
    }

    /// Creates a fixed-rate cliff stream for `recipient`, funded by `sponsor`
    /// with `rate * total_duration` tokens, optionally labelled with metadata.
    ///
    /// The checks run in this order, the first failing one deciding the error:
    /// distinct sponsor and recipient, positive rate, `total_duration >
    /// cliff_duration`, no existing stream, allowed token, metadata of at most
    /// 256 bytes; then (after the sponsor's authorisation) ledger and deposit
    /// overflow and the minimum deposit; then (after the deposit) the fee.
    pub fn create_vesting_stream_with_metadata(
        &mut self,
        sponsor: Account,
        recipient: Account,
        token: Account,
        rate: i128,
        cliff_duration: u32,
        total_duration: u32,
        metadata: Option<Vec<u8>>,
        current_ledger: u32,
    ) -> (r: Outcome<()>)
        ensures
            ({
                let pre = create_precheck(old(self), sponsor, recipient, token, rate, cliff_duration, total_duration, metadata);
                let post = create_postcheck(old(self), rate, cliff_duration, total_duration, current_ledger);
                let d = rate * total_duration;
                &&& pre matches Some(e) ==> r.result == Err::<(), VestingError>(e)
                    && r.effects@ == Seq::<Effect>::empty() && same_state(final(self), old(self))
                &&& pre is None ==> (post matches Some(e) ==> r.result == Err::<(), VestingError>(e)
                    && r.effects@ == seq![Effect::RequireAuth(sponsor)] && same_state(final(self), old(self)))
                &&& pre is None && post is None ==> (fee_check(old(self), d) matches Some(e) ==>
                    r.result == Err::<(), VestingError>(e)
                    && r.effects@ == seq![Effect::RequireAuth(sponsor), Effect::TryTransfer(deposit(token, sponsor, d as i128))]
                    && same_state(final(self), old(self)))
                &&& pre is None && post is None && fee_check(old(self), d) is None ==> {
                    &&& r.result == Ok::<(), VestingError>(())
                    &&& r.effects@ == seq![Effect::RequireAuth(sponsor), Effect::TryTransfer(deposit(token, sponsor, d as i128))]
                        + fee_effects(old(self), sponsor, token, d)
                        + seq![Effect::Emit(Event::StreamCreated {
                            sponsor,
                            recipient,
                            token,
                            rate,
                            start_ledger: current_ledger,
                            cliff_ledger: (current_ledger + cliff_duration) as u32,
                            end_ledger: (current_ledger + total_duration) as u32,
                            total_deposit: d as i128,
                        })]
                    &&& final(self).schedules@ == old(self).schedules@.insert(
                        recipient,
                        new_fixed_schedule(token, sponsor, rate, cliff_duration, total_duration, metadata, current_ledger),
                    )
                    &&& same_config(final(self), old(self))
                    &&& same_other_streams(final(self), old(self))
                }
            }),
    {
        if sponsor == recipient {
            return Outcome { effects: no_effects(), result: Err(VestingError::InvalidRecipient) };
        }
        if rate <= 0 {
            return Outcome { effects: no_effects(), result: Err(VestingError::InvalidRate) };
        }
        if total_duration <= cliff_duration {
            return Outcome { effects: no_effects(), result: Err(VestingError::InvalidDuration) };
        }
        if self.schedules.contains_key(&recipient) {
            return Outcome { effects: no_effects(), result: Err(VestingError::ScheduleAlreadyExists) };
        }
        if !allowlist::is_token_allowed(&self.allowed_tokens, &token) {
            return Outcome { effects: no_effects(), result: Err(VestingError::TokenNotAllowed) };
        }
        let too_long = match &metadata {
            Some(m) => m.len() > MAX_METADATA_BYTES as usize,
            None => false,
        };
        if too_long {
            return Outcome { effects: no_effects(), result: Err(VestingError::MetadataTooLong) };
        }
        let stored_metadata = match metadata {
            Some(m) => if m.len() == 0 { None } else { Some(m) },
            None => None,
        };

        let mut effects = auth_only(sponsor);
        let cliff_ledger = match current_ledger.checked_add(cliff_duration) {
            Some(v) => v,
            None => return Outcome { effects, result: Err(VestingError::DepositOverflow) },
        };
        let end_ledger = match current_ledger.checked_add(total_duration) {
            Some(v) => v,
            None => return Outcome { effects, result: Err(VestingError::DepositOverflow) },
        };
        let total_deposit = match calculate_total_deposit(rate, total_duration) {
            Ok(v) => v,
            Err(e) => return Outcome { effects, result: Err(e) },
        };
        if total_deposit < self.get_min_deposit() {
            return Outcome { effects, result: Err(VestingError::DepositBelowMinimum) };
        }
        effects.push(Effect::TryTransfer(make_deposit(token, sponsor, total_deposit)));
        let ghost base = effects@;

        if self.fee_bps > 0 {
            let treasury = match self.treasury {
                Some(t) => t,
                None => return Outcome { effects, result: Err(VestingError::Unauthorized) },
            };
            let scaled = match total_deposit.checked_mul(self.fee_bps as i128) {
                Some(v) => v,
                None => return Outcome { effects, result: Err(VestingError::DepositOverflow) },
            };
            let fee_amount = scaled / 10_000;
            if fee_amount > 0 {
                effects.push(Effect::TryTransfer(Transfer {
                    token,
                    from: Party::Holder(sponsor),
                    to: Party::Holder(treasury),
                    amount: fee_amount,
                }));
                effects.push(Effect::Emit(Event::FeeCollected { sponsor, treasury, fee_amount }));
            }
        }
        proof {
            assert(effects@ =~= base + fee_effects(old(self), sponsor, token, rate * total_duration));
        }
        let ghost with_fee = effects@;

        let schedule = VestingSchedule {
            token,
            sponsor,
            rate_per_ledger: rate,
            start_ledger: current_ledger,
            cliff_ledger,
            end_ledger,
            last_claimed_ledger: current_ledger,
            total_claimed: 0,
            claimed_amount: 0,
            dust: 0,
            metadata: stored_metadata,
            paused_at_ledger: None,
            accumulated_pause_ledgers: 0,
            version: 1,
        };
        self.schedules.insert(recipient, schedule);
        effects.push(Effect::Emit(Event::StreamCreated {
            sponsor,
            recipient,
            token,
            rate,
            start_ledger: current_ledger,
            cliff_ledger,
            end_ledger,
            total_deposit,
        }));
        proof {
            assert(effects@ =~= with_fee + seq![Effect::Emit(Event::StreamCreated {
                sponsor,
                recipient,
                token,
                rate,
                start_ledger: current_ledger,
                cliff_ledger,
                end_ledger,
                total_deposit,
            })]);
        }
        Outcome { effects, result: Ok(()) }
    }

    /// Claims every token the recipient's fixed-rate stream owes at
    /// `current_ledger` (see [`VestingSchedule::owed_at`]): the ledgers since
    /// the last claim, or at and after `end_ledger` the whole unpaid rest.
    ///
    /// Fails with `ScheduleNotFound`, `NothingToClaim` (paused, or nothing
    /// owed), `CliffNotReached` or `VersionOverflow`. On success the version
    /// is incremented, the claim cursor moves to `min(current_ledger,
    /// end_ledger)`, and a fully paid stream is removed.
    pub fn claim_vested(&mut self, recipient: Account, current_ledger: u32) -> (r: Outcome<i128>)
        requires
            old(self).schedules@.contains_key(recipient) && claim_computes(old(self).schedules@[recipient], current_ledger)
                ==> old(self).schedules@[recipient].claim_defined(current_ledger),
        ensures
            claim_check(old(self), recipient, current_ledger) matches Some(e) ==> r.result == Err::<i128, VestingError>(e)
                && r.effects@ == seq![Effect::RequireAuth(recipient)] && same_state(final(self), old(self)),
            claim_check(old(self), recipient, current_ledger) is None ==> ({
                let s = old(self).schedules@[recipient];
                let c = s.owed_at(current_ledger);
                let s2 = claimed_schedule(s, current_ledger);
                &&& r.result == Ok::<i128, VestingError>(c as i128)
                &&& r.effects@ == claim_effects(s, recipient, current_ledger)
                &&& s2.claimed_amount >= s.total() ==> final(self).schedules@ == old(self).schedules@.remove(recipient)
                &&& s2.claimed_amount < s.total() ==> final(self).schedules@ == old(self).schedules@.insert(recipient, s2)
                &&& same_config(final(self), old(self))
                &&& same_other_streams(final(self), old(self))
            }),
    {
        let mut effects = auth_only(recipient);
        let s = match self.schedules.get(&recipient) {
            Some(s) => s,
            None => return Outcome { effects, result: Err(VestingError::ScheduleNotFound) },
        };
        if s.paused_at_ledger.is_some() {
            return Outcome { effects, result: Err(VestingError::NothingToClaim) };
        }
        if current_ledger < s.cliff_ledger {
            return Outcome { effects, result: Err(VestingError::CliffNotReached) };
        }
        if s.version == u32::MAX {
            return Outcome { effects, result: Err(VestingError::VersionOverflow) };
        }
        let claimable = s.owed(current_ledger);
        if claimable == 0 {
            return Outcome { effects, result: Err(VestingError::NothingToClaim) };
        }
        let token = s.token;
        let total = s.total_deposited();
        effects.push(Effect::TryTransfer(make_payout(token, recipient, claimable)));
        let ghost base = effects@;

        let mut s = self.schedules.remove(&recipient).unwrap();
        let ghost s0 = s;
        let _ = s.increment_version();
        let active_end = if current_ledger < s.end_ledger { current_ledger } else { s.end_ledger };
        s.last_claimed_ledger = active_end;
        s.total_claimed = s.total_claimed + claimable;
        s.claimed_amount = s.claimed_amount + claimable;
        let finished = s.claimed_amount >= total;
        proof {
            assert(s == claimed_schedule(s0, current_ledger));
        }
        if finished {
            effects.push(Effect::Emit(Event::StreamCompleted { recipient, token }));
        } else {
            self.schedules.insert(recipient, s);
        }
        effects.push(Effect::Emit(Event::TokensClaimed { recipient, amount: claimable, ledger_claimed_through: active_end }));
        proof {
            assert(effects@ =~= claim_effects(s0, recipient, current_ledger));
        }
        Outcome { effects, result: Ok(claimable) }
    }

    /// Cancels the recipient's fixed-rate stream; only its sponsor may. At or
    /// after the cliff the recipient is paid the ledgers since the last claim
    /// (up to the pause ledger if the stream is paused) and the sponsor is
    /// refunded the rest; before the cliff the sponsor is refunded everything
    /// unpaid (see [`cancel_split`]). The schedule is removed.
    ///
    /// Fails with `ScheduleNotFound`, `Unauthorized` or `VersionOverflow`.
    pub fn cancel_stream(&mut self, sponsor: Account, recipient: Account, current_ledger: u32) -> (r: Outcome<()>)
        requires
            old(self).schedules@.contains_key(recipient) && old(self).schedules@[recipient].sponsor == sponsor
                && old(self).schedules@[recipient].version < u32::MAX
                ==> old(self).schedules@[recipient].cancel_defined(current_ledger),
        ensures
            !old(self).schedules@.contains_key(recipient) ==> r.result == Err::<(), VestingError>(VestingError::ScheduleNotFound)
                && r.effects@ == seq![Effect::RequireAuth(sponsor)] && same_state(final(self), old(self)),
            old(self).schedules@.contains_key(recipient) && old(self).schedules@[recipient].sponsor != sponsor
                ==> r.result == Err::<(), VestingError>(VestingError::Unauthorized)
                && r.effects@ == seq![Effect::RequireAuth(sponsor)] && same_state(final(self), old(self)),
            old(self).schedules@.contains_key(recipient) && old(self).schedules@[recipient].sponsor == sponsor
                && old(self).schedules@[recipient].version == u32::MAX
                ==> r.result == Err::<(), VestingError>(VestingError::VersionOverflow)
                && r.effects@ == seq![Effect::RequireAuth(sponsor)] && same_state(final(self), old(self)),
            old(self).schedules@.contains_key(recipient) && old(self).schedules@[recipient].sponsor == sponsor
                && old(self).schedules@[recipient].version < u32::MAX ==> {
                &&& r.result == Ok::<(), VestingError>(())
                &&& r.effects@ == cancel_effects(old(self).schedules@[recipient], sponsor, recipient, current_ledger)
                &&& final(self).schedules@ == old(self).schedules@.remove(recipient)
                &&& same_config(final(self), old(self))
                &&& same_other_streams(final(self), old(self))
            },
    {
        let mut effects = auth_only(sponsor);
        let s = match self.schedules.get(&recipient) {
            Some(s) => s,
            None => return Outcome { effects, result: Err(VestingError::ScheduleNotFound) },
        };
        if s.sponsor != sponsor {
            return Outcome { effects, result: Err(VestingError::Unauthorized) };
        }
        if s.version == u32::MAX {
            return Outcome { effects, result: Err(VestingError::VersionOverflow) };
        }
        let ghost s0 = *s;
        let token = s.token;
        let reached = s.current_accrual_ledger(current_ledger);
        let (recipient_share, sponsor_refund) = if reached >= s.cliff_ledger {
            let active_end = if reached < s.end_ledger { reached } else { s.end_ledger };
            let earned = (active_end - s.last_claimed_ledger) as i128 * s.rate_per_ledger;
            let refund = s.total_deposited() - s.claimed_amount - earned;
            (earned, if refund > 0 { refund } else { 0 })
        } else {
            ((0i128), (s.end_ledger - s.last_claimed_ledger) as i128 * s.rate_per_ledger)
        };
        if recipient_share > 0 {
            effects.push(Effect::TryTransfer(make_payout(token, recipient, recipient_share)));
        }
        if sponsor_refund > 0 {
            effects.push(Effect::TryTransfer(make_payout(token, sponsor, sponsor_refund)));
        }
        let _ = self.schedules.remove(&recipient);
        effects.push(Effect::Emit(Event::StreamCancelled { recipient, refunded_amount: sponsor_refund }));
        proof {
            assert(effects@ =~= cancel_effects(s0, sponsor, recipient, current_ledger));
        }
        Outcome { effects, result: Ok(()) }
    }

    /// Pauses the recipient's stream at `current_ledger`; only its sponsor
    /// may. The version is incremented.
    ///
    /// Fails with `ScheduleNotFound`, `Unauthorized`, `StreamAlreadyPaused`
    /// or `VersionOverflow`.
    pub fn pause_stream(&mut self, sponsor: Account, recipient: Account, current_ledger: u32) -> (r: Outcome<()>)
        ensures
            !old(self).schedules@.contains_key(recipient) ==> r.result == Err::<(), VestingError>(VestingError::ScheduleNotFound)
                && r.effects@ == seq![Effect::RequireAuth(sponsor)] && same_state(final(self), old(self)),
            old(self).schedules@.contains_key(recipient) ==> ({
                let s = old(self).schedules@[recipient];
                &&& s.sponsor != sponsor ==> r.result == Err::<(), VestingError>(VestingError::Unauthorized)
                    && r.effects@ == seq![Effect::RequireAuth(sponsor)] && same_state(final(self), old(self))
                &&& s.sponsor == sponsor && s.paused_at_ledger is Some ==> r.result == Err::<(), VestingError>(VestingError::StreamAlreadyPaused)
                    && r.effects@ == seq![Effect::RequireAuth(sponsor)] && same_state(final(self), old(self))
                &&& s.sponsor == sponsor && s.paused_at_ledger is None && s.version == u32::MAX
                    ==> r.result == Err::<(), VestingError>(VestingError::VersionOverflow)
                    && r.effects@ == seq![Effect::RequireAuth(sponsor)] && same_state(final(self), old(self))
                &&& s.sponsor == sponsor && s.paused_at_ledger is None && s.version < u32::MAX ==> {
                    &&& r.result == Ok::<(), VestingError>(())
                    &&& r.effects@ == seq![
                        Effect::RequireAuth(sponsor),
                        Effect::Emit(Event::StreamPaused { recipient, sponsor, paused_at_ledger: current_ledger }),
                    ]
                    &&& final(self).schedules@ == old(self).schedules@.insert(
                        recipient,
                        VestingSchedule { paused_at_ledger: Some(current_ledger), version: (s.version + 1) as u32, ..s },
                    )
                    &&& same_config(final(self), old(self))
                    &&& same_other_streams(final(self), old(self))
                }
            }),
    {
        let mut effects = auth_only(sponsor);
        let s = match self.schedules.get(&recipient) {
            Some(s) => s,
            None => return Outcome { effects, result: Err(VestingError::ScheduleNotFound) },
        };
        if s.sponsor != sponsor {
            return Outcome { effects, result: Err(VestingError::Unauthorized) };
        }
        if s.paused_at_ledger.is_some() {
            return Outcome { effects, result: Err(VestingError::StreamAlreadyPaused) };
        }
        if s.version == u32::MAX {
            return Outcome { effects, result: Err(VestingError::VersionOverflow) };
        }
        let mut s = self.schedules.remove(&recipient).unwrap();
        let _ = s.increment_version();
        s.paused_at_ledger = Some(current_ledger);
        self.schedules.insert(recipient, s);
        effects.push(Effect::Emit(Event::StreamPaused { recipient, sponsor, paused_at_ledger: current_ledger }));
        Outcome { effects, result: Ok(()) }
    }

    /// Resumes a paused stream; only its sponsor may. The claim cursor, the
    /// cliff, the end and the pause total move forward by the paused duration
    /// (saturating), so that the paused ledgers never accrue, and the version
    /// is incremented.
    ///
    /// Fails with `ScheduleNotFound`, `Unauthorized`, `StreamNotPaused` or
    /// `VersionOverflow`.
    pub fn resume_stream(&mut self, sponsor: Account, recipient: Account, current_ledger: u32) -> (r: Outcome<()>)
        ensures
            !old(self).schedules@.contains_key(recipient) ==> r.result == Err::<(), VestingError>(VestingError::ScheduleNotFound)
                && r.effects@ == seq![Effect::RequireAuth(sponsor)] && same_state(final(self), old(self)),
            old(self).schedules@.contains_key(recipient) ==> ({
                let s = old(self).schedules@[recipient];
                &&& s.sponsor != sponsor ==> r.result == Err::<(), VestingError>(VestingError::Unauthorized)
                    && r.effects@ == seq![Effect::RequireAuth(sponsor)] && same_state(final(self), old(self))
                &&& s.sponsor == sponsor && s.paused_at_ledger is None ==> r.result == Err::<(), VestingError>(VestingError::StreamNotPaused)
                    && r.effects@ == seq![Effect::RequireAuth(sponsor)] && same_state(final(self), old(self))
                &&& s.sponsor == sponsor && s.paused_at_ledger is Some && s.version == u32::MAX
                    ==> r.result == Err::<(), VestingError>(VestingError::VersionOverflow)
                    && r.effects@ == seq![Effect::RequireAuth(sponsor)] && same_state(final(self), old(self))
                &&& s.sponsor == sponsor && s.paused_at_ledger is Some && s.version < u32::MAX ==> {
                    let s2 = resumed_schedule(s, s.paused_at_ledger.unwrap(), current_ledger);
                    &&& r.result == Ok::<(), VestingError>(())
                    &&& r.effects@ == seq![
                        Effect::RequireAuth(sponsor),
                        Effect::Emit(Event::StreamResumed { recipient, sponsor, new_end_ledger: s2.end_ledger }),
                    ]
                    &&& final(self).schedules@ == old(self).schedules@.insert(recipient, s2)
                    &&& same_config(final(self), old(self))
                    &&& same_other_streams(final(self), old(self))
                }
            }),
    {
        let mut effects = auth_only(sponsor);
        let s = match self.schedules.get(&recipient) {
            Some(s) => s,
            None => return Outcome { effects, result: Err(VestingError::ScheduleNotFound) },
        };
        if s.sponsor != sponsor {
            return Outcome { effects, result: Err(VestingError::Unauthorized) };
        }
        let paused_at = match s.paused_at_ledger {
            Some(p) => p,
            None => return Outcome { effects, result: Err(VestingError::StreamNotPaused) },
        };
        if s.version == u32::MAX {
            return Outcome { effects, result: Err(VestingError::VersionOverflow) };
        }
        let mut s = self.schedules.remove(&recipient).unwrap();
        let _ = s.increment_version();
        let paused_duration = current_ledger.saturating_sub(paused_at);
        s.accumulated_pause_ledgers = s.accumulated_pause_ledgers.saturating_add(paused_duration);
        s.last_claimed_ledger = s.last_claimed_ledger.saturating_add(paused_duration);
        s.end_ledger = s.end_ledger.saturating_add(paused_duration);
        s.cliff_ledger = s.cliff_ledger.saturating_add(paused_duration);
        s.paused_at_ledger = None;
        let new_end_ledger = s.end_ledger;
        self.schedules.insert(recipient, s);
        effects.push(Effect::Emit(Event::StreamResumed { recipient, sponsor, new_end_ledger }));
        Outcome { effects, result: Ok(()) }
    }

    /// Moves the stream of `current_recipient` to `new_recipient`, unchanged
    /// but for its incremented version.
    ///
    /// Fails with `InvalidRecipient` (same recipient, or the new recipient is
    /// the sponsor), `ScheduleNotFound`, `ScheduleAlreadyExists` or
    /// `VersionOverflow`.
    pub fn transfer_recipient(&mut self, current_recipient: Account, new_recipient: Account) -> (r: Outcome<()>)
        ensures
            current_recipient == new_recipient ==> r.result == Err::<(), VestingError>(VestingError::InvalidRecipient)
                && r.effects@ == seq![Effect::RequireAuth(current_recipient)] && same_state(final(self), old(self)),
            current_recipient != new_recipient && !old(self).schedules@.contains_key(current_recipient)
                ==> r.result == Err::<(), VestingError>(VestingError::ScheduleNotFound)
                && r.effects@ == seq![Effect::RequireAuth(current_recipient)] && same_state(final(self), old(self)),
            current_recipient != new_recipient && old(self).schedules@.contains_key(current_recipient) ==> ({
                let s = old(self).schedules@[current_recipient];
                &&& new_recipient == s.sponsor ==> r.result == Err::<(), VestingError>(VestingError::InvalidRecipient)
                    && r.effects@ == seq![Effect::RequireAuth(current_recipient)] && same_state(final(self), old(self))
                &&& new_recipient != s.sponsor && old(self).schedules@.contains_key(new_recipient)
                    ==> r.result == Err::<(), VestingError>(VestingError::ScheduleAlreadyExists)
                    && r.effects@ == seq![Effect::RequireAuth(current_recipient)] && same_state(final(self), old(self))
                &&& new_recipient != s.sponsor && !old(self).schedules@.contains_key(new_recipient) && s.version == u32::MAX
                    ==> r.result == Err::<(), VestingError>(VestingError::VersionOverflow)
                    && r.effects@ == seq![Effect::RequireAuth(current_recipient)] && same_state(final(self), old(self))
                &&& new_recipient != s.sponsor && !old(self).schedules@.contains_key(new_recipient) && s.version < u32::MAX ==> {
                    &&& r.result == Ok::<(), VestingError>(())
                    &&& r.effects@ == seq![
                        Effect::RequireAuth(current_recipient),
                        Effect::Emit(Event::RecipientTransferred { old_recipient: current_recipient, new_recipient }),
                    ]
                    &&& final(self).schedules@ == old(self).schedules@.remove(current_recipient).insert(
                        new_recipient,
                        VestingSchedule { version: (s.version + 1) as u32, ..s },
                    )
                    &&& same_config(final(self), old(self))
                    &&& same_other_streams(final(self), old(self))
                }
            }),
    {
        let mut effects = auth_only(current_recipient);
        if current_recipient == new_recipient {
            return Outcome { effects, result: Err(VestingError::InvalidRecipient) };
        }
        let s = match self.schedules.get(&current_recipient) {
            Some(s) => s,
            None => return Outcome { effects, result: Err(VestingError::ScheduleNotFound) },
        };
        if new_recipient == s.sponsor {
            return Outcome { effects, result: Err(VestingError::InvalidRecipient) };
        }
        if self.schedules.contains_key(&new_recipient) {
            return Outcome { effects, result: Err(VestingError::ScheduleAlreadyExists) };
        }
        if s.version == u32::MAX {
            return Outcome { effects, result: Err(VestingError::VersionOverflow) };
        }
        let mut s = self.schedules.remove(&current_recipient).unwrap();
        let _ = s.increment_version();
        self.schedules.insert(new_recipient, s);
        effects.push(Effect::Emit(Event::RecipientTransferred { old_recipient: current_recipient, new_recipient }));
        Outcome { effects, result: Ok(()) }
    }

    /// Upgrades a legacy (`version == 0`) schedule to version 1; a no-op on
    /// versioned schedules. It needs the caller's authorisation only and
    /// works before `initialize` as well; the caller is not compared with the
    /// configured admin.
    pub fn migrate_schedule(&mut self, admin: Account, recipient: Account) -> (r: Outcome<()>)
        ensures
            r.effects@ == seq![Effect::RequireAuth(admin)],
            !old(self).schedules@.contains_key(recipient) ==> r.result == Err::<(), VestingError>(VestingError::ScheduleNotFound)
                && same_state(final(self), old(self)),
            old(self).schedules@.contains_key(recipient) && old(self).schedules@[recipient].version >= 1
                ==> r.result == Ok::<(), VestingError>(()) && same_state(final(self), old(self)),
            old(self).schedules@.contains_key(recipient) && old(self).schedules@[recipient].version == 0 ==> {
                &&& r.result == Ok::<(), VestingError>(())
                &&& final(self).schedules@ == old(self).schedules@.insert(
                    recipient,
                    VestingSchedule { version: 1, ..old(self).schedules@[recipient] },
                )
                &&& same_config(final(self), old(self))
                &&& same_other_streams(final(self), old(self))
            },
    {
        let effects = auth_only(admin);
        let s = match self.schedules.get(&recipient) {
            Some(s) => s,
            None => return Outcome { effects, result: Err(VestingError::ScheduleNotFound) },
        };
        if s.version >= 1 {
            return Outcome { effects, result: Ok(()) };
        }
        let mut s = self.schedules.remove(&recipient).unwrap();
        s.version = 1;
        self.schedules.insert(recipient, s);
        Outcome { effects, result: Ok(()) }
    }

    /// Compliance clawback: the stream's sponsor recovers everything the
    /// stream still holds, and the schedule is removed. `clawback_supported`
    /// is whether the stream's token accepted a zero-amount clawback probe.
    ///
    /// Fails with `ScheduleNotFound`, `Unauthorized` (the caller is not the
    /// sponsor) or `ClawbackNotSupported`.
    pub fn clawback_stream(
        &mut self,
        sponsor: Account,
        recipient: Account,
        reason: Vec<u8>,
        clawback_supported: bool,
    ) -> (r: Outcome<()>)
        requires
            old(self).schedules@.contains_key(recipient) && old(self).schedules@[recipient].sponsor == sponsor
                ==> old(self).schedules@[recipient].remaining_defined(),
        ensures
            !old(self).schedules@.contains_key(recipient) ==> r.result == Err::<(), VestingError>(VestingError::ScheduleNotFound)
                && r.effects@ == seq![Effect::RequireAuth(sponsor)] && same_state(final(self), old(self)),
            old(self).schedules@.contains_key(recipient) && old(self).schedules@[recipient].sponsor != sponsor
                ==> r.result == Err::<(), VestingError>(VestingError::Unauthorized)
                && r.effects@ == seq![Effect::RequireAuth(sponsor)] && same_state(final(self), old(self)),
            old(self).schedules@.contains_key(recipient) && old(self).schedules@[recipient].sponsor == sponsor
                && !clawback_supported
                ==> r.result == Err::<(), VestingError>(VestingError::ClawbackNotSupported)
                && r.effects@ == seq![Effect::RequireAuth(sponsor)] && same_state(final(self), old(self)),
            old(self).schedules@.contains_key(recipient) && old(self).schedules@[recipient].sponsor == sponsor
                && clawback_supported ==> ({
                let s = old(self).schedules@[recipient];
                let amount = s.remaining() as i128;
                &&& r.result == Ok::<(), VestingError>(())
                &&& r.effects@ == seq![Effect::RequireAuth(sponsor)]
                    + (if amount > 0 { seq![Effect::Transfer(payout(s.token, sponsor, amount))] } else { Seq::empty() })
                    + seq![Effect::Emit(Event::StreamClawedBack { sponsor, recipient, token: s.token, amount, reason })]
                &&& final(self).schedules@ == old(self).schedules@.remove(recipient)
                &&& same_config(final(self), old(self))
                &&& same_other_streams(final(self), old(self))
            }),
    {
        let mut effects = auth_only(sponsor);
        let s = match self.schedules.get(&recipient) {
            Some(s) => s,
            None => return Outcome { effects, result: Err(VestingError::ScheduleNotFound) },
        };
        if s.sponsor != sponsor {
            return Outcome { effects, result: Err(VestingError::Unauthorized) };
        }
        let remaining = s.checked_remaining().unwrap();
        let token = s.token;
        if !clawback_supported {
            return Outcome { effects, result: Err(VestingError::ClawbackNotSupported) };
        }
        let ghost base = effects@;
        if remaining > 0 {
            effects.push(Effect::Transfer(make_payout(token, sponsor, remaining)));
        }
        let ghost mid = effects@;
        let _ = self.schedules.remove(&recipient);
        effects.push(Effect::Emit(Event::StreamClawedBack { sponsor, recipient, token, amount: remaining, reason }));
        proof {
            assert(mid =~= base + (if remaining > 0 { seq![Effect::Transfer(payout(token, sponsor, remaining))] } else { Seq::<Effect>::empty() }));
        }
        Outcome { effects, result: Ok(()) }
    }

    /// Returns an expired stream's unpaid tokens to its sponsor once
    /// `end_ledger + DRAIN_DELAY_LEDGERS` has passed; anyone may call.
    ///
    /// Fails with `ScheduleNotFound`, `StreamNotExpired`, `DepositOverflow`
    /// (the drain ledger overflows) or `DrainDelayNotExpired`.
    pub fn drain_expired_stream(&mut self, caller: Account, recipient: Account, current_ledger: u32) -> (r: Outcome<()>)
        requires
            old(self).schedules@.contains_key(recipient)
                && current_ledger >= old(self).schedules@[recipient].end_ledger + DRAIN_DELAY_LEDGERS
                ==> old(self).schedules@[recipient].remaining_defined(),
        ensures
            !old(self).schedules@.contains_key(recipient) ==> r.result == Err::<(), VestingError>(VestingError::ScheduleNotFound)
                && r.effects@ == Seq::<Effect>::empty() && same_state(final(self), old(self)),
            old(self).schedules@.contains_key(recipient) ==> ({
                let s = old(self).schedules@[recipient];
                let amount = s.remaining() as i128;
                &&& current_ledger < s.end_ledger ==> r.result == Err::<(), VestingError>(VestingError::StreamNotExpired)
                    && r.effects@ == Seq::<Effect>::empty() && same_state(final(self), old(self))
                &&& current_ledger >= s.end_ledger && s.end_ledger + DRAIN_DELAY_LEDGERS > u32::MAX
                    ==> r.result == Err::<(), VestingError>(VestingError::DepositOverflow)
                    && r.effects@ == Seq::<Effect>::empty() && same_state(final(self), old(self))
                &&& current_ledger >= s.end_ledger && s.end_ledger + DRAIN_DELAY_LEDGERS <= u32::MAX
                    && current_ledger < s.end_ledger + DRAIN_DELAY_LEDGERS
                    ==> r.result == Err::<(), VestingError>(VestingError::DrainDelayNotExpired)
                    && r.effects@ == Seq::<Effect>::empty() && same_state(final(self), old(self))
                &&& current_ledger >= s.end_ledger + DRAIN_DELAY_LEDGERS ==> {
                    &&& r.result == Ok::<(), VestingError>(())
                    &&& r.effects@ == (if amount > 0 { seq![Effect::Transfer(payout(s.token, s.sponsor, amount))] } else { Seq::empty() })
                        + seq![Effect::Emit(Event::StreamDrained { caller, recipient, sponsor: s.sponsor, token: s.token, amount })]
                    &&& final(self).schedules@ == old(self).schedules@.remove(recipient)
                    &&& same_config(final(self), old(self))
                    &&& same_other_streams(final(self), old(self))
                }
            }),
    {
        let mut effects = no_effects();
        let s = match self.schedules.get(&recipient) {
            Some(s) => s,
            None => return Outcome { effects, result: Err(VestingError::ScheduleNotFound) },
        };
        if current_ledger < s.end_ledger {
            return Outcome { effects, result: Err(VestingError::StreamNotExpired) };
        }
        let drain_available_at = match s.end_ledger.checked_add(DRAIN_DELAY_LEDGERS) {
            Some(v) => v,
            None => return Outcome { effects, result: Err(VestingError::DepositOverflow) },
        };
        if current_ledger < drain_available_at {
            return Outcome { effects, result: Err(VestingError::DrainDelayNotExpired) };
        }
        let remaining = s.checked_remaining().unwrap();
        let token = s.token;
        let sponsor = s.sponsor;
        let _ = self.schedules.remove(&recipient);
        if remaining > 0 {
            effects.push(Effect::Transfer(make_payout(token, sponsor, remaining)));
        }
        let ghost mid = effects@;
        effects.push(Effect::Emit(Event::StreamDrained { caller, recipient, sponsor, token, amount: remaining }));
        proof {
            assert(mid =~= (if remaining > 0 { seq![Effect::Transfer(payout(token, sponsor, remaining))] } else { Seq::<Effect>::empty() }));
        }
        Outcome { effects, result: Ok(()) }
    }

    /// Returns an expired stream's unpaid tokens to its sponsor once the
    /// drain delay after `end_ledger` has passed (the drain ledger saturates
    /// at `u32::MAX`); the call needs the caller's authorisation.
    ///
    /// Fails with `ScheduleNotFound`, `StreamNotExpired` or `DrainDelayNotExpired`.
    pub fn emergency_drain(&mut self, sponsor: Account, recipient: Account, current_ledger: u32) -> (r: Outcome<()>)
        requires
            old(self).schedules@.contains_key(recipient)
                && current_ledger >= sat_add(old(self).schedules@[recipient].end_ledger, DRAIN_DELAY_LEDGERS)
                ==> old(self).schedules@[recipient].remaining_defined(),
        ensures
            !old(self).schedules@.contains_key(recipient) ==> r.result == Err::<(), VestingError>(VestingError::ScheduleNotFound)
                && r.effects@ == seq![Effect::RequireAuth(sponsor)] && same_state(final(self), old(self)),
            old(self).schedules@.contains_key(recipient) ==> ({
                let s = old(self).schedules@[recipient];
                let amount = s.remaining() as i128;
                &&& current_ledger < s.end_ledger ==> r.result == Err::<(), VestingError>(VestingError::StreamNotExpired)
                    && r.effects@ == seq![Effect::RequireAuth(sponsor)] && same_state(final(self), old(self))
                &&& current_ledger >= s.end_ledger && current_ledger < sat_add(s.end_ledger, DRAIN_DELAY_LEDGERS)
                    ==> r.result == Err::<(), VestingError>(VestingError::DrainDelayNotExpired)
                    && r.effects@ == seq![Effect::RequireAuth(sponsor)] && same_state(final(self), old(self))
                &&& current_ledger >= s.end_ledger && current_ledger >= sat_add(s.end_ledger, DRAIN_DELAY_LEDGERS) ==> {
                    &&& r.result == Ok::<(), VestingError>(())
                    &&& r.effects@ == seq![Effect::RequireAuth(sponsor)]
                        + (if amount > 0 { seq![Effect::TryTransfer(payout(s.token, s.sponsor, amount))] } else { Seq::empty() })
                        + seq![Effect::Emit(Event::EmergencyDrain { recipient, sponsor: s.sponsor, amount })]
                    &&& final(self).schedules@ == old(self).schedules@.remove(recipient)
                    &&& same_config(final(self), old(self))
                    &&& same_other_streams(final(self), old(self))
                }
            }),
    {
        let mut effects = auth_only(sponsor);
        let s = match self.schedules.get(&recipient) {
            Some(s) => s,
            None => return Outcome { effects, result: Err(VestingError::ScheduleNotFound) },
        };
        if current_ledger < s.end_ledger {
            return Outcome { effects, result: Err(VestingError::StreamNotExpired) };
        }
        let drain_available_at = s.end_ledger.saturating_add(DRAIN_DELAY_LEDGERS);
        if current_ledger < drain_available_at {
            return Outcome { effects, result: Err(VestingError::DrainDelayNotExpired) };
        }
        let amount = s.checked_remaining().unwrap();
        let token = s.token;
        let funder = s.sponsor;
        let ghost base = effects@;
        if amount > 0 {
            effects.push(Effect::TryTransfer(make_payout(token, funder, amount)));
        }
        let ghost mid = effects@;
        let _ = self.schedules.remove(&recipient);
        effects.push(Effect::Emit(Event::EmergencyDrain { recipient, sponsor: funder, amount }));
        proof {
            assert(mid =~= base + (if amount > 0 { seq![Effect::TryTransfer(payout(token, funder, amount))] } else { Seq::<Effect>::empty() }));
        }
        Outcome { effects, result: Ok(()) }
    }

    /// The recipient's fixed-rate schedule, if any.
    pub fn get_schedule(&self, recipient: Account) -> (r: Option<&VestingSchedule>)
        ensures
            r is Some <==> self.schedules@.contains_key(recipient),
            r matches Some(s) ==> *s == self.schedules@[recipient],
    {
        self.schedules.get(&recipient)
    }

    /// Tokens claimable now: zero without a stream, while paused or before
    /// the cliff; otherwise what [`VestingDrips::claim_vested`] would pay.
    pub fn claimable_amount(&self, recipient: Account, current_ledger: u32) -> (a: i128)
        requires
            self.schedules@.contains_key(recipient) && self.schedules@[recipient].paused_at_ledger is None
                && current_ledger >= self.schedules@[recipient].cliff_ledger
                ==> self.schedules@[recipient].owed_defined(current_ledger),
        ensures
            a == claimable_view(self, recipient, current_ledger),
    {
        let s = match self.schedules.get(&recipient) {
            Some(s) => s,
            None => return 0,
        };
        if s.paused_at_ledger.is_some() {
            return 0;
        }
        if current_ledger < s.cliff_ledger {
            return 0;
        }
        s.owed(current_ledger)
    }

    /// Whether the recipient's cliff has been reached (`false` without a stream).
    pub fn is_cliff_passed(&self, recipient: Account, current_ledger: u32) -> (b: bool)
        ensures
            b == (self.schedules@.contains_key(recipient)
                && current_ledger >= self.schedules@[recipient].cliff_ledger),
    {
        match self.schedules.get(&recipient) {
            Some(s) => current_ledger >= s.cliff_ledger,
            None => false,
        }
    }

    /// The stream's status at `current_ledger`, or `None` without a stream.
    pub fn get_status(&self, recipient: Account, current_ledger: u32) -> (r: Option<StreamStatus>)
        ensures
            r is None <==> !self.schedules@.contains_key(recipient),
            r matches Some(st) ==> st == status_at(self.schedules@[recipient], current_ledger),
    {
        let s = match self.schedules.get(&recipient) {
            Some(s) => s,
            None => return None,
        };
        let status = if current_ledger < s.cliff_ledger {
            StreamStatus::PreCliff
        } else if current_ledger < s.end_ledger {
            StreamStatus::Active
        } else {
            StreamStatus::Expired
        };
        Some(status)
    }

    /// Consolidated statistics of the stream at `current_ledger`, or `None`
    /// without a stream; what is claimable is what
    /// [`VestingDrips::claimable_amount`] reports (nothing while paused).
    pub fn get_stats(&self, recipient: Account, current_ledger: u32) -> (r: Option<StreamStats>)
        requires
            self.schedules@.contains_key(recipient) ==> self.schedules@[recipient].stats_defined(current_ledger),
        ensures
            r is None <==> !self.schedules@.contains_key(recipient),
            r matches Some(st) ==> ({
                let s = self.schedules@[recipient];
                &&& st.total_deposited == s.total()
                &&& st.total_claimed == s.total_claimed
                &&& st.remaining == s.total() - s.total_claimed
                &&& st.claimable_now == claimable_view(self, recipient, current_ledger)
            }),
    {
        let s = match self.schedules.get(&recipient) {
            Some(s) => s,
            None => return None,
        };
        let total_deposited = s.total_deposited();
        let total_claimed = s.total_claimed;
        let remaining = total_deposited - total_claimed;
        let claimable_now = self.claimable_amount(recipient, current_ledger);
        Some(StreamStats { total_deposited, total_claimed, remaining, claimable_now })
    }

    /// A snapshot of the stream at `current_ledger`, or `None` without a stream.
    pub fn get_stream_info(&self, recipient: Account, current_ledger: u32) -> (r: Option<StreamInfo>)
        requires
            self.schedules@.contains_key(recipient) ==> self.schedules@[recipient].info_defined(current_ledger),
        ensures
            r is None <==> !self.schedules@.contains_key(recipient),
            r matches Some(info) ==> ({
                let s = self.schedules@[recipient];
                let claimable = claimable_view(self, recipient, current_ledger);
                &&& info.total_deposit == s.total()
                &&& info.claimed_so_far == s.total_claimed
                &&& info.claimable_now == claimable
                &&& info.remaining_locked == s.total() - s.total_claimed - claimable
                &&& info.percent_vested_bps == vested_bps(s.total_claimed as int, s.total())
                &&& info.cliff_reached == (current_ledger >= s.cliff_ledger)
                &&& info.stream_ended == (current_ledger >= s.end_ledger)
            }),
    {
        let s = match self.schedules.get(&recipient) {
            Some(s) => s,
            None => return None,
        };
        let total_deposit = s.total_deposited();
        let claimed_so_far = s.total_claimed;
        let claimable_now = self.claimable_amount(recipient, current_ledger);
        let remaining_locked = total_deposit - claimed_so_far - claimable_now;
        let percent_vested_bps = basis_points(claimed_so_far, total_deposit);
        Some(StreamInfo {
            total_deposit,
            claimed_so_far,
            claimable_now,
            remaining_locked,
            percent_vested_bps,
            cliff_reached: current_ledger >= s.cliff_ledger,
            stream_ended: current_ledger >= s.end_ledger,
        })
    }
}

} // verus!
