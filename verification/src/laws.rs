use vstd::prelude::*;

use crate::account::Account;
use crate::cliff::{
    cancel_effects, cancel_split, claim_check, claimable_view, claimed_schedule, create_postcheck, create_precheck,
    fee_amount, fee_check, fee_effects, new_fixed_schedule, resumed_schedule, sat_sub, vested_bps,
};
use crate::effects::{payout, Effect, Event, Party, Transfer};
use crate::contract::VestingDrips;
use crate::error::{error_code, VestingError};
use crate::fixed::lemma_split_span;
use crate::types::VestingSchedule;
use crate::types::RateSegment;
use crate::variable::{
    accrual, claimed_variable_schedule, ends_ascending, lemma_accrual_is_span, lemma_fits, lemma_span_bounded,
    lemma_span_split, lemma_span_whole, lemma_window,
};
use crate::types::VariableRateSchedule;

verus! {

/// Law: every fixed-rate schedule that creation stores keeps the schedule
/// invariant.
pub proof fn lemma_created_schedule_sound(
    st: &VestingDrips,
    sponsor: Account,
    recipient: Account,
    token: Account,
    rate: i128,
    cliff_duration: u32,
    total_duration: u32,
    metadata: Option<Vec<u8>>,
    now: u32,
)
    requires
        create_precheck(st, sponsor, recipient, token, rate, cliff_duration, total_duration, metadata) is None,
        create_postcheck(st, rate, cliff_duration, total_duration, now) is None,
    ensures
        new_fixed_schedule(token, sponsor, rate, cliff_duration, total_duration, metadata, now).sound(),
        new_fixed_schedule(token, sponsor, rate, cliff_duration, total_duration, metadata, now).total()
            == rate * total_duration,
{
    let s = new_fixed_schedule(token, sponsor, rate, cliff_duration, total_duration, metadata, now);
    assert(s.total() == total_duration * rate);
    assert(total_duration * rate == rate * total_duration) by (nonlinear_arith);
    let z = s.last_claimed_ledger - s.accrual_start();
    let r = s.rate_per_ledger as int;
    assert(z * r == 0) by (nonlinear_arith)
        requires z == 0;
}

/// Law: over a fixed-rate stream's life the claims add up to its deposit:
/// what has been paid plus what is owed never exceeds the deposit, and once
/// both the cliff and the end ledger are reached it is exactly the deposit.
pub proof fn lemma_claims_sum_to_deposit(s: VestingSchedule, now: u32)
    requires
        s.sound(),
        s.last_claimed_ledger <= now,
    ensures
        0 <= s.owed_at(now),
        s.claimed_amount + s.owed_at(now) <= s.total(),
        now >= s.end_ledger && now >= s.cliff_ledger ==> s.claimed_amount + s.owed_at(now) == s.total(),
{
    lemma_split_span(s.rate_per_ledger as int, s.accrual_start(), s.last_claimed_ledger as int, s.end_ledger as int);
    if now >= s.cliff_ledger && now < s.end_ledger {
        lemma_split_span(s.rate_per_ledger as int, s.last_claimed_ledger as int, now as int, s.end_ledger as int);
        lemma_split_span(s.rate_per_ledger as int, s.accrual_start(), now as int, s.end_ledger as int);
    }
}

/// Law: a successful claim keeps the schedule invariant (or finishes the
/// stream, which happens exactly when the claim is made at or after the end).
pub proof fn lemma_claim_keeps_sound(s: VestingSchedule, now: u32)
    requires
        s.sound(),
        s.last_claimed_ledger <= now,
        s.paused_at_ledger is None,
        now >= s.cliff_ledger,
        s.version < u32::MAX,
    ensures
        claimed_schedule(s, now).claimed_amount >= s.total() <==> now >= s.end_ledger,
        now < s.end_ledger ==> claimed_schedule(s, now).sound(),
        claimed_schedule(s, now).version == s.version + 1,
{
    lemma_split_span(s.rate_per_ledger as int, s.accrual_start(), s.last_claimed_ledger as int, s.end_ledger as int);
    if now < s.end_ledger {
        lemma_split_span(s.rate_per_ledger as int, s.last_claimed_ledger as int, now as int, s.end_ledger as int);
        lemma_split_span(s.rate_per_ledger as int, s.accrual_start(), now as int, s.end_ledger as int);
        lemma_split_span(s.rate_per_ledger as int, s.accrual_start(), s.last_claimed_ledger as int, now as int);
        let d = s.end_ledger - now;
        assert(d * s.rate_per_ledger > 0) by (nonlinear_arith)
            requires d > 0, s.rate_per_ledger > 0;
    }
}

/// The schedule after claims at each ledger of `ls` in turn, and what those
/// claims paid in total.
pub open spec fn after_claims(s: VestingSchedule, ls: Seq<u32>) -> (VestingSchedule, int)
    decreases ls.len(),
{
    if ls.len() == 0 {
        (s, 0)
    } else {
        let prev = after_claims(s, ls.drop_last());
        (claimed_schedule(prev.0, ls.last()), prev.1 + prev.0.owed_at(ls.last()))
    }
}

/// Claims at non-decreasing ledgers past the cliff and before the end keep
/// the invariant, move the cursor to the last of them, and add what they pay
/// to the claimed amount.
proof fn lemma_claims_before_end(s: VestingSchedule, ls: Seq<u32>)
    requires
        s.sound(),
        forall|i: int| 0 <= i < ls.len() ==> s.cliff_ledger <= #[trigger] ls[i] < s.end_ledger,
        forall|i: int| 0 <= i < ls.len() ==> s.last_claimed_ledger <= #[trigger] ls[i],
        forall|i: int, j: int| 0 <= i <= j < ls.len() ==> #[trigger] ls[i] <= #[trigger] ls[j],
    ensures
        ({
            let (t, paid) = after_claims(s, ls);
            &&& t.sound()
            &&& t.claimed_amount == s.claimed_amount + paid
            &&& t.start_ledger == s.start_ledger && t.cliff_ledger == s.cliff_ledger
            &&& t.accumulated_pause_ledgers == s.accumulated_pause_ledgers
            &&& t.end_ledger == s.end_ledger && t.rate_per_ledger == s.rate_per_ledger
            &&& t.last_claimed_ledger == (if ls.len() == 0 { s.last_claimed_ledger } else { ls.last() })
        }),
    decreases ls.len(),
{
    if ls.len() > 0 {
        let init = ls.drop_last();
        lemma_claims_before_end(s, init);
        let t = after_claims(s, init).0;
        let now = ls.last();
        if init.len() > 0 {
            assert(init.last() == ls[ls.len() - 2]);
        }
        assert(t.last_claimed_ledger <= now);
        lemma_split_span(t.rate_per_ledger as int, t.accrual_start(), t.last_claimed_ledger as int, now as int);
        lemma_split_span(t.rate_per_ledger as int, t.accrual_start(), now as int, t.end_ledger as int);
    }
}

/// Law: claims made at non-decreasing ledgers, all past the cliff and the
/// claim cursor, every one but the last before the end and the last at or
/// after it, pay out in total exactly what the stream still held: the whole
/// deposit for a stream with nothing claimed yet. The last claim brings the
/// claimed amount to the deposit, so it removes the schedule.
pub proof fn lemma_claim_sequence_pays_deposit(s: VestingSchedule, ls: Seq<u32>)
    requires
        s.sound(),
        ls.len() > 0,
        forall|i: int| 0 <= i < ls.len() ==> s.cliff_ledger <= #[trigger] ls[i],
        forall|i: int| 0 <= i < ls.len() ==> s.last_claimed_ledger <= #[trigger] ls[i],
        forall|i: int, j: int| 0 <= i <= j < ls.len() ==> #[trigger] ls[i] <= #[trigger] ls[j],
        forall|i: int| 0 <= i < ls.len() - 1 ==> #[trigger] ls[i] < s.end_ledger,
        ls.last() >= s.end_ledger,
    ensures
        after_claims(s, ls).1 == s.total() - s.claimed_amount,
        s.claimed_amount == 0 ==> after_claims(s, ls).1 == s.total(),
        after_claims(s, ls).0.claimed_amount == s.total(),
        after_claims(s, ls).0.total() == s.total(),
{
    let init = ls.drop_last();
    assert forall|i: int| 0 <= i < init.len() implies s.cliff_ledger <= #[trigger] init[i] < s.end_ledger by {
        assert(init[i] == ls[i]);
    }
    assert forall|i: int| 0 <= i < init.len() implies s.last_claimed_ledger <= #[trigger] init[i] by {
        assert(init[i] == ls[i]);
    }
    assert forall|i: int, j: int| 0 <= i <= j < init.len() implies #[trigger] init[i] <= #[trigger] init[j] by {
        assert(init[i] == ls[i] && init[j] == ls[j]);
    }
    lemma_claims_before_end(s, init);
    let t = after_claims(s, init).0;
    let now = ls.last();
    if init.len() > 0 {
        assert(init.last() == ls[ls.len() - 2]);
    }
    lemma_claims_sum_to_deposit(t, now);
}

/// Law: a cancellation hands out exactly what the stream still holds: the
/// recipient's share plus the refund is the deposit minus what was paid, and
/// neither is negative. The recipient's share is what the stream owes at the
/// ledger its accrual has reached (so nothing for paused ledgers), and
/// nothing before the cliff.
pub proof fn lemma_cancel_conserves(s: VestingSchedule, now: u32)
    requires
        s.sound(),
        s.last_claimed_ledger <= s.accrual_ledger(now),
    ensures
        cancel_split(s, now).0 >= 0,
        cancel_split(s, now).1 >= 0,
        cancel_split(s, now).0 + cancel_split(s, now).1 == s.remaining(),
        s.accrual_ledger(now) >= s.cliff_ledger ==> cancel_split(s, now).0 == s.owed_at(s.accrual_ledger(now)),
        s.accrual_ledger(now) < s.cliff_ledger ==> cancel_split(s, now).0 == 0,
{
    let n = s.accrual_ledger(now);
    lemma_split_span(s.rate_per_ledger as int, s.accrual_start(), s.last_claimed_ledger as int, s.end_ledger as int);
    if n >= s.cliff_ledger {
        let active_end: int = if n < s.end_ledger { n as int } else { s.end_ledger as int };
        lemma_split_span(s.rate_per_ledger as int, s.last_claimed_ledger as int, active_end, s.end_ledger as int);
        lemma_split_span(s.rate_per_ledger as int, s.accrual_start(), active_end, s.end_ledger as int);
        lemma_split_span(s.rate_per_ledger as int, s.accrual_start(), s.last_claimed_ledger as int, active_end);
    }
}

/// Law: pausing and resuming keep the schedule invariant and leave the
/// deposit unchanged, so a paused stream never pays more than was deposited;
/// this holds whenever the moved end ledger and pause total stay within
/// `u32` (past that the contract's saturating arithmetic clips them).
pub proof fn lemma_resume_keeps_sound(s: VestingSchedule, paused_at: u32, now: u32)
    requires
        s.sound(),
        s.end_ledger + sat_sub(now, paused_at) <= u32::MAX,
        s.accumulated_pause_ledgers + sat_sub(now, paused_at) <= u32::MAX,
    ensures
        resumed_schedule(s, paused_at, now).sound(),
        resumed_schedule(s, paused_at, now).total() == s.total(),
        resumed_schedule(s, paused_at, now).claimed_amount == s.claimed_amount,
        (VestingSchedule { paused_at_ledger: Some(now), version: (s.version + 1) as u32, ..s }).sound(),
{
}

/// Law: a stream paused and later resumed still pays its recipient at most
/// its deposit: after the resume, what has been paid plus what is owed at
/// any later ledger never exceeds the deposit the stream had before the
/// pause, and equals it once the moved end (and cliff) is reached.
pub proof fn lemma_paused_stream_pays_at_most_deposit(s: VestingSchedule, paused_at: u32, resumed_at: u32, now: u32)
    requires
        s.sound(),
        s.end_ledger + sat_sub(resumed_at, paused_at) <= u32::MAX,
        s.accumulated_pause_ledgers + sat_sub(resumed_at, paused_at) <= u32::MAX,
        resumed_schedule(s, paused_at, resumed_at).last_claimed_ledger <= now,
    ensures
        ({
            let t = resumed_schedule(s, paused_at, resumed_at);
            &&& t.claimed_amount + t.owed_at(now) <= s.total()
            &&& now >= t.end_ledger && now >= t.cliff_ledger ==> t.claimed_amount + t.owed_at(now) == s.total()
        }),
{
    lemma_resume_keeps_sound(s, paused_at, resumed_at);
    lemma_claims_sum_to_deposit(resumed_schedule(s, paused_at, resumed_at), now);
}

/// Law: the claimable-amount view reports exactly what a claim would pay,
/// and a paused stream can neither be claimed nor shows anything claimable.
pub proof fn lemma_view_matches_claim(st: &VestingDrips, recipient: Account, now: u32)
    ensures
        claim_check(st, recipient, now) is None
            ==> claimable_view(st, recipient, now) == st.schedules@[recipient].owed_at(now),
        st.schedules@.contains_key(recipient) && st.schedules@[recipient].paused_at_ledger is Some
            ==> claim_check(st, recipient, now) == Some(VestingError::NothingToClaim)
                && claimable_view(st, recipient, now) == 0,
{
}

/// Law: the same holds of variable-rate streams: paid plus owed never
/// exceeds the deposit, and equals it once both the cliff and the end
/// ledger are reached.
pub proof fn lemma_variable_claims_sum_to_deposit(s: VariableRateSchedule, now: u32)
    requires
        s.sound(),
        s.last_claimed_ledger <= now,
    ensures
        0 <= s.owed_at(now),
        s.claimed_amount + s.owed_at(now) <= s.total_deposited,
        now >= s.end_ledger && now >= s.cliff_ledger ==> s.claimed_amount + s.owed_at(now) == s.total_deposited,
{
    let segs = s.segments@;
    let start = s.start_ledger as int;
    lemma_span_bounded(segs, start, s.last_claimed_ledger as int);
    if now >= s.cliff_ledger && now < s.end_ledger {
        lemma_window(segs, start, s.last_claimed_ledger as int, now as int);
        lemma_span_bounded(segs, start, now as int);
    }
}

/// Law: a stream snapshot is consistent: what is claimable now is never
/// negative and never more than the stream still holds, so the locked
/// remainder is never negative, and the vested share lies between 0 and
/// 10000 basis points.
pub proof fn lemma_stream_info_consistent(st: &VestingDrips, recipient: Account, now: u32)
    requires
        st.schedules@.contains_key(recipient),
        st.schedules@[recipient].sound(),
        st.schedules@[recipient].last_claimed_ledger <= now,
    ensures
        0 <= claimable_view(st, recipient, now),
        claimable_view(st, recipient, now) <= st.schedules@[recipient].total() - st.schedules@[recipient].total_claimed,
        0 <= vested_bps(st.schedules@[recipient].total_claimed as int, st.schedules@[recipient].total()) <= 10000,
{
    let s = st.schedules@[recipient];
    lemma_claims_sum_to_deposit(s, now);
    let c = s.total_claimed as int;
    let t = s.total();
    if t > 0 && c > 0 {
        if c * 10000 <= i128::MAX {
            assert(c * 10000 / t >= 0) by (nonlinear_arith)
                requires c > 0, t > 0;
        } else if t / 10000 != 0 {
            assert(c / (t / 10000) >= 0) by (nonlinear_arith)
                requires c > 0, t / 10000 > 0;
        }
    }
}

/// Law: on every schedule that keeps the invariant, with the claim cursor
/// not after the ledger its accrual has reached at `now` (`now`, or the pause
/// ledger while paused), claiming, cancelling and the views compute without
/// overflow, so their preconditions hold there.
pub proof fn lemma_sound_schedule_defined(s: VestingSchedule, now: u32)
    requires
        s.sound(),
        s.last_claimed_ledger <= s.accrual_ledger(now),
    ensures
        s.owed_defined(now),
        s.claim_defined(now),
        s.cancel_defined(now),
        s.stats_defined(now),
        s.info_defined(now),
{
    lemma_claims_sum_to_deposit(s, now);
    lemma_claims_sum_to_deposit(s, s.accrual_ledger(now));
    lemma_cancel_conserves(s, now);
    lemma_split_span(s.rate_per_ledger as int, s.accrual_start(), s.last_claimed_ledger as int, s.end_ledger as int);
    if now < s.end_ledger {
        lemma_split_span(s.rate_per_ledger as int, s.last_claimed_ledger as int, now as int, s.end_ledger as int);
    }
}

/// Law: likewise for variable-rate schedules: a claim on a schedule that
/// keeps the invariant computes without overflow.
pub proof fn lemma_sound_variable_schedule_defined(s: VariableRateSchedule, now: u32)
    requires
        s.sound(),
        s.last_claimed_ledger <= now,
    ensures
        s.owed_defined(now),
        s.claim_defined(now),
{
    let segs = s.segments@;
    let start = s.start_ledger as int;
    lemma_variable_claims_sum_to_deposit(s, now);
    lemma_span_bounded(segs, start, s.last_claimed_ledger as int);
    lemma_span_whole(segs, 0, start);
    if now < s.end_ledger {
        lemma_window(segs, start, s.last_claimed_ledger as int, now as int);
        lemma_span_bounded(segs, start, now as int);
        lemma_fits(segs, 0, s.last_claimed_ledger as int, now as int, start, 0);
    }
}

/// Law: a claim keeps a variable-rate schedule's invariant, or pays it out
/// in full when made at or after the end.
pub proof fn lemma_variable_claim_keeps_sound(s: VariableRateSchedule, now: u32)
    requires
        s.sound(),
        s.last_claimed_ledger <= now,
        now >= s.cliff_ledger,
    ensures
        now < s.end_ledger ==> claimed_variable_schedule(s, now).sound(),
        now >= s.end_ledger ==> claimed_variable_schedule(s, now).claimed_amount == s.total_deposited,
{
    let segs = s.segments@;
    let start = s.start_ledger as int;
    lemma_sound_variable_schedule_defined(s, now);
    if now < s.end_ledger {
        lemma_window(segs, start, s.last_claimed_ledger as int, now as int);
        lemma_span_bounded(segs, start, now as int);
    }
}

/// The variable-rate schedule after claims at each ledger of `ls` in turn,
/// and what those claims paid in total.
pub open spec fn after_variable_claims(s: VariableRateSchedule, ls: Seq<u32>) -> (VariableRateSchedule, int)
    decreases ls.len(),
{
    if ls.len() == 0 {
        (s, 0)
    } else {
        let prev = after_variable_claims(s, ls.drop_last());
        (claimed_variable_schedule(prev.0, ls.last()), prev.1 + prev.0.owed_at(ls.last()))
    }
}

/// Variable-rate claims at non-decreasing ledgers past the cliff and before
/// the end keep the invariant and add what they pay to the claimed amount.
proof fn lemma_variable_claims_before_end(s: VariableRateSchedule, ls: Seq<u32>)
    requires
        s.sound(),
        forall|i: int| 0 <= i < ls.len() ==> s.cliff_ledger <= #[trigger] ls[i] < s.end_ledger,
        forall|i: int| 0 <= i < ls.len() ==> s.last_claimed_ledger <= #[trigger] ls[i],
        forall|i: int, j: int| 0 <= i <= j < ls.len() ==> #[trigger] ls[i] <= #[trigger] ls[j],
    ensures
        ({
            let (t, paid) = after_variable_claims(s, ls);
            &&& t.sound()
            &&& t.claimed_amount == s.claimed_amount + paid
            &&& t.cliff_ledger == s.cliff_ledger && t.end_ledger == s.end_ledger
            &&& t.total_deposited == s.total_deposited
            &&& t.last_claimed_ledger == (if ls.len() == 0 { s.last_claimed_ledger } else { ls.last() })
        }),
    decreases ls.len(),
{
    if ls.len() > 0 {
        let init = ls.drop_last();
        lemma_variable_claims_before_end(s, init);
        let t = after_variable_claims(s, init).0;
        let now = ls.last();
        if init.len() > 0 {
            assert(init.last() == ls[ls.len() - 2]);
        }
        lemma_sound_variable_schedule_defined(t, now);
        lemma_variable_claim_keeps_sound(t, now);
    }
}

/// Law: the same for variable-rate streams: claims at non-decreasing ledgers
/// past the cliff, the last at or after the end and the others before it,
/// pay out in total exactly what the stream still held; the last claim
/// brings the claimed amount to the deposit, so it removes the schedule.
pub proof fn lemma_variable_claim_sequence_pays_deposit(s: VariableRateSchedule, ls: Seq<u32>)
    requires
        s.sound(),
        ls.len() > 0,
        forall|i: int| 0 <= i < ls.len() ==> s.cliff_ledger <= #[trigger] ls[i],
        forall|i: int| 0 <= i < ls.len() ==> s.last_claimed_ledger <= #[trigger] ls[i],
        forall|i: int, j: int| 0 <= i <= j < ls.len() ==> #[trigger] ls[i] <= #[trigger] ls[j],
        forall|i: int| 0 <= i < ls.len() - 1 ==> #[trigger] ls[i] < s.end_ledger,
        ls.last() >= s.end_ledger,
    ensures
        after_variable_claims(s, ls).1 == s.total_deposited - s.claimed_amount,
        s.claimed_amount == 0 ==> after_variable_claims(s, ls).1 == s.total_deposited,
        after_variable_claims(s, ls).0.claimed_amount == s.total_deposited,
{
    let init = ls.drop_last();
    assert forall|i: int| 0 <= i < init.len() implies s.cliff_ledger <= #[trigger] init[i] < s.end_ledger by {
        assert(init[i] == ls[i]);
    }
    assert forall|i: int| 0 <= i < init.len() implies s.last_claimed_ledger <= #[trigger] init[i] by {
        assert(init[i] == ls[i]);
    }
    assert forall|i: int, j: int| 0 <= i <= j < init.len() implies #[trigger] init[i] <= #[trigger] init[j] by {
        assert(init[i] == ls[i] && init[j] == ls[j]);
    }
    lemma_variable_claims_before_end(s, init);
    let t = after_variable_claims(s, init).0;
    let now = ls.last();
    if init.len() > 0 {
        assert(init.last() == ls[ls.len() - 2]);
    }
    lemma_variable_claims_sum_to_deposit(t, now);
}

/// Law: accrual over a window is additive, whatever the rates: for segments
/// whose end ledgers ascend from above the start, the accrual over `[a, b)`
/// plus that over `[b, c)` is the accrual over `[a, c)`, and an empty window
/// accrues nothing. [`crate::variable::compute_variable_claimable`] computes exactly this
/// accrual.
pub proof fn lemma_accrual_additive(segs: Seq<RateSegment>, start: u32, a: u32, b: u32, c: u32)
    requires
        ends_ascending(segs, start as int),
        a <= b <= c,
    ensures
        accrual(segs, 0, a as int, b as int, start as int) + accrual(segs, 0, b as int, c as int, start as int)
            == accrual(segs, 0, a as int, c as int, start as int),
        accrual(segs, 0, a as int, a as int, start as int) == 0,
{
    let st = start as int;
    lemma_accrual_is_span(segs, 0, st, a as int, b as int);
    lemma_accrual_is_span(segs, 0, st, b as int, c as int);
    lemma_accrual_is_span(segs, 0, st, a as int, c as int);
    lemma_accrual_is_span(segs, 0, st, a as int, a as int);
    lemma_span_split(segs, 0, a as int, b as int, c as int, st);
    lemma_span_split(segs, 0, a as int, a as int, a as int, st);
}

/// Law: the vested share is the claimed part of the deposit in basis
/// points, rounded down and capped at 10000. Whenever `claimed * 10000` fits
/// in `i128` (and the deposit is positive) it is exact: it times the deposit
/// is at most `claimed * 10000`, and unless capped, one more basis point
/// would exceed it; for a claim within the deposit it is exactly
/// `claimed * 10000 / total`.
pub proof fn lemma_vested_bps_exact(claimed: int, total: int)
    requires
        total > 0,
        0 <= claimed,
        claimed * 10000 <= i128::MAX,
    ensures
        0 <= vested_bps(claimed, total) <= 10000,
        vested_bps(claimed, total) * total <= claimed * 10000,
        vested_bps(claimed, total) < 10000 ==> claimed * 10000 < (vested_bps(claimed, total) + 1) * total,
        claimed <= total ==> vested_bps(claimed, total) == claimed * 10000 / total,
{
    let x = claimed * 10000;
    let q = x / total;
    assert(q * total <= x && x < (q + 1) * total && q >= 0) by (nonlinear_arith)
        requires q == x / total, total > 0, x >= 0;
    if claimed <= total {
        assert(q <= 10000) by (nonlinear_arith)
            requires q * total <= x, x == claimed * 10000, claimed <= total, total > 0;
    }
    if claimed > 0 && q > 10000 {
        assert(10000 * total <= x) by (nonlinear_arith)
            requires q * total <= x, q > 10000, total > 0;
    }
}

/// Law: the protocol fee on a deposit `d` is `d * fee_bps / 10000` rounded
/// down, paid from the sponsor to the treasury: when a fee is configured and
/// computes, the fee stage transfers an amount `f` with `f * 10000 <= d *
/// fee_bps < (f + 1) * 10000` and reports it, and transfers nothing when that
/// amount is zero or no fee is configured.
pub proof fn lemma_fee_is_share_of_deposit(st: &VestingDrips, sponsor: Account, token: Account, d: int)
    requires
        d >= 0,
        fee_check(st, d) is None,
    ensures
        st.fee_bps == 0 ==> fee_effects(st, sponsor, token, d) == Seq::<Effect>::empty(),
        st.fee_bps > 0 && d * st.fee_bps < 10000 ==> fee_effects(st, sponsor, token, d) == Seq::<Effect>::empty(),
        st.fee_bps > 0 && d * st.fee_bps >= 10000 ==> ({
            let fx = fee_effects(st, sponsor, token, d);
            let treasury = st.treasury.unwrap();
            &&& fx.len() == 2
            &&& fx[0] matches Effect::TryTransfer(t) && t.token == token && t.from == Party::Holder(sponsor)
                && t.to == Party::Holder(treasury)
                && t.amount * 10000 <= d * st.fee_bps < (t.amount + 1) * 10000
            &&& fx[1] matches Effect::Emit(Event::FeeCollected { sponsor: p, treasury: q, fee_amount: a })
                && p == sponsor && q == treasury && fx[0]->TryTransfer_0.amount == a
        }),
{
    if st.fee_bps > 0 {
        let x = d * st.fee_bps;
        let f = fee_amount(st, d);
        assert(f == x / 10000);
        assert(f * 10000 <= x && x < (f + 1) * 10000 && f >= 0) by (nonlinear_arith)
            requires f == x / 10000, x >= 0;
        if x < 10000 {
            assert(f == 0) by (nonlinear_arith)
                requires f * 10000 <= x, x < 10000, f >= 0;
        } else {
            assert(f > 0) by (nonlinear_arith)
                requires x < (f + 1) * 10000, x >= 10000;
            assert(f <= i128::MAX) by (nonlinear_arith)
                requires f * 10000 <= x, x <= i128::MAX, f >= 0;
        }
    }
}

/// Law: a resume moves the claim cursor, the cliff, the end and the pause
/// total forward by exactly the paused duration (whether the pause began
/// before or after the cliff), so the distances between them, the start and
/// the deposit are unchanged; a resume at or before the pause ledger moves
/// nothing. This holds while the moved ledgers stay within `u32`.
pub proof fn lemma_resume_shifts_schedule(s: VestingSchedule, paused_at: u32, now: u32)
    requires
        s.end_ledger + sat_sub(now, paused_at) <= u32::MAX,
        s.cliff_ledger + sat_sub(now, paused_at) <= u32::MAX,
        s.last_claimed_ledger + sat_sub(now, paused_at) <= u32::MAX,
        s.accumulated_pause_ledgers + sat_sub(now, paused_at) <= u32::MAX,
    ensures
        ({
            let t = resumed_schedule(s, paused_at, now);
            let d: int = if now > paused_at { now - paused_at } else { 0 };
            &&& t.cliff_ledger == s.cliff_ledger + d
            &&& t.end_ledger == s.end_ledger + d
            &&& t.last_claimed_ledger == s.last_claimed_ledger + d
            &&& t.accumulated_pause_ledgers == s.accumulated_pause_ledgers + d
            &&& t.cliff_ledger - s.cliff_ledger == t.end_ledger - s.end_ledger
            &&& t.end_ledger - t.cliff_ledger == s.end_ledger - s.cliff_ledger
            &&& t.start_ledger == s.start_ledger
            &&& t.total() == s.total()
            &&& t.paused_at_ledger is None
            &&& forall|l: u32| l < t.cliff_ledger ==> #[trigger] t.owed_at(l) == 0
        }),
{
}

/// Law: a cancellation pays the recipient exactly what the stream owes at
/// the ledger its accrual has reached (nothing before the cliff), refunds
/// the sponsor exactly the rest of what the stream still holds, and reports
/// that refund; a zero amount is not transferred.
pub proof fn lemma_cancel_pays_share_and_refund(s: VestingSchedule, sponsor: Account, recipient: Account, now: u32)
    requires
        s.sound(),
        s.last_claimed_ledger <= s.accrual_ledger(now),
    ensures
        ({
            let n = s.accrual_ledger(now);
            let share: int = if n >= s.cliff_ledger { s.owed_at(n) } else { 0 };
            let refund: int = s.remaining() - share;
            &&& 0 <= share && 0 <= refund
            &&& cancel_effects(s, sponsor, recipient, now) == seq![Effect::RequireAuth(sponsor)]
                + (if share > 0 { seq![Effect::TryTransfer(payout(s.token, recipient, share as i128))] } else { Seq::<Effect>::empty() })
                + (if refund > 0 { seq![Effect::TryTransfer(payout(s.token, sponsor, refund as i128))] } else { Seq::<Effect>::empty() })
                + seq![Effect::Emit(Event::StreamCancelled { recipient, refunded_amount: refund as i128 })]
        }),
{
    lemma_cancel_conserves(s, now);
}

/// Law: distinct errors have distinct codes.
pub proof fn lemma_error_codes_distinct(a: VestingError, b: VestingError)
    requires
        a != b,
    ensures
        error_code(a) != error_code(b),
{
}

} // verus!
